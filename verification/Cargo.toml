[package]
name = "alfa"
version = "0.1.0"
edition = "2021"
publish = false

[dependencies]
anyhow = "*"
clap = { version = "*", features = ["derive"] }
colored = "*"
futures-util = "*"
getch-rs = "*"
indicatif = "*"
md5 = "*"
reqwest = { version = "*", default-features = false, features = ["stream"] }
serde = { version = "*", features = ["derive"] }
tokio = { version = "*", features = ["rt-multi-thread", "macros"] }
toml = "*"
uuid = { version = "*", features = ["v4"] }
