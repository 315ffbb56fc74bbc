use alfa::config::{Bits, Config, EnvDefault, System};

fn env_default(float: Option<&str>, fpu: Option<&str>) -> EnvDefault {
    EnvDefault {
        bits: Bits::Arm64,
        lfa_host: "x86_64-cross-linux-gnu".to_string(),
        lfa_tgt: "aarch64-linux-musleabihf".to_string(),
        lfa_arch: "armv8.1-a".to_string(),
        lfa_float: float.map(|s| s.to_string()),
        lfa_fpu: fpu.map(|s| s.to_string()),
    }
}

#[test]
fn bits_to_string_forms() {
    assert_eq!(Bits::Arm32.to_string(), "arm");
    assert_eq!(Bits::Arm64.to_string(), "arm64");
}

#[test]
fn bits_from_str_accepts_all_spellings() {
    assert_eq!(Bits::from_str("arm"), Ok(Bits::Arm32));
    assert_eq!(Bits::from_str("arm32"), Ok(Bits::Arm32));
    assert_eq!(Bits::from_str("32"), Ok(Bits::Arm32));
    assert_eq!(Bits::from_str("arm64"), Ok(Bits::Arm64));
    assert_eq!(Bits::from_str("64"), Ok(Bits::Arm64));
}

#[test]
fn bits_from_str_rejects_anything_else() {
    assert_eq!(
        Bits::from_str("mips"),
        Err("arch type \"mips\" is incorrect!".to_string())
    );
    assert!(Bits::from_str("").is_err());
}

#[test]
fn env_map_without_optional_entries() {
    let map = env_default(None, None).to_env_map();
    assert_eq!(map.len(), 4);
    assert_eq!(map[0], ("LFA_ARM_ARCH".to_string(), "arm64".to_string()));
    assert_eq!(
        map[1],
        ("LFA_HOST".to_string(), "x86_64-cross-linux-gnu".to_string())
    );
    assert_eq!(
        map[2],
        ("LFA_TGT".to_string(), "aarch64-linux-musleabihf".to_string())
    );
    assert_eq!(map[3], ("LFA_ARCH".to_string(), "armv8.1-a".to_string()));
}

#[test]
fn env_map_with_float_and_fpu() {
    let map = env_default(Some("hard"), Some("neon-fp-armv8")).to_env_map();
    assert_eq!(map.len(), 6);
    assert_eq!(map[4], ("LFA_FLOAT".to_string(), "hard".to_string()));
    assert_eq!(map[5], ("LFA_FPU".to_string(), "neon-fp-armv8".to_string()));
}

#[test]
fn env_map_with_only_float() {
    let map = env_default(Some("soft"), None).to_env_map();
    assert_eq!(map.len(), 5);
    assert_eq!(map[4], ("LFA_FLOAT".to_string(), "soft".to_string()));
}

#[test]
fn config_holds_its_parts() {
    let cfg = Config {
        system: System {
            name: "ALFA".to_string(),
            version: "0.1.0".to_string(),
            author: "tester".to_string(),
        },
        env_default: env_default(None, None),
        env: vec![("MAKEFLAGS".to_string(), "-j4".to_string())],
    };
    assert_eq!(cfg.system.name, "ALFA");
    assert_eq!(cfg.env.len(), 1);
    assert_eq!(cfg.env[0].0, "MAKEFLAGS");
}
