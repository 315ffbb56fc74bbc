use alfa::config::System;
use alfa::profile::{str_sanitizer, Profile};

fn system(name: &str, version: &str) -> System {
    System {
        name: name.to_string(),
        version: version.to_string(),
        author: "tester".to_string(),
    }
}

#[test]
fn sanitizer_strips_and_replaces() {
    assert_eq!(str_sanitizer("He?llo World!"), "Hello_World");
    assert_eq!(str_sanitizer("a/b:c.d,e"), "abcde");
    assert_eq!(str_sanitizer("plain-text_ok"), "plain-text_ok");
    assert_eq!(str_sanitizer(""), "");
    assert_eq!(str_sanitizer("?/:!~@#$%^&*()+{}[]'\"<>\\,."), "");
    assert_eq!(str_sanitizer("  "), "__");
}

#[test]
fn profile_from_token_has_generated_shape() {
    let sys = system("My System!", "1.0 beta");
    let token = "0123456789abcdef0123456789abcdef";
    let p = Profile::new_with_token(&sys, token);
    assert_eq!(p.user_name, format!("lfa_{}", token));
    assert_eq!(p.build_dir, format!("/mnt/My_System-10_beta-{}", token));
}

#[test]
fn generated_profile_parts_are_safe() {
    let sys = system("Test System?", "2.0");
    let p = Profile::new(&sys);
    assert!(p.user_name.starts_with("lfa_"));
    assert_eq!(p.user_name.len(), 4 + 32);
    let token = &p.user_name[4..];
    assert!(token
        .chars()
        .all(|c| c.is_ascii_digit() || ('a'..='f').contains(&c)));
    assert!(p.build_dir.starts_with("/mnt/"));
    let tail = &p.build_dir[5..];
    let disallowed = "?/:!~@#$%^&*()+{}[]'\"<>\\,. ";
    assert!(tail.chars().all(|c| !disallowed.contains(c)));
    assert!(p.user_name.chars().all(|c| !disallowed.contains(c)));
}

#[test]
fn two_runs_draw_distinct_tokens() {
    let sys = system("S", "1");
    let a = Profile::new(&sys);
    let b = Profile::new(&sys);
    assert_ne!(a.user_name, b.user_name);
}

#[test]
fn profile_env_map_entries() {
    let p = Profile {
        user_name: "lfa_feed".to_string(),
        build_dir: "/mnt/x-y-feed".to_string(),
    };
    let map = p.to_env_map();
    assert_eq!(map.len(), 2);
    assert_eq!(map[0], ("ALFA_USER".to_string(), "lfa_feed".to_string()));
    assert_eq!(
        map[1],
        ("ALFA_BUILD_DIR".to_string(), "/mnt/x-y-feed".to_string())
    );
}
