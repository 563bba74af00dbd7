use tabox::cli::{
    megabytes_to_bytes, parse_env_directive, parse_mount_directive, split_on, str_eq,
    EnvDirective,
};
use tabox::SandboxError;

#[test]
fn test_split_on() {
    let parts = split_on("a,b,c", ',');
    let parts: Vec<&str> = parts.iter().map(|s| s.as_str()).collect();
    assert_eq!(parts, vec!["a", "b", "c"]);
    let parts = split_on("", ',');
    let parts: Vec<&str> = parts.iter().map(|s| s.as_str()).collect();
    assert_eq!(parts, vec![""]);
    let parts = split_on("a,,b", ',');
    let parts: Vec<&str> = parts.iter().map(|s| s.as_str()).collect();
    assert_eq!(parts, vec!["a", "", "b"]);
}

#[test]
fn test_str_eq() {
    assert!(str_eq("abc", "abc"));
    assert!(!str_eq("abc", "abd"));
    assert!(!str_eq("abc", "ab"));
    assert!(str_eq("", ""));
}

#[test]
fn test_mount_single_token() {
    let m = parse_mount_directive("/usr").unwrap();
    assert_eq!(m.source, "/usr");
    assert_eq!(m.target, "/usr");
    assert!(!m.writable);
}

#[test]
fn test_mount_rw_shorthand() {
    let m = parse_mount_directive("/data,rw").unwrap();
    assert_eq!(m.source, "/data");
    assert_eq!(m.target, "/data");
    assert!(m.writable);
}

#[test]
fn test_mount_rebind() {
    let m = parse_mount_directive("/host,/inside").unwrap();
    assert_eq!(m.source, "/host");
    assert_eq!(m.target, "/inside");
    assert!(!m.writable);
}

#[test]
fn test_mount_explicit_mode() {
    let m = parse_mount_directive("/host,/inside,rw").unwrap();
    assert!(m.writable);
    let m = parse_mount_directive("/host,/inside,ro").unwrap();
    assert!(!m.writable);
}

#[test]
fn test_mount_two_tokens_keeps_ro_as_target() {
    // with two pieces only a trailing "rw" is special; "ro" is a path
    let m = parse_mount_directive("/host,ro").unwrap();
    assert_eq!(m.source, "/host");
    assert_eq!(m.target, "ro");
    assert!(!m.writable);
}

#[test]
fn test_mount_invalid() {
    match parse_mount_directive("/a,/b,rx") {
        Err(SandboxError::InvalidMount(t)) => assert_eq!(t, "/a,/b,rx"),
        other => panic!("expected an invalid mount error, got {:?}", other),
    }
    assert!(parse_mount_directive("/a,/b,rw,extra").is_err());
}

#[test]
fn test_env_directive() {
    match parse_env_directive("PATH") {
        EnvDirective::Inherit(name) => assert_eq!(name, "PATH"),
        other => panic!("expected an inherit directive, got {:?}", other),
    }
    match parse_env_directive("VAR=42") {
        EnvDirective::Assign(name, value) => {
            assert_eq!(name, "VAR");
            assert_eq!(value, "42");
        },
        other => panic!("expected an assignment, got {:?}", other),
    }
    match parse_env_directive("VAR=a=b") {
        EnvDirective::Assign(name, value) => {
            assert_eq!(name, "VAR");
            assert_eq!(value, "a=b");
        },
        other => panic!("expected an assignment, got {:?}", other),
    }
}

#[test]
fn test_megabytes_to_bytes() {
    assert_eq!(megabytes_to_bytes(256), Some(256_000_000));
    assert_eq!(megabytes_to_bytes(0), Some(0));
    assert_eq!(megabytes_to_bytes(u64::MAX), None);
}
