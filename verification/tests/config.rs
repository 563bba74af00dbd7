use tabox::configuration::SandboxConfiguration;
use tabox::decimal::{parse_u64, u64_to_string};
use tabox::syscall_filter::{SyscallFilter, SyscallFilterAction};

#[test]
fn test_default_configuration() {
    let config = SandboxConfiguration::default();
    assert_eq!(config.executable, "/bin/sh");
    assert_eq!(config.working_directory, "/");
    assert!(config.time_limit.is_none());
    assert!(config.memory_limit.is_none());
    assert!(config.stack_limit.is_none());
    assert!(config.args.is_empty());
    assert!(config.env.is_empty());
    assert!(config.mount_paths.is_empty());
    assert!(config.stdin.is_none());
    assert!(config.stdout.is_none());
    assert!(config.stderr.is_none());
    assert!(config.syscall_filter.is_none());
    assert!(!config.mount_tmpfs);
    assert!(config.wall_time_limit.is_none());
    assert!(config.cpu_core.is_none());
    assert_eq!(config.uid, 0);
    assert_eq!(config.gid, 0);
    assert!(!config.mount_proc);
}

#[test]
fn test_builders() {
    let mut config = SandboxConfiguration::default();
    config.time_limit(1);
    config.memory_limit(256_000_000);
    config.stack_limit(8_000_000);
    config.executable("/bin/prog".to_string());
    config.working_directory("/work".to_string());
    config.stdin("/in".to_string());
    config.stdout("/out".to_string());
    config.stderr("/err".to_string());
    config.arg("x".to_string());
    config.env("A".to_string(), "1".to_string());
    config.mount("/src".to_string(), "/dst".to_string(), true);
    config.syscall_filter(SyscallFilter::build(false, false));
    config.mount_tmpfs(true);
    config.wall_time_limit(4);
    config.run_on_core(2);
    config.uid(1000);
    config.gid(1000);
    config.mount_proc(true);

    assert_eq!(config.time_limit, Some(1));
    assert_eq!(config.memory_limit, Some(256_000_000));
    assert_eq!(config.stack_limit, Some(8_000_000));
    assert_eq!(config.executable, "/bin/prog");
    assert_eq!(config.working_directory, "/work");
    assert_eq!(config.stdin.as_deref(), Some("/in"));
    assert_eq!(config.stdout.as_deref(), Some("/out"));
    assert_eq!(config.stderr.as_deref(), Some("/err"));
    assert_eq!(config.args, vec!["x".to_string()]);
    assert_eq!(config.env, vec![("A".to_string(), "1".to_string())]);
    assert_eq!(config.mount_paths.len(), 1);
    assert_eq!(config.mount_paths[0].source, "/src");
    assert_eq!(config.mount_paths[0].target, "/dst");
    assert!(config.mount_paths[0].writable);
    assert!(matches!(
        config.syscall_filter.as_ref().unwrap().default_action,
        SyscallFilterAction::Allow
    ));
    assert!(config.mount_tmpfs);
    assert_eq!(config.wall_time_limit, Some(4));
    assert_eq!(config.cpu_core, Some(2));
    assert_eq!(config.uid, 1000);
    assert_eq!(config.gid, 1000);
    assert!(config.mount_proc);
}

#[test]
fn test_build_copies_configuration() {
    let mut config = SandboxConfiguration::default();
    config.executable("/bin/prog".to_string());
    config.arg("one".to_string());
    let copy = config.build();
    assert_eq!(copy.executable, config.executable);
    assert_eq!(copy.args, config.args);
    assert_eq!(copy.working_directory, config.working_directory);
}

#[test]
fn test_decimal_rendering() {
    assert_eq!(u64_to_string(0), "0");
    assert_eq!(u64_to_string(7), "7");
    assert_eq!(u64_to_string(256000000), "256000000");
    assert_eq!(u64_to_string(u64::MAX), "18446744073709551615");
}

#[test]
fn test_decimal_parsing() {
    assert_eq!(parse_u64("0"), Some(0));
    assert_eq!(parse_u64("007"), Some(7));
    assert_eq!(parse_u64("18446744073709551615"), Some(u64::MAX));
    assert_eq!(parse_u64("18446744073709551616"), None);
    assert_eq!(parse_u64(""), None);
    assert_eq!(parse_u64("12a"), None);
}
