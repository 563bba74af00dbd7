use tabox::configuration::SandboxConfiguration;
use tabox::filesystem::{filesystem_plan, MountStep};
use tabox::limits::{
    clamp_to_hard_limit, resource_limit_plan, RlimitResource, RlimitSetting, RLIM_UNLIMITED,
};
use tabox::supervisor::{
    build_argv, build_env, child_setup_phases, identity_map_line, memory_limit_exceeded,
    setgroups_deny_line, signal_forward_target, truncate_error_message, SetupPhase,
    ERROR_MESSAGE_CAPACITY,
};

#[test]
fn test_plan_skeleton() {
    let config = SandboxConfiguration::default();
    let plan = filesystem_plan(&config, "/tmp/box").unwrap();
    match &plan[0] {
        MountStep::MountTmpfs { target, options } => {
            assert_eq!(target, "/tmp/box");
            assert_eq!(options, "size=256M,mode=0755");
        },
        other => panic!("expected the root tmpfs first, got {:?}", other),
    }
    match &plan[1] {
        MountStep::CreateDir { path } => assert_eq!(path, "/tmp/box/dev"),
        other => panic!("expected the device directory, got {:?}", other),
    }
    // four devices, two steps each
    let mut devices = Vec::new();
    for step in &plan[2..10] {
        if let MountStep::BindDevice { source, target } = step {
            devices.push(source.clone());
            assert!(target.starts_with("/tmp/box/dev/"));
        }
    }
    assert_eq!(
        devices,
        vec!["/dev/null", "/dev/zero", "/dev/random", "/dev/urandom"]
    );
    // no configured mounts: the skeleton is sealed right after the devices
    match plan.last().unwrap() {
        MountStep::RemountReadOnly { target } => assert_eq!(target, "/tmp/box"),
        other => panic!("expected the final read-only remount, got {:?}", other),
    }
    assert_eq!(plan.len(), 11);
}

#[test]
fn test_plan_optional_filesystems() {
    let mut config = SandboxConfiguration::default();
    config.mount_tmpfs(true);
    config.mount_proc(true);
    let plan = filesystem_plan(&config, "/r").unwrap();
    let descriptions: Vec<String> = plan.iter().map(|s| format!("{:?}", s)).collect();
    assert!(descriptions.iter().any(|d| d.contains("/r/tmp")));
    assert!(descriptions.iter().any(|d| d.contains("/r/dev/shm")));
    assert!(descriptions.iter().any(|d| d.contains("MountProcFs")));
}

#[test]
fn test_plan_mounts_ro_and_rw() {
    let mut config = SandboxConfiguration::default();
    config.mount("/usr".to_string(), "/usr".to_string(), false);
    config.mount("/scratch".to_string(), "/work".to_string(), true);
    let plan = filesystem_plan(&config, "/r").unwrap();
    // the read-only entry is remounted read-only, the writable one is not
    let remounts: Vec<String> = plan
        .iter()
        .filter_map(|s| match s {
            MountStep::RemountBindReadOnly { target } => Some(target.clone()),
            _ => None,
        })
        .collect();
    assert_eq!(remounts, vec!["/r/usr"]);
    let binds: Vec<(String, String)> = plan
        .iter()
        .filter_map(|s| match s {
            MountStep::BindDirectory { source, target } => {
                Some((source.clone(), target.clone()))
            },
            _ => None,
        })
        .collect();
    assert_eq!(
        binds,
        vec![
            ("/usr".to_string(), "/r/usr".to_string()),
            ("/scratch".to_string(), "/r/work".to_string()),
        ]
    );
}

#[test]
fn test_plan_rejects_relative_target() {
    let mut config = SandboxConfiguration::default();
    config.mount("/usr".to_string(), "usr".to_string(), false);
    assert!(filesystem_plan(&config, "/r").is_err());
}

#[test]
fn test_limit_plan_defaults() {
    let config = SandboxConfiguration::default();
    let plan = resource_limit_plan(&config, true);
    // without limits: an unlimited stack, and never a core dump
    assert_eq!(
        plan,
        vec![
            RlimitSetting { resource: RlimitResource::Stack, limit: RLIM_UNLIMITED },
            RlimitSetting { resource: RlimitResource::CoreSize, limit: 0 },
        ]
    );
}

#[test]
fn test_limit_plan_full() {
    let mut config = SandboxConfiguration::default();
    config.memory_limit(256_000_000);
    config.stack_limit(8_000_000);
    config.time_limit(2);
    let plan = resource_limit_plan(&config, true);
    assert_eq!(
        plan,
        vec![
            RlimitSetting { resource: RlimitResource::AddressSpace, limit: 256_000_000 },
            RlimitSetting { resource: RlimitResource::Stack, limit: 8_000_000 },
            RlimitSetting { resource: RlimitResource::CpuTime, limit: 2 },
            RlimitSetting { resource: RlimitResource::CoreSize, limit: 0 },
        ]
    );
    // the degraded backend skips the address-space limit
    let degraded = resource_limit_plan(&config, false);
    assert_eq!(degraded.len(), 3);
    assert!(matches!(degraded[0].resource, RlimitResource::Stack));
}

#[test]
fn test_clamp() {
    assert_eq!(clamp_to_hard_limit(100, 200), 100);
    assert_eq!(clamp_to_hard_limit(300, 200), 200);
    assert_eq!(clamp_to_hard_limit(RLIM_UNLIMITED, 200), 200);
    assert_eq!(clamp_to_hard_limit(100, RLIM_UNLIMITED), 100);
}

#[test]
fn test_setup_order() {
    let phases = child_setup_phases();
    assert_eq!(phases[0], SetupPhase::MapIdentity);
    let position = |p: SetupPhase| phases.iter().position(|x| *x == p).unwrap();
    // every restriction is in force before the program runs, and the
    // filter is installed last so its own installation is not filtered
    assert!(position(SetupPhase::AssembleFilesystem) < position(SetupPhase::EnterChroot));
    assert!(position(SetupPhase::EnterChroot) < position(SetupPhase::InstallResourceLimits));
    assert!(
        position(SetupPhase::InstallResourceLimits)
            < position(SetupPhase::InstallSyscallFilter)
    );
    assert!(position(SetupPhase::InstallSyscallFilter) < position(SetupPhase::Execute));
    assert_eq!(*phases.last().unwrap(), SetupPhase::Execute);
}

#[test]
fn test_identity_map() {
    assert_eq!(setgroups_deny_line(), "deny");
    assert_eq!(identity_map_line(0, 1000), "0 1000 1");
    assert_eq!(identity_map_line(1000, 0), "1000 0 1");
}

#[test]
fn test_argv_shape() {
    let mut config = SandboxConfiguration::default();
    config.executable("/bin/prog".to_string());
    config.arg("-a".to_string());
    config.arg("b".to_string());
    let argv = build_argv(&config);
    let argv: Vec<&str> = argv.iter().map(|s| s.as_str()).collect();
    assert_eq!(argv, vec!["/bin/prog", "-a", "b"]);
}

#[test]
fn test_env_exact() {
    let mut config = SandboxConfiguration::default();
    config.env("VAR".to_string(), "42".to_string());
    config.env("OTHER".to_string(), "x".to_string());
    let env = build_env(&config);
    let env: Vec<(&str, &str)> = env.iter().map(|p| (p.0.as_str(), p.1.as_str())).collect();
    assert_eq!(env, vec![("VAR", "42"), ("OTHER", "x")]);
}

#[test]
fn test_error_truncation() {
    assert_eq!(truncate_error_message("short"), "short");
    let long = "x".repeat(ERROR_MESSAGE_CAPACITY + 100);
    let truncated = truncate_error_message(&long);
    assert_eq!(truncated.len(), ERROR_MESSAGE_CAPACITY);
}

#[test]
fn test_signal_bridge() {
    assert_eq!(signal_forward_target(1234), Some(1234));
    assert_eq!(signal_forward_target(0), None);
    assert_eq!(signal_forward_target(-1), None);
}

#[test]
fn test_memory_watchdog() {
    assert!(memory_limit_exceeded(257_000_000, 256_000_000));
    assert!(!memory_limit_exceeded(256_000_000, 256_000_000));
}
