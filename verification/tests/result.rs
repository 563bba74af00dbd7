use tabox::result::{
    decode_wait_status, final_status, resource_usage_from_wait, ExitStatus, ResourceUsage,
    SandboxExecutionResult,
};

#[test]
fn test_signal_name() {
    assert_eq!(
        Some("Segmentation fault: 11".into()),
        ExitStatus::Signal(11).signal_name()
    );
    assert!(ExitStatus::Killed.signal_name().is_none());
    assert!(ExitStatus::ExitCode(0).signal_name().is_none());
}

#[test]
fn test_signal_name_bounds() {
    assert_eq!(Some("Hangup: 1".into()), ExitStatus::Signal(1).signal_name());
    assert_eq!(
        Some("Bad system call: 31".into()),
        ExitStatus::Signal(31).signal_name()
    );
    assert_eq!(Some("Killed: 9".into()), ExitStatus::Signal(9).signal_name());
    assert_eq!(
        Some("CPU time limit exceeded: 24".into()),
        ExitStatus::Signal(24).signal_name()
    );
    assert!(ExitStatus::Signal(0).signal_name().is_none());
    assert!(ExitStatus::Signal(32).signal_name().is_none());
    assert!(ExitStatus::Signal(-1).signal_name().is_none());
}

#[test]
fn test_success() {
    assert!(ExitStatus::ExitCode(0).success());
    assert!(!ExitStatus::ExitCode(1).success());
    assert!(!ExitStatus::Signal(11).success());
    assert!(!ExitStatus::Killed.success());
}

#[test]
fn test_decode_exit() {
    // exit(0): all status bits clear
    assert_eq!(Some(ExitStatus::ExitCode(0)), decode_wait_status(0));
    // exit(3): the code sits in bits 8..16
    assert_eq!(Some(ExitStatus::ExitCode(3)), decode_wait_status(3 << 8));
    assert_eq!(Some(ExitStatus::ExitCode(255)), decode_wait_status(255 << 8));
}

#[test]
fn test_decode_signals() {
    // a segmentation fault and the kill delivered on the CPU limit
    assert_eq!(Some(ExitStatus::Signal(11)), decode_wait_status(11));
    assert_eq!(Some(ExitStatus::Signal(9)), decode_wait_status(9));
    assert_eq!(Some(ExitStatus::Signal(31)), decode_wait_status(31));
}

#[test]
fn test_decode_stopped_is_unknown() {
    // a stopped child (low bits all set) decodes to no disposition
    assert_eq!(None, decode_wait_status(0x137f));
}

#[test]
fn test_killed_wins_over_signal() {
    // the watchdog fired: the kernel may report the kill signal, the
    // record still says the sandbox killed the child
    assert_eq!(ExitStatus::Killed, final_status(true, ExitStatus::Signal(9)));
    assert_eq!(ExitStatus::Killed, final_status(true, ExitStatus::ExitCode(0)));
    assert_eq!(
        ExitStatus::Signal(9),
        final_status(false, ExitStatus::Signal(9))
    );
}

#[test]
fn test_resource_usage_from_wait() {
    let usage = resource_usage_from_wait(1024, 2, 500000, 1, 250000, );
    assert_eq!(usage.memory_usage, 1024 * 1024);
    assert_eq!(usage.user_cpu_time_us, 2_500_000);
    assert_eq!(usage.system_cpu_time_us, 1_250_000);
    assert_eq!(usage.wall_time_usage_us, 0);
    let usage = usage.with_wall_time(3_000_000);
    assert_eq!(usage.wall_time_usage_us, 3_000_000);
    assert_eq!(usage.memory_usage, 1024 * 1024);
}

#[test]
fn test_record_equality() {
    let a = SandboxExecutionResult {
        status: ExitStatus::ExitCode(0),
        resource_usage: ResourceUsage {
            memory_usage: 1,
            user_cpu_time_us: 2,
            system_cpu_time_us: 3,
            wall_time_usage_us: 4,
        },
    };
    assert_eq!(a, a);
}
