use tabox::json::{encode_result, parse_result};
use tabox::result::{ExitStatus, ResourceUsage, SandboxExecutionResult};

fn record(status: ExitStatus) -> SandboxExecutionResult {
    SandboxExecutionResult {
        status,
        resource_usage: ResourceUsage {
            memory_usage: 1_048_576,
            user_cpu_time_us: 1_234_567,
            system_cpu_time_us: 45_000,
            wall_time_usage_us: 2_000_000,
        },
    }
}

#[test]
fn test_encode_exit_code() {
    let s = encode_result(&record(ExitStatus::ExitCode(0)));
    assert_eq!(
        s,
        "{\"status\":{\"ExitCode\":0},\"resource_usage\":{\"memory_usage\":1048576,\
         \"user_cpu_time\":1.234567,\"system_cpu_time\":0.045000,\
         \"wall_time_usage\":2.000000}}"
    );
}

#[test]
fn test_encode_signal() {
    let s = encode_result(&record(ExitStatus::Signal(11)));
    assert!(s.starts_with("{\"status\":{\"Signal\":11},"));
}

#[test]
fn test_encode_killed() {
    let s = encode_result(&record(ExitStatus::Killed));
    assert!(s.starts_with("{\"status\":\"Killed\","));
}

#[test]
fn test_encode_negative_code() {
    let s = encode_result(&record(ExitStatus::ExitCode(-7)));
    assert!(s.starts_with("{\"status\":{\"ExitCode\":-7},"));
}

#[test]
fn test_round_trip() {
    for status in [
        ExitStatus::ExitCode(0),
        ExitStatus::ExitCode(255),
        ExitStatus::ExitCode(-2147483648),
        ExitStatus::Signal(9),
        ExitStatus::Signal(31),
        ExitStatus::Killed,
    ] {
        let v = record(status);
        let s = encode_result(&v);
        assert_eq!(parse_result(s.as_str()), Some(v));
    }
}

#[test]
fn test_round_trip_extreme_usage() {
    let v = SandboxExecutionResult {
        status: ExitStatus::Killed,
        resource_usage: ResourceUsage {
            memory_usage: u64::MAX,
            user_cpu_time_us: u64::MAX,
            system_cpu_time_us: 0,
            wall_time_usage_us: 999_999,
        },
    };
    let s = encode_result(&v);
    assert_eq!(parse_result(s.as_str()), Some(v));
}

#[test]
fn test_parse_rejects_garbage() {
    assert_eq!(parse_result(""), None);
    assert_eq!(parse_result("{}"), None);
    assert_eq!(parse_result("{\"status\":\"Killed\"}"), None);
    let good = encode_result(&record(ExitStatus::Killed));
    let mut trailing = good.clone();
    trailing.push(' ');
    assert_eq!(parse_result(trailing.as_str()), None);
}

#[test]
fn test_parse_rejects_out_of_range_signal() {
    let s = "{\"status\":{\"Signal\":99999999999},\"resource_usage\":{\"memory_usage\":0,\
             \"user_cpu_time\":0.000000,\"system_cpu_time\":0.000000,\
             \"wall_time_usage\":0.000000}}";
    assert_eq!(parse_result(s), None);
}
