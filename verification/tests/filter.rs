use tabox::syscall_filter::{SyscallFilter, SyscallFilterAction};

fn rule_names(filter: &SyscallFilter) -> Vec<&str> {
    filter.rules.iter().map(|r| r.0.as_str()).collect()
}

#[test]
fn test_default_filter_kills() {
    let filter = SyscallFilter::default();
    assert!(matches!(filter.default_action, SyscallFilterAction::Kill));
    assert!(filter.rules.is_empty());
}

#[test]
fn test_preset_blocks_fork_and_chmod() {
    let filter = SyscallFilter::build(false, false);
    assert!(matches!(filter.default_action, SyscallFilterAction::Allow));
    assert_eq!(
        rule_names(&filter),
        vec!["fork", "vfork", "clone", "chmod", "fchmod", "fchmodat"]
    );
    for (_, action) in &filter.rules {
        assert!(matches!(action, SyscallFilterAction::Kill));
    }
}

#[test]
fn test_preset_allows_when_asked() {
    assert!(SyscallFilter::build(true, true).rules.is_empty());
    assert_eq!(
        rule_names(&SyscallFilter::build(true, false)),
        vec!["chmod", "fchmod", "fchmodat"]
    );
    assert_eq!(
        rule_names(&SyscallFilter::build(false, true)),
        vec!["fork", "vfork", "clone"]
    );
}

#[test]
fn test_single_syscall_rule() {
    // the filter that traps a single call: allow everything, kill on it
    let mut filter = SyscallFilter::default();
    filter.default_action(SyscallFilterAction::Allow);
    filter.add_rule("getuid".to_string(), SyscallFilterAction::Kill);
    assert!(matches!(filter.default_action, SyscallFilterAction::Allow));
    assert_eq!(rule_names(&filter), vec!["getuid"]);
}

#[test]
fn test_seccomp_params() {
    assert_eq!(SyscallFilterAction::Allow.to_seccomp_param(), 0x7fff0000);
    assert_eq!(SyscallFilterAction::Kill.to_seccomp_param(), 0);
    assert_eq!(SyscallFilterAction::Errno(5).to_seccomp_param(), 0x0005_0005);
    // only the low sixteen bits of the errno survive
    assert_eq!(
        SyscallFilterAction::Errno(0x1_ffff).to_seccomp_param(),
        0x0005_ffff
    );
}

#[test]
fn test_filter_clone_keeps_rules() {
    let filter = SyscallFilter::build(false, true);
    let copy = filter.clone();
    assert_eq!(rule_names(&copy), rule_names(&filter));
    assert!(matches!(copy.default_action, SyscallFilterAction::Allow));
}
