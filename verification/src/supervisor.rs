//! Decisions of the supervisor and of the child-setup sequence: the
//! identity-map lines written into the new user namespace, the order of the
//! setup steps between clone and exec, the argument and environment vectors
//! the child executes with, the error text that fits the shared error page,
//! and the rules of the signal bridge and of the memory watchdog.

use vstd::prelude::*;

use crate::configuration::{env_views, string_views, SandboxConfiguration};
use crate::decimal::dec_digits;
use crate::decimal::u64_to_string;

verus! {

/// How many characters of a child setup error fit in the shared error page.
pub const ERROR_MESSAGE_CAPACITY: usize = 1024;

/// The content written to the setgroups control file before the identity
/// maps: the kernel demands it before an unprivileged gid map write.
pub fn setgroups_deny_line() -> (r: String)
    ensures
        r@ == "deny"@,
{
    String::from_str("deny")
}

/// The single identity-map line for the new user namespace: the identity
/// inside the sandbox, the identity outside it, and a range of one — all an
/// unprivileged user namespace may map.
pub open spec fn spec_identity_map_line(inside: nat, outside: nat) -> Seq<char> {
    dec_digits(inside) + " "@ + dec_digits(outside) + " 1"@
}

/// Render the identity-map line for `inside` and `outside`.
pub fn identity_map_line(inside: u64, outside: u64) -> (r: String)
    ensures
        r@ == spec_identity_map_line(inside as nat, outside as nat),
{
    let mut r = u64_to_string(inside);
    r.append(" ");
    r.append(u64_to_string(outside).as_str());
    r.append(" 1");
    proof {
        assert(r@ =~= spec_identity_map_line(inside as nat, outside as nat));
    }
    r
}

/// One step of the child setup that runs between clone and exec.
#[derive(Debug, Clone, Copy, PartialEq, Eq, Structural)]
pub enum SetupPhase {
    /// Write the setgroups denial and the uid and gid maps.
    MapIdentity,

    /// Ask the kernel to kill the child when the parent dies.
    GuardOrphan,

    /// Open the stdio redirection files while errors can still be reported.
    PrepareStdio,

    /// Assemble the sandbox filesystem (see the filesystem plan).
    AssembleFilesystem,

    /// Pin the child to the configured CPU core, when one is configured.
    PinCpu,

    /// Chroot into the sandbox root, check that the executable and the
    /// working directory exist inside, and change directory.
    EnterChroot,

    /// Install the resource limits (see the resource-limit plan).
    InstallResourceLimits,

    /// Install the system-call filter, when one is configured.
    InstallSyscallFilter,

    /// Replace the image: exec the configured program.
    Execute,
}

/// The order of the child setup steps. The order is load-bearing: the
/// restrictions (chroot, resource limits, syscall filter) must all be in
/// effect before the untrusted program runs, and the syscall filter comes
/// last among them so that the filter installation itself is not filtered.
pub open spec fn spec_child_setup_phases() -> Seq<SetupPhase> {
    seq![
        SetupPhase::MapIdentity,
        SetupPhase::GuardOrphan,
        SetupPhase::PrepareStdio,
        SetupPhase::AssembleFilesystem,
        SetupPhase::PinCpu,
        SetupPhase::EnterChroot,
        SetupPhase::InstallResourceLimits,
        SetupPhase::InstallSyscallFilter,
        SetupPhase::Execute,
    ]
}

/// The steps of the child setup, in the order they must run.
pub fn child_setup_phases() -> (r: Vec<SetupPhase>)
    ensures
        r@ == spec_child_setup_phases(),
{
    let mut r: Vec<SetupPhase> = Vec::new();
    r.push(SetupPhase::MapIdentity);
    r.push(SetupPhase::GuardOrphan);
    r.push(SetupPhase::PrepareStdio);
    r.push(SetupPhase::AssembleFilesystem);
    r.push(SetupPhase::PinCpu);
    r.push(SetupPhase::EnterChroot);
    r.push(SetupPhase::InstallResourceLimits);
    r.push(SetupPhase::InstallSyscallFilter);
    r.push(SetupPhase::Execute);
    proof {
        assert(r@ =~= spec_child_setup_phases());
    }
    r
}

/// The argument vector the child executes with: the executable itself
/// first, then the configured arguments in order.
pub fn build_argv(config: &SandboxConfiguration) -> (r: Vec<String>)
    ensures
        string_views(r@) == seq![config@.executable] + config@.args,
{
    let mut r: Vec<String> = Vec::new();
    r.push(config.executable.clone());
    let mut i: usize = 0;
    while i < config.args.len()
        invariant
            i <= config.args.len(),
            r@.len() == i + 1,
            r@[0]@ == config.executable@,
            forall|k: int| 1 <= k <= i ==> (#[trigger] r@[k])@ == config.args@[k - 1]@,
        decreases config.args.len() - i,
    {
        r.push(config.args[i].clone());
        i = i + 1;
    }
    proof {
        assert(string_views(r@) =~= seq![config@.executable] + config@.args);
    }
    r
}

/// The environment the child executes with: exactly the configured pairs,
/// in order. The inherited environment is cleared first, so nothing else
/// can appear in the child.
pub fn build_env(config: &SandboxConfiguration) -> (r: Vec<(String, String)>)
    ensures
        env_views(r@) == config@.env,
{
    let mut r: Vec<(String, String)> = Vec::new();
    let mut i: usize = 0;
    while i < config.env.len()
        invariant
            i <= config.env.len(),
            r@.len() == i,
            forall|k: int|
                0 <= k < i ==> (#[trigger] r@[k]).0@ == config.env@[k].0@
                    && r@[k].1@ == config.env@[k].1@,
        decreases config.env.len() - i,
    {
        r.push((config.env[i].0.clone(), config.env[i].1.clone()));
        i = i + 1;
    }
    proof {
        assert(env_views(r@) =~= config@.env);
    }
    r
}

/// Truncate a child setup error so it fits the shared error page: the
/// first [`ERROR_MESSAGE_CAPACITY`] characters survive.
pub fn truncate_error_message(msg: &str) -> (r: String)
    ensures
        msg@.len() <= ERROR_MESSAGE_CAPACITY ==> r@ == msg@,
        msg@.len() > ERROR_MESSAGE_CAPACITY ==> r@ == msg@.take(ERROR_MESSAGE_CAPACITY as int),
{
    let len = msg.unicode_len();
    if len <= ERROR_MESSAGE_CAPACITY {
        msg.to_owned()
    } else {
        msg.substring_char(0, ERROR_MESSAGE_CAPACITY).to_owned()
    }
}

/// Where the signal bridge forwards a termination request: to the recorded
/// child when one is recorded (the PID atomic starts at a negative
/// sentinel), and nowhere otherwise.
pub fn signal_forward_target(child_pid: i32) -> (r: Option<i32>)
    ensures
        r is Some <==> child_pid > 0,
        r is Some ==> r.unwrap() == child_pid,
{
    if child_pid > 0 {
        Some(child_pid)
    } else {
        None
    }
}

/// Whether the memory watchdog of the degraded backend must kill the
/// child: only when the observed usage exceeds the configured limit.
pub fn memory_limit_exceeded(usage: u64, limit: u64) -> (r: bool)
    ensures
        r == (usage > limit),
{
    usage > limit
}

} // verus!
