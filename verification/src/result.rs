//! The result of a sandboxed execution: the exit disposition of the child
//! and its measured resource consumption, together with the decoding of raw
//! kernel wait statuses into that disposition.

use vstd::prelude::*;

use crate::decimal::{dec_digits, u64_to_string};

verus! {

/// Resource consumption of the sandboxed process.
///
/// Times are held in microseconds so that the record stays exact; the JSON
/// form renders them as decimal seconds.
#[derive(Debug, Clone, Copy, PartialEq, Eq, Structural)]
pub struct ResourceUsage {
    /// Peak memory usage in bytes.
    pub memory_usage: u64,

    /// User CPU time in microseconds.
    pub user_cpu_time_us: u64,

    /// System CPU time in microseconds.
    pub system_cpu_time_us: u64,

    /// Wall-clock time in microseconds.
    pub wall_time_usage_us: u64,
}

/// Exit disposition of the sandboxed process.
#[derive(Debug, Clone, Copy, PartialEq, Eq, Structural)]
pub enum ExitStatus {
    /// The process terminated on its own with this exit code.
    ExitCode(i32),

    /// The kernel terminated the process with this signal.
    Signal(i32),

    /// The sandbox itself killed the process (wall-clock limit exceeded or
    /// cancellation), as opposed to a kernel-delivered signal.
    Killed,
}

/// The sole output record of the sandbox.
#[derive(Debug, Clone, Copy, PartialEq, Eq, Structural)]
pub struct SandboxExecutionResult {
    /// Exit disposition of the process.
    pub status: ExitStatus,

    /// Resource consumption of the process.
    pub resource_usage: ResourceUsage,
}

/// The descriptive name of signal `n`, for the signals a sandboxed program
/// can terminate on (1 through 31, with the conventional Linux numbering).
pub open spec fn signal_desc(n: int) -> Seq<char> {
    if n == 1 {
        "Hangup"@
    } else if n == 2 {
        "Interrupt"@
    } else if n == 3 {
        "Quit"@
    } else if n == 4 {
        "Illegal instruction"@
    } else if n == 5 {
        "Trace/breakpoint trap"@
    } else if n == 6 {
        "Aborted"@
    } else if n == 7 {
        "Bus error"@
    } else if n == 8 {
        "Floating point exception"@
    } else if n == 9 {
        "Killed"@
    } else if n == 10 {
        "User defined signal 1"@
    } else if n == 11 {
        "Segmentation fault"@
    } else if n == 12 {
        "User defined signal 2"@
    } else if n == 13 {
        "Broken pipe"@
    } else if n == 14 {
        "Alarm clock"@
    } else if n == 15 {
        "Terminated"@
    } else if n == 16 {
        "Stack fault"@
    } else if n == 17 {
        "Child exited"@
    } else if n == 18 {
        "Continued"@
    } else if n == 19 {
        "Stopped (signal)"@
    } else if n == 20 {
        "Stopped"@
    } else if n == 21 {
        "Stopped (tty input)"@
    } else if n == 22 {
        "Stopped (tty output)"@
    } else if n == 23 {
        "Urgent I/O condition"@
    } else if n == 24 {
        "CPU time limit exceeded"@
    } else if n == 25 {
        "File size limit exceeded"@
    } else if n == 26 {
        "Virtual timer expired"@
    } else if n == 27 {
        "Profiling timer expired"@
    } else if n == 28 {
        "Window changed"@
    } else if n == 29 {
        "I/O possible"@
    } else if n == 30 {
        "Power failure"@
    } else {
        "Bad system call"@
    }
}

/// The full text reported for signal `n`: its name, a colon, and the number.
pub open spec fn signal_message(n: int) -> Seq<char> {
    signal_desc(n) + ": "@ + dec_digits(n as nat)
}

/// The descriptive name of signal `sig`.
fn signal_desc_str(sig: i32) -> (r: &'static str)
    requires
        1 <= sig <= 31,
    ensures
        r@ == signal_desc(sig as int),
{
    if sig == 1 {
        "Hangup"
    } else if sig == 2 {
        "Interrupt"
    } else if sig == 3 {
        "Quit"
    } else if sig == 4 {
        "Illegal instruction"
    } else if sig == 5 {
        "Trace/breakpoint trap"
    } else if sig == 6 {
        "Aborted"
    } else if sig == 7 {
        "Bus error"
    } else if sig == 8 {
        "Floating point exception"
    } else if sig == 9 {
        "Killed"
    } else if sig == 10 {
        "User defined signal 1"
    } else if sig == 11 {
        "Segmentation fault"
    } else if sig == 12 {
        "User defined signal 2"
    } else if sig == 13 {
        "Broken pipe"
    } else if sig == 14 {
        "Alarm clock"
    } else if sig == 15 {
        "Terminated"
    } else if sig == 16 {
        "Stack fault"
    } else if sig == 17 {
        "Child exited"
    } else if sig == 18 {
        "Continued"
    } else if sig == 19 {
        "Stopped (signal)"
    } else if sig == 20 {
        "Stopped"
    } else if sig == 21 {
        "Stopped (tty input)"
    } else if sig == 22 {
        "Stopped (tty output)"
    } else if sig == 23 {
        "Urgent I/O condition"
    } else if sig == 24 {
        "CPU time limit exceeded"
    } else if sig == 25 {
        "File size limit exceeded"
    } else if sig == 26 {
        "Virtual timer expired"
    } else if sig == 27 {
        "Profiling timer expired"
    } else if sig == 28 {
        "Window changed"
    } else if sig == 29 {
        "I/O possible"
    } else if sig == 30 {
        "Power failure"
    } else {
        "Bad system call"
    }
}

impl ExitStatus {
    /// True only when the process exited on its own with code 0.
    pub fn success(self) -> (r: bool)
        ensures
            r == (self == ExitStatus::ExitCode(0)),
    {
        self == ExitStatus::ExitCode(0)
    }

    /// The name of the signal, when the status is a signal with a known
    /// name (1 through 31); `None` for every other status.
    pub fn signal_name(&self) -> (r: Option<String>)
        ensures
            r is Some <==> (*self is Signal && 1 <= (*self)->Signal_0 <= 31),
            r is Some ==> r.unwrap()@ == signal_message((*self)->Signal_0 as int),
    {
        match self {
            ExitStatus::Signal(sig) => {
                let sig = *sig;
                if 1 <= sig && sig <= 31 {
                    let mut s = String::from_str(signal_desc_str(sig));
                    s.append(": ");
                    s.append(u64_to_string(sig as u64).as_str());
                    proof {
                        assert(s@ =~= signal_message(sig as int));
                    }
                    Some(s)
                } else {
                    None
                }
            },
            _ => None,
        }
    }
}

/// Whether the raw wait status says the child exited on its own: the
/// low seven bits of the status word (read unsigned) are all clear.
pub open spec fn wait_exited(status: i32) -> bool {
    (status as u32) % 128 == 0
}

/// The exit code carried by a raw wait status: the second byte of the
/// status word.
pub open spec fn wait_exit_code(status: i32) -> int {
    (((status as u32) / 256) % 256) as int
}

/// Whether the raw wait status says a signal terminated the child: the
/// low seven bits are neither all clear (exited) nor all set (stopped).
pub open spec fn wait_signaled(status: i32) -> bool {
    (status as u32) % 128 != 0 && (status as u32) % 128 != 127
}

/// The terminating signal carried by a raw wait status: the low seven
/// bits of the status word.
pub open spec fn wait_term_signal(status: i32) -> int {
    ((status as u32) % 128) as int
}

/// Decode a raw wait status into an exit disposition: an exit code when the
/// child exited, a signal when a signal terminated it, and nothing for any
/// other encoding (a stopped or continued child).
pub fn decode_wait_status(status: i32) -> (r: Option<ExitStatus>)
    ensures
        wait_exited(status) ==> (r matches Some(d) && d matches ExitStatus::ExitCode(code)
            && code == wait_exit_code(status)),
        !wait_exited(status) && wait_signaled(status) ==> (r matches Some(d) && d matches
            ExitStatus::Signal(signal) && signal == wait_term_signal(status)),
        !wait_exited(status) && !wait_signaled(status) ==> r is None,
{
    let word = #[verifier::truncate] (status as u32);
    let low = word % 128;
    if low == 0 {
        Some(ExitStatus::ExitCode(((word / 256) % 256) as i32))
    } else if low != 127 {
        Some(ExitStatus::Signal(low as i32))
    } else {
        None
    }
}

/// The exit disposition the supervisor reports: when its own watchdog
/// killed the child, the result is `Killed`, whatever the kernel reaped;
/// otherwise the decoded kernel status stands.
pub fn final_status(killed: bool, status: ExitStatus) -> (r: ExitStatus)
    ensures
        killed ==> r == ExitStatus::Killed,
        !killed ==> r == status,
{
    if killed {
        ExitStatus::Killed
    } else {
        status
    }
}

/// Assemble the resource usage record from what the kernel reports after
/// reaping: the peak resident size in KiB and the user and system CPU times
/// as seconds-and-microseconds pairs. Wall-clock time is measured by the
/// supervisor itself and filled in separately.
pub fn resource_usage_from_wait(
    maxrss_kib: u64,
    utime_sec: u64,
    utime_usec: u64,
    stime_sec: u64,
    stime_usec: u64,
) -> (r: ResourceUsage)
    requires
        maxrss_kib * 1024 <= u64::MAX,
        utime_sec * 1000000 + utime_usec <= u64::MAX,
        stime_sec * 1000000 + stime_usec <= u64::MAX,
    ensures
        r.memory_usage == maxrss_kib * 1024,
        r.user_cpu_time_us == utime_sec * 1000000 + utime_usec,
        r.system_cpu_time_us == stime_sec * 1000000 + stime_usec,
        r.wall_time_usage_us == 0,
{
    ResourceUsage {
        memory_usage: maxrss_kib * 1024,
        user_cpu_time_us: utime_sec * 1000000 + utime_usec,
        system_cpu_time_us: stime_sec * 1000000 + stime_usec,
        wall_time_usage_us: 0,
    }
}

impl ResourceUsage {
    /// The same usage record with the wall-clock time filled in.
    pub fn with_wall_time(self, wall_time_usage_us: u64) -> (r: ResourceUsage)
        ensures
            r == (ResourceUsage { wall_time_usage_us, ..self }),
    {
        ResourceUsage { wall_time_usage_us, ..self }
    }
}

} // verus!
