//! Configuration of the sandbox: what to run, under which limits, and what
//! the sandboxed filesystem should contain.
//!
//! Paths are held as plain strings; the process machinery that performs the
//! actual system calls converts them to OS paths at the boundary.

use vstd::prelude::*;

use crate::syscall_filter::{SyscallFilter, SyscallFilterView};

verus! {

/// A directory bind-mounted into the sandbox.
#[derive(Debug)]
pub struct DirectoryMount {
    /// Where to mount the directory inside the sandbox.
    pub target: String,

    /// Path of the host directory to mount inside the sandbox.
    pub source: String,

    /// Whether the directory stays writable inside the sandbox.
    pub writable: bool,
}

/// The mathematical content of a [`DirectoryMount`].
#[verifier::ext_equal]
pub struct DirectoryMountView {
    /// Where to mount the directory inside the sandbox.
    pub target: Seq<char>,

    /// Path of the host directory to mount inside the sandbox.
    pub source: Seq<char>,

    /// Whether the directory stays writable inside the sandbox.
    pub writable: bool,
}

impl View for DirectoryMount {
    type V = DirectoryMountView;

    open spec fn view(&self) -> DirectoryMountView {
        DirectoryMountView { target: self.target@, source: self.source@, writable: self.writable }
    }
}

impl Clone for DirectoryMount {
    /// Cloning keeps the mount entry.
    fn clone(&self) -> (r: Self)
        ensures
            r@ == self@,
    {
        DirectoryMount {
            target: self.target.clone(),
            source: self.source.clone(),
            writable: self.writable,
        }
    }
}

/// The views of a sequence of mount entries.
pub open spec fn mount_views(mounts: Seq<DirectoryMount>) -> Seq<DirectoryMountView> {
    mounts.map_values(|m: DirectoryMount| m@)
}

/// The views of a sequence of environment pairs.
pub open spec fn env_views(env: Seq<(String, String)>) -> Seq<(Seq<char>, Seq<char>)> {
    env.map_values(|p: (String, String)| (p.0@, p.1@))
}

/// The views of a sequence of strings.
pub open spec fn string_views(strings: Seq<String>) -> Seq<Seq<char>> {
    strings.map_values(|s: String| s@)
}

/// Taking views distributes over appending one string.
pub proof fn lemma_string_views_push(strings: Seq<String>, x: String)
    ensures
        string_views(strings.push(x)) == string_views(strings).push(x@),
{
    assert(string_views(strings.push(x)) =~= string_views(strings).push(x@));
}

/// Taking views distributes over concatenation.
pub proof fn lemma_string_views_add(a: Seq<String>, b: Seq<String>)
    ensures
        string_views(a + b) == string_views(a) + string_views(b),
{
    assert(string_views(a + b) =~= string_views(a) + string_views(b));
}

/// The view of an optional string.
pub open spec fn opt_string_view(s: Option<String>) -> Option<Seq<char>> {
    match s {
        Some(s) => Some(s@),
        None => None,
    }
}

/// The view of an optional syscall filter.
pub open spec fn opt_filter_view(f: Option<SyscallFilter>) -> Option<SyscallFilterView> {
    match f {
        Some(f) => Some(f@),
        None => None,
    }
}

/// The mathematical content of a [`SandboxConfiguration`].
#[verifier::ext_equal]
pub struct SandboxConfigurationView {
    /// CPU time limit in seconds.
    pub time_limit: Option<u64>,

    /// Memory (address-space) limit in bytes.
    pub memory_limit: Option<u64>,

    /// Stack limit in bytes.
    pub stack_limit: Option<u64>,

    /// Absolute path of the executable.
    pub executable: Seq<char>,

    /// Arguments to pass to the executable.
    pub args: Seq<Seq<char>>,

    /// Environment of the sandboxed process.
    pub env: Seq<(Seq<char>, Seq<char>)>,

    /// Directories made visible inside the sandbox.
    pub mount_paths: Seq<DirectoryMountView>,

    /// Working directory inside the sandbox.
    pub working_directory: Seq<char>,

    /// Standard input redirection.
    pub stdin: Option<Seq<char>>,

    /// Standard output redirection.
    pub stdout: Option<Seq<char>>,

    /// Standard error redirection.
    pub stderr: Option<Seq<char>>,

    /// The system-call filter, if any.
    pub syscall_filter: Option<SyscallFilterView>,

    /// Whether /tmp and /dev/shm get a fresh tmpfs.
    pub mount_tmpfs: bool,

    /// Wall-clock time limit in seconds.
    pub wall_time_limit: Option<u64>,

    /// CPU core the sandboxed process is pinned to, if any.
    pub cpu_core: Option<usize>,

    /// UID of the user inside the sandbox.
    pub uid: usize,

    /// GID of the user inside the sandbox.
    pub gid: usize,

    /// Whether a fresh /proc is mounted.
    pub mount_proc: bool,
}

/// The configuration parameters of a sandbox.
#[derive(Debug)]
pub struct SandboxConfiguration {
    /// CPU time limit for the execution, in seconds.
    pub time_limit: Option<u64>,

    /// Memory (address-space) limit for the execution, in bytes.
    pub memory_limit: Option<u64>,

    /// Stack limit for the execution, in bytes.
    pub stack_limit: Option<u64>,

    /// Absolute path of the executable, resolved inside the sandbox root.
    pub executable: String,

    /// Arguments to pass to the executable.
    pub args: Vec<String>,

    /// Environment to pass to the sandboxed process; the parent environment
    /// is never inherited.
    pub env: Vec<(String, String)>,

    /// Directories made visible inside the sandbox.
    pub mount_paths: Vec<DirectoryMount>,

    /// Working directory inside the sandbox.
    pub working_directory: String,

    /// Redirect standard input from this host file.
    pub stdin: Option<String>,

    /// Redirect standard output to this host file.
    pub stdout: Option<String>,

    /// Redirect standard error to this host file.
    pub stderr: Option<String>,

    /// Restrict the system calls available inside the sandbox.
    pub syscall_filter: Option<SyscallFilter>,

    /// Mount a read/write tmpfs at /tmp and /dev/shm.
    pub mount_tmpfs: bool,

    /// Wall-clock time limit, in seconds.
    pub wall_time_limit: Option<u64>,

    /// Pin the sandboxed process to this CPU core.
    pub cpu_core: Option<usize>,

    /// UID of the user inside the sandbox.
    pub uid: usize,

    /// GID of the user inside the sandbox.
    pub gid: usize,

    /// Mount a fresh /proc inside the sandbox.
    pub mount_proc: bool,
}

impl View for SandboxConfiguration {
    type V = SandboxConfigurationView;

    open spec fn view(&self) -> SandboxConfigurationView {
        SandboxConfigurationView {
            time_limit: self.time_limit,
            memory_limit: self.memory_limit,
            stack_limit: self.stack_limit,
            executable: self.executable@,
            args: string_views(self.args@),
            env: env_views(self.env@),
            mount_paths: mount_views(self.mount_paths@),
            working_directory: self.working_directory@,
            stdin: opt_string_view(self.stdin),
            stdout: opt_string_view(self.stdout),
            stderr: opt_string_view(self.stderr),
            syscall_filter: opt_filter_view(self.syscall_filter),
            mount_tmpfs: self.mount_tmpfs,
            wall_time_limit: self.wall_time_limit,
            cpu_core: self.cpu_core,
            uid: self.uid,
            gid: self.gid,
            mount_proc: self.mount_proc,
        }
    }
}

impl Clone for SandboxConfiguration {
    /// Cloning keeps every configuration parameter.
    fn clone(&self) -> (r: Self)
        ensures
            r@ == self@,
    {
        let r = SandboxConfiguration {
            time_limit: self.time_limit,
            memory_limit: self.memory_limit,
            stack_limit: self.stack_limit,
            executable: self.executable.clone(),
            args: clone_strings(&self.args),
            env: clone_env(&self.env),
            mount_paths: clone_mounts(&self.mount_paths),
            working_directory: self.working_directory.clone(),
            stdin: clone_opt_string(&self.stdin),
            stdout: clone_opt_string(&self.stdout),
            stderr: clone_opt_string(&self.stderr),
            syscall_filter: clone_opt_filter(&self.syscall_filter),
            mount_tmpfs: self.mount_tmpfs,
            wall_time_limit: self.wall_time_limit,
            cpu_core: self.cpu_core,
            uid: self.uid,
            gid: self.gid,
            mount_proc: self.mount_proc,
        };
        proof {
            assert(r@ =~= self@);
        }
        r
    }
}

/// Clone a vector of strings, keeping its contents.
fn clone_strings(v: &Vec<String>) -> (r: Vec<String>)
    ensures
        string_views(r@) == string_views(v@),
{
    let mut r: Vec<String> = Vec::new();
    let mut i: usize = 0;
    while i < v.len()
        invariant
            i <= v.len(),
            r@.len() == i,
            forall|k: int| 0 <= k < i ==> (#[trigger] r@[k])@ == v@[k]@,
        decreases v.len() - i,
    {
        r.push(v[i].clone());
        i = i + 1;
    }
    proof {
        assert(string_views(r@) =~= string_views(v@));
    }
    r
}

/// Clone a vector of environment pairs, keeping its contents.
fn clone_env(v: &Vec<(String, String)>) -> (r: Vec<(String, String)>)
    ensures
        env_views(r@) == env_views(v@),
{
    let mut r: Vec<(String, String)> = Vec::new();
    let mut i: usize = 0;
    while i < v.len()
        invariant
            i <= v.len(),
            r@.len() == i,
            forall|k: int|
                0 <= k < i ==> (#[trigger] r@[k]).0@ == v@[k].0@ && r@[k].1@ == v@[k].1@,
        decreases v.len() - i,
    {
        r.push((v[i].0.clone(), v[i].1.clone()));
        i = i + 1;
    }
    proof {
        assert(env_views(r@) =~= env_views(v@));
    }
    r
}

/// Clone a vector of mount entries, keeping its contents.
fn clone_mounts(v: &Vec<DirectoryMount>) -> (r: Vec<DirectoryMount>)
    ensures
        mount_views(r@) == mount_views(v@),
{
    let mut r: Vec<DirectoryMount> = Vec::new();
    let mut i: usize = 0;
    while i < v.len()
        invariant
            i <= v.len(),
            r@.len() == i,
            forall|k: int| 0 <= k < i ==> (#[trigger] r@[k])@ == v@[k]@,
        decreases v.len() - i,
    {
        r.push(v[i].clone());
        i = i + 1;
    }
    proof {
        assert(mount_views(r@) =~= mount_views(v@));
    }
    r
}

/// Clone an optional string, keeping its content.
fn clone_opt_string(v: &Option<String>) -> (r: Option<String>)
    ensures
        opt_string_view(r) == opt_string_view(*v),
{
    match v {
        Some(s) => Some(s.clone()),
        None => None,
    }
}

/// Clone an optional syscall filter, keeping its content.
fn clone_opt_filter(v: &Option<SyscallFilter>) -> (r: Option<SyscallFilter>)
    ensures
        opt_filter_view(r) == opt_filter_view(*v),
{
    match v {
        Some(f) => Some(f.clone()),
        None => None,
    }
}

impl Default for SandboxConfiguration {
    /// The default configuration: no limits, no mounts, no filter; the
    /// executable is the system shell and the working directory is the root.
    fn default() -> (r: Self)
        ensures
            r@ == (SandboxConfigurationView {
                time_limit: None,
                memory_limit: None,
                stack_limit: None,
                executable: "/bin/sh"@,
                args: Seq::empty(),
                env: Seq::empty(),
                mount_paths: Seq::empty(),
                working_directory: "/"@,
                stdin: None,
                stdout: None,
                stderr: None,
                syscall_filter: None,
                mount_tmpfs: false,
                wall_time_limit: None,
                cpu_core: None,
                uid: 0,
                gid: 0,
                mount_proc: false,
            }),
    {
        let r = SandboxConfiguration {
            time_limit: None,
            memory_limit: None,
            stack_limit: None,
            executable: String::from_str("/bin/sh"),
            args: Vec::new(),
            env: Vec::new(),
            mount_paths: Vec::new(),
            working_directory: String::from_str("/"),
            stdin: None,
            stdout: None,
            stderr: None,
            syscall_filter: None,
            mount_tmpfs: false,
            wall_time_limit: None,
            cpu_core: None,
            uid: 0,
            gid: 0,
            mount_proc: false,
        };
        proof {
            assert(r@ =~= (SandboxConfigurationView {
                time_limit: None,
                memory_limit: None,
                stack_limit: None,
                executable: "/bin/sh"@,
                args: Seq::empty(),
                env: Seq::empty(),
                mount_paths: Seq::empty(),
                working_directory: "/"@,
                stdin: None,
                stdout: None,
                stderr: None,
                syscall_filter: None,
                mount_tmpfs: false,
                wall_time_limit: None,
                cpu_core: None,
                uid: 0,
                gid: 0,
                mount_proc: false,
            }));
        }
        r
    }
}

impl SandboxConfiguration {
    /// Build the sandbox configuration.
    pub fn build(&self) -> (r: SandboxConfiguration)
        ensures
            r@ == self@,
    {
        self.clone()
    }

    /// Set the CPU time limit, in seconds.
    pub fn time_limit(&mut self, time_limit: u64)
        ensures
            final(self)@ == (SandboxConfigurationView { time_limit: Some(time_limit), ..old(self)@ }),
    {
        self.time_limit = Some(time_limit);
    }

    /// Set the memory limit, in **bytes**.
    pub fn memory_limit(&mut self, memory_limit: u64)
        ensures
            final(self)@ == (SandboxConfigurationView { memory_limit: Some(memory_limit), ..old(self)@ }),
    {
        self.memory_limit = Some(memory_limit);
    }

    /// Set the stack limit, in **bytes**.
    pub fn stack_limit(&mut self, stack_limit: u64)
        ensures
            final(self)@ == (SandboxConfigurationView { stack_limit: Some(stack_limit), ..old(self)@ }),
    {
        self.stack_limit = Some(stack_limit);
    }

    /// Set the standard input file path.
    pub fn stdin(&mut self, stdin: String)
        ensures
            final(self)@ == (SandboxConfigurationView { stdin: Some(stdin@), ..old(self)@ }),
    {
        self.stdin = Some(stdin);
    }

    /// Set the standard output file path.
    pub fn stdout(&mut self, stdout: String)
        ensures
            final(self)@ == (SandboxConfigurationView { stdout: Some(stdout@), ..old(self)@ }),
    {
        self.stdout = Some(stdout);
    }

    /// Set the standard error file path.
    pub fn stderr(&mut self, stderr: String)
        ensures
            final(self)@ == (SandboxConfigurationView { stderr: Some(stderr@), ..old(self)@ }),
    {
        self.stderr = Some(stderr);
    }

    /// Set the executable file path.
    pub fn executable(&mut self, executable: String)
        ensures
            final(self)@ == (SandboxConfigurationView { executable: executable@, ..old(self)@ }),
    {
        self.executable = executable;
    }

    /// Set the working directory.
    pub fn working_directory(&mut self, working_directory: String)
        ensures
            final(self)@ == (SandboxConfigurationView {
                working_directory: working_directory@,
                ..old(self)@
            }),
    {
        self.working_directory = working_directory;
    }

    /// Add an argument for the program.
    pub fn arg(&mut self, arg: String)
        ensures
            final(self)@ == (SandboxConfigurationView { args: old(self)@.args.push(arg@), ..old(self)@ }),
    {
        self.args.push(arg);
        proof {
            assert(self@ =~= (SandboxConfigurationView {
                args: old(self)@.args.push(arg@),
                ..old(self)@
            }));
        }
    }

    /// Add a variable to the environment of the program.
    pub fn env(&mut self, variable: String, value: String)
        ensures
            final(self)@ == (SandboxConfigurationView {
                env: old(self)@.env.push((variable@, value@)),
                ..old(self)@
            }),
    {
        self.env.push((variable, value));
        proof {
            assert(self@ =~= (SandboxConfigurationView {
                env: old(self)@.env.push((variable@, value@)),
                ..old(self)@
            }));
        }
    }

    /// Add a mount point into the sandbox.
    pub fn mount(&mut self, source: String, target: String, writable: bool)
        ensures
            final(self)@ == (SandboxConfigurationView {
                mount_paths: old(self)@.mount_paths.push(
                    DirectoryMountView { target: target@, source: source@, writable },
                ),
                ..old(self)@
            }),
    {
        self.mount_paths.push(DirectoryMount { target, source, writable });
        proof {
            assert(self@ =~= (SandboxConfigurationView {
                mount_paths: old(self)@.mount_paths.push(
                    DirectoryMountView { target: target@, source: source@, writable },
                ),
                ..old(self)@
            }));
        }
    }

    /// Install the syscall filter.
    pub fn syscall_filter(&mut self, filter: SyscallFilter)
        ensures
            final(self)@ == (SandboxConfigurationView { syscall_filter: Some(filter@), ..old(self)@ }),
    {
        self.syscall_filter = Some(filter);
    }

    /// Mount a read/write tmpfs at /tmp and /dev/shm.
    pub fn mount_tmpfs(&mut self, value: bool)
        ensures
            final(self)@ == (SandboxConfigurationView { mount_tmpfs: value, ..old(self)@ }),
    {
        self.mount_tmpfs = value;
    }

    /// Set the wall-clock time limit, in seconds.
    pub fn wall_time_limit(&mut self, value: u64)
        ensures
            final(self)@ == (SandboxConfigurationView { wall_time_limit: Some(value), ..old(self)@ }),
    {
        self.wall_time_limit = Some(value);
    }

    /// Run the sandboxed process on the specified CPU core.
    pub fn run_on_core(&mut self, value: usize)
        ensures
            final(self)@ == (SandboxConfigurationView { cpu_core: Some(value), ..old(self)@ }),
    {
        self.cpu_core = Some(value);
    }

    /// Set the UID of the user inside the sandbox.
    pub fn uid(&mut self, uid: usize)
        ensures
            final(self)@ == (SandboxConfigurationView { uid, ..old(self)@ }),
    {
        self.uid = uid;
    }

    /// Set the GID of the user inside the sandbox.
    pub fn gid(&mut self, gid: usize)
        ensures
            final(self)@ == (SandboxConfigurationView { gid, ..old(self)@ }),
    {
        self.gid = gid;
    }

    /// Mount a fresh /proc inside the sandbox.
    pub fn mount_proc(&mut self, mount_proc: bool)
        ensures
            final(self)@ == (SandboxConfigurationView { mount_proc, ..old(self)@ }),
    {
        self.mount_proc = mount_proc;
    }
}

} // verus!
