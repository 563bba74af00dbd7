//! Command-line option building for an isolate-style sandbox runner: a
//! typed description of one invocation and the exact option vector it
//! turns into.

use vstd::prelude::*;

use crate::configuration::{env_views, string_views};
use crate::decimal::dec_digits;
use crate::decimal::u64_to_string;

verus! {

/// A quantity that is either a positive amount or unlimited.
#[derive(Debug, Clone, Copy, PartialEq, Eq, Structural)]
pub enum NonZeroQuantity {
    /// A positive amount; zero is reserved for [`NonZeroQuantity::Unlimited`].
    Value(usize),

    /// No bound.
    Unlimited,
}

impl NonZeroQuantity {
    /// A quantity is well-formed when a bounded amount is positive.
    pub open spec fn wf(self) -> bool {
        self matches NonZeroQuantity::Value(x) ==> x > 0
    }

    /// The numeric form the runner expects: the amount itself, with zero
    /// standing for "unlimited".
    pub fn to_representation(&self) -> (r: usize)
        ensures
            r == (match *self {
                NonZeroQuantity::Value(x) => x,
                NonZeroQuantity::Unlimited => 0,
            }),
    {
        match self {
            NonZeroQuantity::Value(x) => *x,
            NonZeroQuantity::Unlimited => 0,
        }
    }
}

/// A directory made visible inside the sandbox of the runner.
#[derive(Debug, Clone)]
pub struct SandboxDirectory {
    /// The host directory.
    pub src: String,

    /// Where to show it inside the sandbox; the host path when absent.
    pub dst: Option<String>,

    /// Mount options, joined with commas after the paths.
    pub options: Vec<String>,
}

/// The mathematical content of a [`SandboxDirectory`].
#[verifier::ext_equal]
pub struct SandboxDirectoryView {
    /// The host directory.
    pub src: Seq<char>,

    /// Where to show it inside the sandbox; the host path when absent.
    pub dst: Option<Seq<char>>,

    /// Mount options.
    pub options: Seq<Seq<char>>,
}

impl View for SandboxDirectory {
    type V = SandboxDirectoryView;

    open spec fn view(&self) -> SandboxDirectoryView {
        SandboxDirectoryView {
            src: self.src@,
            dst: crate::configuration::opt_string_view(self.dst),
            options: string_views(self.options@),
        }
    }
}

/// One invocation of an isolate-style sandbox runner.
#[derive(Debug, Clone)]
pub struct IsolateSandbox {
    /// A unique box id when several sandboxes run in parallel.
    pub box_id: Option<u8>,

    /// Use control groups.
    pub use_cgroups: bool,

    /// Change to this directory before executing the program.
    pub chdir: Option<String>,

    /// Directories made visible inside the sandbox.
    pub visible_dirs: Vec<SandboxDirectory>,

    /// Inherit the full environment of the parent process.
    pub preserve_env: bool,

    /// Variables inherited one by one from the parent process.
    pub inherit_env: Vec<String>,

    /// Variables set to explicit values, in the order they are emitted.
    pub set_env: Vec<(String, String)>,

    /// Largest file, in KB, that the program may create.
    pub max_file_size: NonZeroQuantity,

    /// Stack size limit, in bytes.
    pub stack_space: NonZeroQuantity,

    /// Address space limit, in bytes.
    pub address_space: NonZeroQuantity,

    /// Redirect standard input from this file.
    pub stdin_file: Option<String>,

    /// Redirect standard output to this file.
    pub stdout_file: Option<String>,

    /// Redirect standard error to this file.
    pub stderr_file: Option<String>,

    /// Run time limit, in milliseconds.
    pub timeout: NonZeroQuantity,

    /// How verbose the runner should be.
    pub verbosity: u8,

    /// Wall-clock time limit, in milliseconds.
    pub wallclock_timeout_ms: NonZeroQuantity,

    /// Extra time before a timing-out program is killed, so its real
    /// running time is reported.
    pub extra_timeout_ms: NonZeroQuantity,

    /// How many processes the program may use; more than one needs
    /// control groups.
    pub max_processes: usize,
}

impl Default for IsolateSandbox {
    /// No limits, no directories, an empty environment, one process.
    fn default() -> (r: Self)
        ensures
            r.box_id is None,
            !r.use_cgroups,
            r.chdir is None,
            r.visible_dirs@ == Seq::<SandboxDirectory>::empty(),
            !r.preserve_env,
            r.inherit_env@ == Seq::<String>::empty(),
            r.set_env@ == Seq::<(String, String)>::empty(),
            r.max_file_size == NonZeroQuantity::Unlimited,
            r.stack_space == NonZeroQuantity::Unlimited,
            r.address_space == NonZeroQuantity::Unlimited,
            r.stdin_file is None,
            r.stdout_file is None,
            r.stderr_file is None,
            r.timeout == NonZeroQuantity::Unlimited,
            r.verbosity == 0,
            r.wallclock_timeout_ms == NonZeroQuantity::Unlimited,
            r.extra_timeout_ms == NonZeroQuantity::Unlimited,
            r.max_processes == 1,
    {
        IsolateSandbox {
            box_id: None,
            use_cgroups: false,
            chdir: None,
            visible_dirs: Vec::new(),
            preserve_env: false,
            inherit_env: Vec::new(),
            set_env: Vec::new(),
            max_file_size: NonZeroQuantity::Unlimited,
            stack_space: NonZeroQuantity::Unlimited,
            address_space: NonZeroQuantity::Unlimited,
            stdin_file: None,
            stdout_file: None,
            stderr_file: None,
            timeout: NonZeroQuantity::Unlimited,
            verbosity: 0,
            wallclock_timeout_ms: NonZeroQuantity::Unlimited,
            extra_timeout_ms: NonZeroQuantity::Unlimited,
            max_processes: 1,
        }
    }
}

/// Mount options joined with commas.
pub open spec fn spec_join_comma(parts: Seq<Seq<char>>) -> Seq<char>
    decreases parts.len(),
{
    if parts.len() == 0 {
        Seq::empty()
    } else if parts.len() == 1 {
        parts[0]
    } else {
        spec_join_comma(parts.drop_last()) + ","@ + parts.last()
    }
}

/// The option that makes one directory visible: the two paths, and the
/// mount options after a colon when there are any.
pub open spec fn dir_option(dir: SandboxDirectoryView) -> Seq<char> {
    let shown = match dir.dst {
        Some(d) => d,
        None => dir.src,
    };
    let base = "--dir="@ + dir.src + "="@ + shown;
    if dir.options.len() == 0 {
        base
    } else {
        base + ":"@ + spec_join_comma(dir.options)
    }
}

/// The options for a list of visible directories, in order.
pub open spec fn dir_options(dirs: Seq<SandboxDirectoryView>) -> Seq<Seq<char>>
    decreases dirs.len(),
{
    if dirs.len() == 0 {
        Seq::empty()
    } else {
        dir_options(dirs.drop_last()) + seq![dir_option(dirs.last())]
    }
}

/// The options inheriting single variables, in order.
pub open spec fn inherit_env_options(vars: Seq<Seq<char>>) -> Seq<Seq<char>>
    decreases vars.len(),
{
    if vars.len() == 0 {
        Seq::empty()
    } else {
        inherit_env_options(vars.drop_last()) + seq!["--env="@ + vars.last()]
    }
}

/// The options setting variables to values, in order.
pub open spec fn set_env_options(pairs: Seq<(Seq<char>, Seq<char>)>) -> Seq<Seq<char>>
    decreases pairs.len(),
{
    if pairs.len() == 0 {
        Seq::empty()
    } else {
        set_env_options(pairs.drop_last()) + seq![
            "--env="@ + pairs.last().0 + "="@ + pairs.last().1,
        ]
    }
}

/// One verbosity option per level.
pub open spec fn verbose_options(level: nat) -> Seq<Seq<char>>
    decreases level,
{
    if level == 0 {
        Seq::empty()
    } else {
        verbose_options((level - 1) as nat) + seq!["--verbose"@]
    }
}

/// The options up to and including the visible directories, in the
/// order the runner receives them.
pub open spec fn box_options_head(c: IsolateSandbox) -> Seq<Seq<char>> {
    (match c.box_id {
        Some(b) => seq!["--box-id="@ + dec_digits(b as nat)],
        None => Seq::<Seq<char>>::empty(),
    }) + (if c.use_cgroups {
        seq!["--cg"@, "--cg-timing"@]
    } else {
        Seq::<Seq<char>>::empty()
    }) + (match c.chdir {
        Some(d) => seq!["--chdir="@ + d@],
        None => Seq::<Seq<char>>::empty(),
    }) + dir_options(dir_views(c.visible_dirs@))
}

/// The environment and file-size options, in the order the runner
/// receives them.
pub open spec fn box_options_env(c: IsolateSandbox) -> Seq<Seq<char>> {
    (if c.preserve_env {
        seq!["--full-env"@]
    } else {
        Seq::<Seq<char>>::empty()
    }) + inherit_env_options(string_views(c.inherit_env@)) + set_env_options(
        env_views(c.set_env@),
    ) + (match c.max_file_size {
        NonZeroQuantity::Value(b) => seq!["-f "@ + dec_digits(b as nat)],
        NonZeroQuantity::Unlimited => Seq::<Seq<char>>::empty(),
    }) + seq![
        "--fsize="@ + dec_digits(match c.max_file_size {
            NonZeroQuantity::Value(x) => x as nat,
            NonZeroQuantity::Unlimited => 0,
        }),
    ]
}

/// The options up to and including the file-size bound.
pub open spec fn box_options_front(c: IsolateSandbox) -> Seq<Seq<char>> {
    box_options_head(c) + box_options_env(c)
}

/// The options from the input redirection to the process bound, in the
/// order the runner receives them.
pub open spec fn box_options_mid(c: IsolateSandbox) -> Seq<Seq<char>> {
    (match c.stdin_file {
        Some(f) => seq!["--stdin="@ + f@],
        None => Seq::<Seq<char>>::empty(),
    }) + (match c.stack_space {
        NonZeroQuantity::Value(k) => seq!["--stack="@ + dec_digits((k / 1024) as nat)],
        NonZeroQuantity::Unlimited => Seq::<Seq<char>>::empty(),
    }) + (match c.address_space {
        NonZeroQuantity::Value(m) => if c.use_cgroups {
            seq!["--cg-mem="@ + dec_digits((m / 1024) as nat)]
        } else {
            seq!["--mem="@ + dec_digits((m / 1024) as nat)]
        },
        NonZeroQuantity::Unlimited => Seq::<Seq<char>>::empty(),
    }) + (match c.stdout_file {
        Some(f) => seq!["--stdout="@ + f@],
        None => Seq::<Seq<char>>::empty(),
    }) + (if c.max_processes > 1 && c.use_cgroups {
        seq!["--processes="@ + dec_digits(c.max_processes as nat)]
    } else {
        seq!["--processes"@]
    })
}

/// The options from the error redirection to the final run marker, in
/// the order the runner receives them.
pub open spec fn box_options_tail(c: IsolateSandbox) -> Seq<Seq<char>> {
    (match c.stderr_file {
        Some(f) => seq!["--stderr="@ + f@],
        None => Seq::<Seq<char>>::empty(),
    }) + (match c.timeout {
        NonZeroQuantity::Value(t) => seq!["--time="@ + dec_digits(t as nat)],
        NonZeroQuantity::Unlimited => Seq::<Seq<char>>::empty(),
    }) + verbose_options(c.verbosity as nat) + (match c.wallclock_timeout_ms {
        NonZeroQuantity::Value(w) => seq!["--wall-time="@ + dec_digits(w as nat)],
        NonZeroQuantity::Unlimited => Seq::<Seq<char>>::empty(),
    }) + (match c.extra_timeout_ms {
        NonZeroQuantity::Value(x) => seq!["--extra-time="@ + dec_digits(x as nat)],
        NonZeroQuantity::Unlimited => Seq::<Seq<char>>::empty(),
    }) + seq!["--run"@]
}

/// The options after the file-size bound.
pub open spec fn box_options_back(c: IsolateSandbox) -> Seq<Seq<char>> {
    box_options_mid(c) + box_options_tail(c)
}

/// The whole option vector for one invocation, in the order the runner
/// receives it. Sizes that the runner takes in KiB are divided down from
/// bytes here.
pub open spec fn spec_box_options(c: IsolateSandbox) -> Seq<Seq<char>> {
    box_options_front(c) + box_options_back(c)
}

/// The views of a sequence of visible directories.
pub open spec fn dir_views(dirs: Seq<SandboxDirectory>) -> Seq<SandboxDirectoryView> {
    dirs.map_values(|d: SandboxDirectory| d@)
}

/// Join mount options with commas.
fn join_comma(parts: &Vec<String>) -> (r: String)
    ensures
        r@ == spec_join_comma(string_views(parts@)),
{
    let mut r = String::new();
    let mut i: usize = 0;
    while i < parts.len()
        invariant
            0 <= i <= parts.len(),
            r@ == spec_join_comma(string_views(parts@.take(i as int))),
        decreases parts.len() - i,
    {
        if i > 0 {
            r.append(",");
        }
        r.append(parts[i].as_str());
        proof {
            let views = string_views(parts@.take(i + 1));
            assert(string_views(parts@.take(i + 1)).drop_last() =~= string_views(
                parts@.take(i as int),
            ));
            assert(views.last() == parts@[i as int]@);
            if i == 0 {
                assert(r@ =~= spec_join_comma(views));
            } else {
                assert(r@ =~= spec_join_comma(views));
            }
        }
        i = i + 1;
    }
    proof {
        assert(parts@.take(parts@.len() as int) =~= parts@);
    }
    r
}

/// Prefix `prefix` to a rendered number.
fn prefixed_number(prefix: &str, n: u64) -> (r: String)
    ensures
        r@ == prefix@ + dec_digits(n as nat),
{
    let mut r = String::from_str(prefix);
    r.append(u64_to_string(n).as_str());
    r
}

/// Prefix `prefix` to a string.
fn prefixed_str(prefix: &str, tail: &str) -> (r: String)
    ensures
        r@ == prefix@ + tail@,
{
    let mut r = String::from_str(prefix);
    r.append(tail);
    r
}

/// Append the options for the visible directories.
fn push_dir_options(res: &mut Vec<String>, dirs: &Vec<SandboxDirectory>)
    ensures
        string_views(final(res)@) == string_views(old(res)@) + dir_options(dir_views(dirs@)),
{
    let ghost base = string_views(res@);
    let mut i: usize = 0;
    while i < dirs.len()
        invariant
            0 <= i <= dirs.len(),
            string_views(res@) == base + dir_options(dir_views(dirs@.take(i as int))),
        decreases dirs.len() - i,
    {
        let dir = &dirs[i];
        let shown = match &dir.dst {
            Some(d) => d.as_str(),
            None => dir.src.as_str(),
        };
        let mut cmd_param = prefixed_str(dir.src.as_str(), "=");
        cmd_param.append(shown);
        let mut option = prefixed_str("--dir=", cmd_param.as_str());
        if dir.options.len() != 0 {
            option.append(":");
            option.append(join_comma(&dir.options).as_str());
        }
        proof {
            assert(option@ =~= dir_option(dir@));
            crate::configuration::lemma_string_views_push(res@, option);
        }
        res.push(option);
        proof {
            assert(dir_views(dirs@.take(i + 1)).drop_last() =~= dir_views(dirs@.take(i as int)));
            assert(dir_views(dirs@.take(i + 1)).last() == dirs@[i as int]@);
            assert(string_views(res@) =~= base + dir_options(dir_views(dirs@.take(i + 1))));
        }
        i = i + 1;
    }
    proof {
        assert(dirs@.take(dirs@.len() as int) =~= dirs@);
    }
}

/// Append the options inheriting single variables.
fn push_inherit_env_options(res: &mut Vec<String>, vars: &Vec<String>)
    ensures
        string_views(final(res)@) == string_views(old(res)@) + inherit_env_options(
            string_views(vars@),
        ),
{
    let ghost base = string_views(res@);
    let mut i: usize = 0;
    while i < vars.len()
        invariant
            0 <= i <= vars.len(),
            string_views(res@) == base + inherit_env_options(string_views(vars@.take(i as int))),
        decreases vars.len() - i,
    {
        let option = prefixed_str("--env=", vars[i].as_str());
        proof {
            crate::configuration::lemma_string_views_push(res@, option);
        }
        res.push(option);
        proof {
            assert(string_views(vars@.take(i + 1)).drop_last() =~= string_views(
                vars@.take(i as int),
            ));
            assert(string_views(vars@.take(i + 1)).last() == vars@[i as int]@);
            assert(string_views(res@) =~= base + inherit_env_options(
                string_views(vars@.take(i + 1)),
            ));
        }
        i = i + 1;
    }
    proof {
        assert(vars@.take(vars@.len() as int) =~= vars@);
    }
}

/// Append the options setting variables to values.
fn push_set_env_options(res: &mut Vec<String>, pairs: &Vec<(String, String)>)
    ensures
        string_views(final(res)@) == string_views(old(res)@) + set_env_options(
            env_views(pairs@),
        ),
{
    let ghost base = string_views(res@);
    let mut i: usize = 0;
    while i < pairs.len()
        invariant
            0 <= i <= pairs.len(),
            string_views(res@) == base + set_env_options(env_views(pairs@.take(i as int))),
        decreases pairs.len() - i,
    {
        let mut option = prefixed_str("--env=", pairs[i].0.as_str());
        option.append("=");
        option.append(pairs[i].1.as_str());
        proof {
            assert(option@ =~= "--env="@ + pairs@[i as int].0@ + "="@ + pairs@[i as int].1@);
        }
        proof {
            crate::configuration::lemma_string_views_push(res@, option);
        }
        res.push(option);
        proof {
            assert(env_views(pairs@.take(i + 1)).drop_last() =~= env_views(
                pairs@.take(i as int),
            ));
            assert(env_views(pairs@.take(i + 1)).last() == (pairs@[i as int].0@, pairs@[
                i as int
            ].1@));
            assert(string_views(res@) =~= base + set_env_options(env_views(pairs@.take(i + 1))));
        }
        i = i + 1;
    }
    proof {
        assert(pairs@.take(pairs@.len() as int) =~= pairs@);
    }
}

/// Append one verbosity option per level.
fn push_verbose_options(res: &mut Vec<String>, verbosity: u8)
    ensures
        string_views(final(res)@) == string_views(old(res)@) + verbose_options(verbosity as nat),
{
    let ghost base = string_views(res@);
    let mut level: u8 = 0;
    while level < verbosity
        invariant
            0 <= level <= verbosity,
            string_views(res@) == base + verbose_options(level as nat),
        decreases verbosity - level,
    {
        let option = String::from_str("--verbose");
        proof {
            crate::configuration::lemma_string_views_push(res@, option);
        }
        res.push(option);
        proof {
            assert(string_views(res@) =~= base + verbose_options((level + 1) as nat));
        }
        level = level + 1;
    }
}

/// The single option `lit`.
fn lit_group(lit: &str) -> (r: Vec<String>)
    ensures
        string_views(r@) == seq![lit@],
{
    let mut r: Vec<String> = Vec::new();
    r.push(String::from_str(lit));
    proof {
        assert(string_views(r@) =~= seq![lit@]);
    }
    r
}

/// An optional option: the prefix and a path, when one is configured.
fn opt_string_group(prefix: &str, value: &Option<String>) -> (r: Vec<String>)
    ensures
        string_views(r@) == (match crate::configuration::opt_string_view(*value) {
            Some(v) => seq![prefix@ + v],
            None => Seq::<Seq<char>>::empty(),
        }),
{
    let mut r: Vec<String> = Vec::new();
    if let Some(v) = value {
        r.push(prefixed_str(prefix, v.as_str()));
    }
    proof {
        assert(string_views(r@) =~= (match crate::configuration::opt_string_view(*value) {
            Some(v) => seq![prefix@ + v],
            None => Seq::<Seq<char>>::empty(),
        }));
    }
    r
}

/// An optional option: the prefix and a number, when one is given.
fn opt_number_group(prefix: &str, value: Option<u64>) -> (r: Vec<String>)
    ensures
        string_views(r@) == (match value {
            Some(n) => seq![prefix@ + dec_digits(n as nat)],
            None => Seq::<Seq<char>>::empty(),
        }),
{
    let mut r: Vec<String> = Vec::new();
    if let Some(n) = value {
        r.push(prefixed_number(prefix, n));
    }
    proof {
        assert(string_views(r@) =~= (match value {
            Some(n) => seq![prefix@ + dec_digits(n as nat)],
            None => Seq::<Seq<char>>::empty(),
        }));
    }
    r
}

/// Append `part` to the option vector.
fn append_group(res: &mut Vec<String>, part: Vec<String>)
    ensures
        string_views(final(res)@) == string_views(old(res)@) + string_views(part@),
{
    let mut part = part;
    proof {
        crate::configuration::lemma_string_views_add(res@, part@);
    }
    res.append(&mut part);
}

/// Append the options of [`box_options_head`].
#[verifier::rlimit(100)]
fn push_head_options(res: &mut Vec<String>, config: &IsolateSandbox)
    ensures
        string_views(final(res)@) == string_views(old(res)@) + box_options_head(*config),
{
    let box_id = match config.box_id {
        Some(b) => Some(b as u64),
        None => None,
    };
    append_group(res, opt_number_group("--box-id=", box_id));

    if config.use_cgroups {
        let mut pair = lit_group("--cg");
        append_group(&mut pair, lit_group("--cg-timing"));
        proof {
            assert(string_views(pair@) =~= seq!["--cg"@, "--cg-timing"@]);
        }
        append_group(res, pair);
    }

    append_group(res, opt_string_group("--chdir=", &config.chdir));

    push_dir_options(res, &config.visible_dirs);
}

/// Append the options of [`box_options_env`].
#[verifier::rlimit(100)]
fn push_env_options(res: &mut Vec<String>, config: &IsolateSandbox)
    ensures
        string_views(final(res)@) == string_views(old(res)@) + box_options_env(*config),
{
    if config.preserve_env {
        append_group(res, lit_group("--full-env"));
    }

    push_inherit_env_options(res, &config.inherit_env);

    push_set_env_options(res, &config.set_env);

    let file_size = match config.max_file_size {
        NonZeroQuantity::Value(b) => Some(b as u64),
        NonZeroQuantity::Unlimited => None,
    };
    append_group(res, opt_number_group("-f ", file_size));

    append_group(
        res,
        opt_number_group("--fsize=", Some(config.max_file_size.to_representation() as u64)),
    );
}

/// Append the options of [`box_options_mid`].
#[verifier::rlimit(100)]
fn push_mid_options(res: &mut Vec<String>, config: &IsolateSandbox)
    ensures
        string_views(final(res)@) == string_views(old(res)@) + box_options_mid(*config),
{
    append_group(res, opt_string_group("--stdin=", &config.stdin_file));

    let stack = match config.stack_space {
        NonZeroQuantity::Value(k) => Some((k / 1024) as u64),
        NonZeroQuantity::Unlimited => None,
    };
    append_group(res, opt_number_group("--stack=", stack));

    let address = match config.address_space {
        NonZeroQuantity::Value(m) => Some((m / 1024) as u64),
        NonZeroQuantity::Unlimited => None,
    };
    if config.use_cgroups {
        append_group(res, opt_number_group("--cg-mem=", address));
    } else {
        append_group(res, opt_number_group("--mem=", address));
    }

    append_group(res, opt_string_group("--stdout=", &config.stdout_file));

    if config.max_processes > 1 && config.use_cgroups {
        append_group(res, opt_number_group("--processes=", Some(config.max_processes as u64)));
    } else {
        append_group(res, lit_group("--processes"));
    }
}

/// Append the options of [`box_options_tail`].
#[verifier::rlimit(100)]
fn push_tail_options(res: &mut Vec<String>, config: &IsolateSandbox)
    ensures
        string_views(final(res)@) == string_views(old(res)@) + box_options_tail(*config),
{
    append_group(res, opt_string_group("--stderr=", &config.stderr_file));

    let time = match config.timeout {
        NonZeroQuantity::Value(t) => Some(t as u64),
        NonZeroQuantity::Unlimited => None,
    };
    append_group(res, opt_number_group("--time=", time));

    push_verbose_options(res, config.verbosity);

    let wall = match config.wallclock_timeout_ms {
        NonZeroQuantity::Value(w) => Some(w as u64),
        NonZeroQuantity::Unlimited => None,
    };
    append_group(res, opt_number_group("--wall-time=", wall));

    let extra = match config.extra_timeout_ms {
        NonZeroQuantity::Value(x) => Some(x as u64),
        NonZeroQuantity::Unlimited => None,
    };
    append_group(res, opt_number_group("--extra-time=", extra));

    append_group(res, lit_group("--run"));
}

/// Build the option vector for one invocation of the runner, in order:
/// exactly the options of [`spec_box_options`].
pub fn build_box_options(config: IsolateSandbox) -> (res: Vec<String>)
    ensures
        string_views(res@) == spec_box_options(config),
{
    let mut res: Vec<String> = Vec::new();
    proof {
        assert(string_views(res@) =~= Seq::<Seq<char>>::empty());
    }
    push_head_options(&mut res, &config);
    push_env_options(&mut res, &config);
    push_mid_options(&mut res, &config);
    push_tail_options(&mut res, &config);
    proof {
        assert(string_views(res@) == spec_box_options(config)) by {
            assert(string_views(Seq::<String>::empty()) + box_options_head(config)
                + box_options_env(config) + box_options_mid(config) + box_options_tail(config)
                =~= (box_options_head(config) + box_options_env(config)) + (box_options_mid(
                config,
            ) + box_options_tail(config)));
        }
    }
    res
}

} // verus!
