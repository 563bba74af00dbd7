//! The plan for assembling the sandbox filesystem: an ordered list of
//! mount operations that turns an empty directory into the private,
//! mostly read-only tree the child chroots into. The process machinery
//! executes the steps in order and aborts on the first failure.

use vstd::prelude::*;

use crate::configuration::{DirectoryMountView, SandboxConfiguration};
use crate::SandboxError;

verus! {

/// One operation in the assembly of the sandbox filesystem.
#[derive(Debug)]
pub enum MountStep {
    /// Mount a fresh tmpfs at `target` with the mount options `options`.
    MountTmpfs { target: String, options: String },

    /// Create the directory `path`, with its parents.
    CreateDir { path: String },

    /// Create the empty device node `path`, readable and writable by all.
    CreateDeviceNode { path: String },

    /// Bind the host device `source` onto `target`.
    BindDevice { source: String, target: String },

    /// Mount a fresh proc filesystem at `target`.
    MountProcFs { target: String },

    /// Bind the host directory `source`, with everything mounted under
    /// it, onto `target`.
    BindDirectory { source: String, target: String },

    /// Remount the bind mount at `target` read-only, nosuid and nodev.
    RemountBindReadOnly { target: String },

    /// Remount the filesystem at `target` read-only.
    RemountReadOnly { target: String },
}

/// The mathematical content of a [`MountStep`].
#[verifier::ext_equal]
pub enum MountStepView {
    /// Mount a fresh tmpfs at `target` with the mount options `options`.
    MountTmpfs { target: Seq<char>, options: Seq<char> },

    /// Create the directory `path`, with its parents.
    CreateDir { path: Seq<char> },

    /// Create the empty device node `path`, readable and writable by all.
    CreateDeviceNode { path: Seq<char> },

    /// Bind the host device `source` onto `target`.
    BindDevice { source: Seq<char>, target: Seq<char> },

    /// Mount a fresh proc filesystem at `target`.
    MountProcFs { target: Seq<char> },

    /// Bind the host directory `source`, with everything mounted under
    /// it, onto `target`.
    BindDirectory { source: Seq<char>, target: Seq<char> },

    /// Remount the bind mount at `target` read-only, nosuid and nodev.
    RemountBindReadOnly { target: Seq<char> },

    /// Remount the filesystem at `target` read-only.
    RemountReadOnly { target: Seq<char> },
}

impl View for MountStep {
    type V = MountStepView;

    open spec fn view(&self) -> MountStepView {
        match self {
            MountStep::MountTmpfs { target, options } => MountStepView::MountTmpfs {
                target: target@,
                options: options@,
            },
            MountStep::CreateDir { path } => MountStepView::CreateDir { path: path@ },
            MountStep::CreateDeviceNode { path } => MountStepView::CreateDeviceNode {
                path: path@,
            },
            MountStep::BindDevice { source, target } => MountStepView::BindDevice {
                source: source@,
                target: target@,
            },
            MountStep::MountProcFs { target } => MountStepView::MountProcFs { target: target@ },
            MountStep::BindDirectory { source, target } => MountStepView::BindDirectory {
                source: source@,
                target: target@,
            },
            MountStep::RemountBindReadOnly { target } => MountStepView::RemountBindReadOnly {
                target: target@,
            },
            MountStep::RemountReadOnly { target } => MountStepView::RemountReadOnly {
                target: target@,
            },
        }
    }
}

/// The views of a sequence of mount steps.
pub open spec fn step_views(steps: Seq<MountStep>) -> Seq<MountStepView> {
    steps.map_values(|s: MountStep| s@)
}

/// Whether `path` can serve as a mount target inside the sandbox: it must
/// be absolute, so it can be joined under the sandbox root.
pub open spec fn is_absolute_path(path: Seq<char>) -> bool {
    path.len() > 0 && path[0] == '/'
}

/// An in-sandbox path joined under the sandbox root: the root directory
/// followed by the absolute in-sandbox path.
pub open spec fn joined_under_root(root: Seq<char>, path: Seq<char>) -> Seq<char> {
    root + path
}

/// Join the absolute in-sandbox path `path` under the sandbox root.
fn join_under_root(root: &str, path: &str) -> (r: String)
    ensures
        r@ == joined_under_root(root@, path@),
{
    String::from_str(root).concat(path)
}

/// The two steps that put one host device into the sandbox: an empty node
/// to mount on, then a bind mount of the host device onto it.
pub open spec fn device_steps(root: Seq<char>, name: Seq<char>) -> Seq<MountStepView> {
    seq![
        MountStepView::CreateDeviceNode { path: root + "/dev/"@ + name },
        MountStepView::BindDevice {
            source: "/dev/"@ + name,
            target: root + "/dev/"@ + name,
        },
    ]
}

/// The steps that make one configured directory visible in the sandbox:
/// create the mount point, bind the host directory onto it recursively,
/// and, when the entry is read-only, remount it read-only at once.
pub open spec fn mount_entry_steps(root: Seq<char>, entry: DirectoryMountView) -> Seq<
    MountStepView,
> {
    seq![
        MountStepView::CreateDir { path: joined_under_root(root, entry.target) },
        MountStepView::BindDirectory {
            source: entry.source,
            target: joined_under_root(root, entry.target),
        },
    ] + if entry.writable {
        Seq::<MountStepView>::empty()
    } else {
        seq![
            MountStepView::RemountBindReadOnly {
                target: joined_under_root(root, entry.target),
            },
        ]
    }
}

/// The steps for a list of configured directories, in declared order.
pub open spec fn mount_entries_steps(root: Seq<char>, entries: Seq<DirectoryMountView>) -> Seq<
    MountStepView,
>
    decreases entries.len(),
{
    if entries.len() == 0 {
        Seq::empty()
    } else {
        mount_entries_steps(root, entries.drop_last()) + mount_entry_steps(root, entries.last())
    }
}

/// The whole filesystem plan for a configuration, under the sandbox root
/// `root`: a size-capped tmpfs as the skeleton, the four standard devices,
/// the optional /tmp and /dev/shm tmpfs and the optional /proc, the
/// configured directories in order, and finally the read-only remount of
/// the skeleton — the writable mounts stay writable because they are
/// separate mounts.
pub open spec fn spec_filesystem_plan(
    config: crate::configuration::SandboxConfigurationView,
    root: Seq<char>,
) -> Seq<MountStepView> {
    seq![
        MountStepView::MountTmpfs { target: root, options: "size=256M,mode=0755"@ },
        MountStepView::CreateDir { path: root + "/dev"@ },
    ] + device_steps(root, "null"@) + device_steps(root, "zero"@) + device_steps(root, "random"@)
        + device_steps(root, "urandom"@) + (if config.mount_tmpfs {
        seq![
            MountStepView::CreateDir { path: root + "/tmp"@ },
            MountStepView::MountTmpfs { target: root + "/tmp"@, options: "size=256M"@ },
            MountStepView::CreateDir { path: root + "/dev/shm"@ },
            MountStepView::MountTmpfs { target: root + "/dev/shm"@, options: "size=256M"@ },
        ]
    } else {
        Seq::<MountStepView>::empty()
    }) + (if config.mount_proc {
        seq![
            MountStepView::CreateDir { path: root + "/proc"@ },
            MountStepView::MountProcFs { target: root + "/proc"@ },
        ]
    } else {
        Seq::<MountStepView>::empty()
    }) + mount_entries_steps(root, config.mount_paths) + seq![
        MountStepView::RemountReadOnly { target: root },
    ]
}

/// Push the steps for one host device under the sandbox root.
fn push_device_steps(steps: &mut Vec<MountStep>, root: &str, name: &str)
    ensures
        step_views(final(steps)@) == step_views(old(steps)@) + device_steps(root@, name@),
{
    let node = String::from_str(root).concat("/dev/").concat(name);
    let host = String::from_str("/dev/").concat(name);
    let node_again = node.clone();
    steps.push(MountStep::CreateDeviceNode { path: node });
    steps.push(MountStep::BindDevice { source: host, target: node_again });
    proof {
        assert(step_views(steps@) =~= step_views(old(steps)@) + device_steps(root@, name@));
    }
}

/// Push the steps for one configured directory under the sandbox root.
fn push_mount_entry_steps(
    steps: &mut Vec<MountStep>,
    root: &str,
    source: &String,
    target: &String,
    writable: bool,
)
    ensures
        step_views(final(steps)@) == step_views(old(steps)@) + mount_entry_steps(
            root@,
            DirectoryMountView { target: target@, source: source@, writable },
        ),
{
    let joined = join_under_root(root, target.as_str());
    let joined_bind = joined.clone();
    steps.push(MountStep::CreateDir { path: joined });
    steps.push(MountStep::BindDirectory { source: source.clone(), target: joined_bind });
    if !writable {
        let joined_remount = join_under_root(root, target.as_str());
        steps.push(MountStep::RemountBindReadOnly { target: joined_remount });
    }
    proof {
        assert(step_views(steps@) =~= step_views(old(steps)@) + mount_entry_steps(
            root@,
            DirectoryMountView { target: target@, source: source@, writable },
        ));
    }
}

/// The steps for the configured directories create, bind and remount
/// only mount points joined under the root: every read-only remount
/// among them belongs to a configured entry that is not writable, and
/// every entry gets its bind mount.
pub proof fn lemma_mount_policy(root: Seq<char>, entries: Seq<DirectoryMountView>)
    ensures
        forall|k: int|
            0 <= k < mount_entries_steps(root, entries).len() ==> (
            #[trigger] mount_entries_steps(root, entries)[k] matches
                MountStepView::RemountBindReadOnly { target } ==> exists|j: int|
                0 <= j < entries.len() && !(#[trigger] entries[j]).writable && target
                    == joined_under_root(root, entries[j].target)),
        forall|j: int|
            0 <= j < entries.len() ==> mount_entries_steps(root, entries).contains(
                MountStepView::BindDirectory {
                    source: (#[trigger] entries[j]).source,
                    target: joined_under_root(root, entries[j].target),
                },
            ),
    decreases entries.len(),
{
    if entries.len() > 0 {
        lemma_mount_policy(root, entries.drop_last());
        let prefix = mount_entries_steps(root, entries.drop_last());
        let last_steps = mount_entry_steps(root, entries.last());
        let whole = mount_entries_steps(root, entries);
        assert forall|k: int|
            0 <= k < whole.len() implies (#[trigger] whole[k] matches
            MountStepView::RemountBindReadOnly { target } ==> exists|j: int|
            0 <= j < entries.len() && !(#[trigger] entries[j]).writable && target
                == joined_under_root(root, entries[j].target)) by {
            if k < prefix.len() {
                assert(whole[k] == prefix[k]);
                match whole[k] {
                    MountStepView::RemountBindReadOnly { target } => {
                        let j = choose|j: int|
                            0 <= j < entries.drop_last().len() && !(
                            #[trigger] entries.drop_last()[j]).writable && target
                                == joined_under_root(root, entries.drop_last()[j].target);
                        assert(entries.drop_last()[j] == entries[j]);
                        assert(!entries[j].writable && target == joined_under_root(
                            root,
                            entries[j].target,
                        ));
                    },
                    _ => {},
                }
            } else {
                assert(whole[k] == last_steps[k - prefix.len()]);
                match whole[k] {
                    MountStepView::RemountBindReadOnly { target } => {
                        assert(!entries.last().writable);
                        assert(target == joined_under_root(root, entries.last().target));
                        assert(entries[entries.len() - 1] == entries.last());
                    },
                    _ => {},
                }
            }
        }
        assert forall|j: int| 0 <= j < entries.len() implies whole.contains(
            MountStepView::BindDirectory {
                source: (#[trigger] entries[j]).source,
                target: joined_under_root(root, entries[j].target),
            },
        ) by {
            let step = MountStepView::BindDirectory {
                source: entries[j].source,
                target: joined_under_root(root, entries[j].target),
            };
            if j < entries.len() - 1 {
                assert(entries.drop_last()[j] == entries[j]);
                let k = choose|k: int| 0 <= k < prefix.len() && prefix[k] == step;
                assert(whole[k] == step);
            } else {
                assert(last_steps[1] == step);
                assert(whole[(prefix.len() + 1) as int] == step);
            }
        }
    }
}

/// Only the very last step of a filesystem plan remounts the skeleton
/// read-only, so every mount is in place — and every read-only entry
/// already sealed — before the root itself is sealed.
pub proof fn lemma_plan_seals_root(
    config: crate::configuration::SandboxConfigurationView,
    root: Seq<char>,
)
    ensures
        spec_filesystem_plan(config, root).len() >= 1,
        spec_filesystem_plan(config, root).last() == (MountStepView::RemountReadOnly {
            target: root,
        }),
        forall|k: int|
            0 <= k < spec_filesystem_plan(config, root).len() - 1 ==> !(
            #[trigger] spec_filesystem_plan(config, root)[k] is RemountReadOnly),
{
    let plan = spec_filesystem_plan(config, root);
    let before = plan.drop_last();
    lemma_entries_no_root_remount(root, config.mount_paths);
    assert forall|k: int| 0 <= k < plan.len() - 1 implies !(#[trigger] plan[k]
        is RemountReadOnly) by {
        let entries = mount_entries_steps(root, config.mount_paths);
        let prefix_len = plan.len() - 1 - entries.len();
        if k >= prefix_len {
            assert(plan[k] == entries[k - prefix_len]);
        }
    }
}

/// No step for the configured directories is a remount of the skeleton:
/// read-only entries use the bind-remount form instead.
proof fn lemma_entries_no_root_remount(root: Seq<char>, entries: Seq<DirectoryMountView>)
    ensures
        forall|k: int|
            0 <= k < mount_entries_steps(root, entries).len() ==> !(
            #[trigger] mount_entries_steps(root, entries)[k] is RemountReadOnly),
    decreases entries.len(),
{
    if entries.len() > 0 {
        lemma_entries_no_root_remount(root, entries.drop_last());
        let prefix = mount_entries_steps(root, entries.drop_last());
        let whole = mount_entries_steps(root, entries);
        assert forall|k: int| 0 <= k < whole.len() implies !(#[trigger] whole[k]
            is RemountReadOnly) by {
            if k < prefix.len() {
                assert(whole[k] == prefix[k]);
            } else {
                assert(whole[k] == mount_entry_steps(root, entries.last())[k - prefix.len()]);
            }
        }
    }
}

/// Compute the filesystem plan for `config` under the sandbox root
/// `root`. Succeeds exactly when every configured mount target is an
/// absolute path, and then returns the steps of
/// [`spec_filesystem_plan`], in order; a relative target is reported with
/// the offending path. A target of "/" would shadow the whole skeleton
/// and is excluded by contract.
pub fn filesystem_plan(config: &SandboxConfiguration, root: &str) -> (r: Result<
    Vec<MountStep>,
    SandboxError,
>)
    requires
        forall|k: int|
            0 <= k < config@.mount_paths.len() ==> (#[trigger] config@.mount_paths[k]).target
                != "/"@,
    ensures
        r is Ok <==> (forall|k: int|
            0 <= k < config@.mount_paths.len() ==> is_absolute_path(
                (#[trigger] config@.mount_paths[k]).target,
            )),
        r is Ok ==> step_views(r.unwrap()@) == spec_filesystem_plan(config@, root@),
{
    let mut steps: Vec<MountStep> = Vec::new();

    steps.push(MountStep::MountTmpfs {
        target: String::from_str(root),
        options: String::from_str("size=256M,mode=0755"),
    });
    steps.push(MountStep::CreateDir { path: String::from_str(root).concat("/dev") });
    let ghost skeleton = seq![
        MountStepView::MountTmpfs { target: root@, options: "size=256M,mode=0755"@ },
        MountStepView::CreateDir { path: root@ + "/dev"@ },
    ];
    proof {
        assert(step_views(steps@) =~= skeleton);
    }

    push_device_steps(&mut steps, root, "null");
    push_device_steps(&mut steps, root, "zero");
    push_device_steps(&mut steps, root, "random");
    push_device_steps(&mut steps, root, "urandom");
    let ghost with_devices = step_views(steps@);

    if config.mount_tmpfs {
        let ghost before = step_views(steps@);
        steps.push(MountStep::CreateDir { path: String::from_str(root).concat("/tmp") });
        steps.push(MountStep::MountTmpfs {
            target: String::from_str(root).concat("/tmp"),
            options: String::from_str("size=256M"),
        });
        steps.push(MountStep::CreateDir { path: String::from_str(root).concat("/dev/shm") });
        steps.push(MountStep::MountTmpfs {
            target: String::from_str(root).concat("/dev/shm"),
            options: String::from_str("size=256M"),
        });
        proof {
            assert(step_views(steps@) =~= before + seq![
                MountStepView::CreateDir { path: root@ + "/tmp"@ },
                MountStepView::MountTmpfs { target: root@ + "/tmp"@, options: "size=256M"@ },
                MountStepView::CreateDir { path: root@ + "/dev/shm"@ },
                MountStepView::MountTmpfs {
                    target: root@ + "/dev/shm"@,
                    options: "size=256M"@,
                },
            ]);
        }
    } else {
        proof {
            assert(step_views(steps@) =~= with_devices + Seq::<MountStepView>::empty());
        }
    }
    let ghost with_tmpfs = step_views(steps@);

    if config.mount_proc {
        let ghost before = step_views(steps@);
        steps.push(MountStep::CreateDir { path: String::from_str(root).concat("/proc") });
        steps.push(MountStep::MountProcFs { target: String::from_str(root).concat("/proc") });
        proof {
            assert(step_views(steps@) =~= before + seq![
                MountStepView::CreateDir { path: root@ + "/proc"@ },
                MountStepView::MountProcFs { target: root@ + "/proc"@ },
            ]);
        }
    } else {
        proof {
            assert(step_views(steps@) =~= with_tmpfs + Seq::<MountStepView>::empty());
        }
    }

    let ghost prefix = step_views(steps@);
    proof {
        assert(prefix == skeleton + device_steps(root@, "null"@) + device_steps(root@, "zero"@)
            + device_steps(root@, "random"@) + device_steps(root@, "urandom"@) + (
        if config@.mount_tmpfs {
            seq![
                MountStepView::CreateDir { path: root@ + "/tmp"@ },
                MountStepView::MountTmpfs { target: root@ + "/tmp"@, options: "size=256M"@ },
                MountStepView::CreateDir { path: root@ + "/dev/shm"@ },
                MountStepView::MountTmpfs {
                    target: root@ + "/dev/shm"@,
                    options: "size=256M"@,
                },
            ]
        } else {
            Seq::<MountStepView>::empty()
        }) + (if config@.mount_proc {
            seq![
                MountStepView::CreateDir { path: root@ + "/proc"@ },
                MountStepView::MountProcFs { target: root@ + "/proc"@ },
            ]
        } else {
            Seq::<MountStepView>::empty()
        }));
    }

    let mut i: usize = 0;
    while i < config.mount_paths.len()
        invariant
            i <= config.mount_paths.len(),
            forall|k: int|
                0 <= k < config@.mount_paths.len() ==> (#[trigger] config@.mount_paths[k]).target
                    != "/"@,
            forall|k: int|
                0 <= k < i ==> is_absolute_path((#[trigger] config@.mount_paths[k]).target),
            step_views(steps@) == prefix + mount_entries_steps(
                root@,
                config@.mount_paths.take(i as int),
            ),
        decreases config.mount_paths.len() - i,
    {
        let entry = &config.mount_paths[i];
        let target_len = entry.target.unicode_len();
        if target_len == 0 || entry.target.get_char(0) != '/' {
            proof {
                assert(!is_absolute_path(config@.mount_paths[i as int].target));
            }
            return Err(SandboxError::InvalidMount(entry.target.clone()));
        }
        push_mount_entry_steps(&mut steps, root, &entry.source, &entry.target, entry.writable);
        proof {
            assert(config@.mount_paths.take(i + 1).drop_last() =~= config@.mount_paths.take(
                i as int,
            ));
            assert(config@.mount_paths.take(i + 1).last() == config@.mount_paths[i as int]);
            assert(step_views(steps@) =~= prefix + mount_entries_steps(
                root@,
                config@.mount_paths.take(i + 1),
            ));
        }
        i = i + 1;
    }

    steps.push(MountStep::RemountReadOnly { target: String::from_str(root) });
    proof {
        assert(config@.mount_paths.take(config@.mount_paths.len() as int) =~= config@.mount_paths);
        assert(step_views(steps@) =~= spec_filesystem_plan(config@, root@));
    }
    Ok(steps)
}

} // verus!
