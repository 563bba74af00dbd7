//! The resource limits installed for the sandboxed process: which limits
//! are set, with which values, in which order, and how a requested value is
//! capped by the inherited hard limit.

use vstd::prelude::*;

use crate::configuration::SandboxConfiguration;

verus! {

/// A value meaning "no limit" for a resource, as the kernel encodes it.
pub const RLIM_UNLIMITED: u64 = u64::MAX;

/// A per-process resource the sandbox limits.
#[derive(Debug, Clone, Copy, PartialEq, Eq, Structural)]
pub enum RlimitResource {
    /// The address space, in bytes; enforced synchronously at allocation
    /// time, which is why the memory limit uses it rather than resident
    /// size.
    AddressSpace,

    /// The stack, in bytes.
    Stack,

    /// CPU time, in seconds.
    CpuTime,

    /// The core dump size, in bytes.
    CoreSize,
}

/// One limit to install: the resource and the value for it.
#[derive(Debug, Clone, Copy, PartialEq, Eq, Structural)]
pub struct RlimitSetting {
    /// The resource being limited.
    pub resource: RlimitResource,

    /// The limit value; [`RLIM_UNLIMITED`] means no limit.
    pub limit: u64,
}

/// The limits installed for a configuration, in order: the address-space
/// limit when a memory limit is configured (and the platform supports it),
/// then the stack limit — explicitly unlimited when none is configured, so
/// that an ambient default cannot fault recursion-heavy programs — then the
/// CPU limit when a time limit is configured, and always a zero core-dump
/// limit so no core files pollute the mounted directories.
pub open spec fn spec_resource_limit_plan(
    config: crate::configuration::SandboxConfigurationView,
    address_space_supported: bool,
) -> Seq<RlimitSetting> {
    (match config.memory_limit {
        Some(m) if address_space_supported => seq![
            RlimitSetting { resource: RlimitResource::AddressSpace, limit: m },
        ],
        _ => Seq::empty(),
    }) + seq![
        RlimitSetting {
            resource: RlimitResource::Stack,
            limit: match config.stack_limit {
                Some(s) => s,
                None => RLIM_UNLIMITED,
            },
        },
    ] + (match config.time_limit {
        Some(t) => seq![RlimitSetting { resource: RlimitResource::CpuTime, limit: t }],
        None => Seq::empty(),
    }) + seq![RlimitSetting { resource: RlimitResource::CoreSize, limit: 0 }]
}

/// The limits to install for `config`, in installation order.
/// `address_space_supported` says whether this platform enforces the
/// address-space limit reliably; the degraded backend passes false and
/// relies on its memory watchdog instead.
pub fn resource_limit_plan(
    config: &SandboxConfiguration,
    address_space_supported: bool,
) -> (r: Vec<RlimitSetting>)
    ensures
        r@ == spec_resource_limit_plan(config@, address_space_supported),
{
    let mut r: Vec<RlimitSetting> = Vec::new();
    if address_space_supported {
        if let Some(m) = config.memory_limit {
            r.push(RlimitSetting { resource: RlimitResource::AddressSpace, limit: m });
        }
    }
    let stack = match config.stack_limit {
        Some(s) => s,
        None => RLIM_UNLIMITED,
    };
    r.push(RlimitSetting { resource: RlimitResource::Stack, limit: stack });
    if let Some(t) = config.time_limit {
        r.push(RlimitSetting { resource: RlimitResource::CpuTime, limit: t });
    }
    r.push(RlimitSetting { resource: RlimitResource::CoreSize, limit: 0 });
    proof {
        assert(r@ =~= spec_resource_limit_plan(config@, address_space_supported));
    }
    r
}

/// The value actually installed when `requested` is asked for under the
/// inherited hard limit `hard`.
pub open spec fn spec_clamped_limit(requested: u64, hard: u64) -> u64 {
    if requested < hard {
        requested
    } else {
        hard
    }
}

/// Cap a requested limit at the inherited hard limit: raising a limit
/// above it would need privilege, and silently capping is preferred over
/// failing. Both the soft and the hard limit are then set to this value.
pub fn clamp_to_hard_limit(requested: u64, hard: u64) -> (r: u64)
    ensures
        r == spec_clamped_limit(requested, hard),
        r <= requested,
        r <= hard,
{
    if requested < hard {
        requested
    } else {
        hard
    }
}

/// Raising a requested limit never lowers the installed one, and lowering
/// it never raises the installed one, whatever the hard limit: the
/// installed limit is monotone in the request.
pub proof fn lemma_clamped_limit_monotone(requested1: u64, requested2: u64, hard: u64)
    requires
        requested1 <= requested2,
    ensures
        spec_clamped_limit(requested1, hard) <= spec_clamped_limit(requested2, hard),
{
}

} // verus!
