//! Configuration of the system-call filter installed in the sandbox: a
//! default action plus per-syscall overrides, and the numeric encoding the
//! kernel seccomp interface expects for each action.

use vstd::prelude::*;

verus! {

/// What the kernel should do when the sandboxed process makes a system call.
#[derive(Debug, Clone, Copy, PartialEq, Eq, Structural)]
pub enum SyscallFilterAction {
    /// Let the system call proceed.
    Allow,

    /// Kill the process.
    Kill,

    /// Fail the system call with this errno.
    Errno(u32),
}

impl SyscallFilterAction {
    /// The numeric action value the kernel seccomp interface expects:
    /// allow is 0x7fff0000, kill is 0, and errno actions carry the errno
    /// in the low 16 bits of 0x00050000.
    pub fn to_seccomp_param(self) -> (r: u32)
        ensures
            r == (match self {
                SyscallFilterAction::Allow => 0x7fff0000u32,
                SyscallFilterAction::Kill => 0u32,
                SyscallFilterAction::Errno(errno) => 0x00050000u32 | (errno & 0x0000ffffu32),
            }),
    {
        match self {
            SyscallFilterAction::Allow => 0x7fff0000,
            SyscallFilterAction::Kill => 0,
            SyscallFilterAction::Errno(errno) => 0x00050000 | (errno & 0x0000ffff),
        }
    }
}

/// A filter rule: a system call name and the action taken for it.
pub type FilterRule = (String, SyscallFilterAction);

/// The view of a filter rule: the syscall name as a character sequence.
pub type FilterRuleView = (Seq<char>, SyscallFilterAction);

/// The views of a sequence of filter rules.
pub open spec fn rule_views(rules: Seq<FilterRule>) -> Seq<FilterRuleView> {
    rules.map_values(|r: FilterRule| (r.0@, r.1))
}

/// The mathematical content of a [`SyscallFilter`].
#[verifier::ext_equal]
pub struct SyscallFilterView {
    /// Action taken for system calls no rule names.
    pub default_action: SyscallFilterAction,

    /// Filter rules, in the order they are applied.
    pub rules: Seq<FilterRuleView>,
}

/// System-call filter configuration.
#[derive(Debug)]
pub struct SyscallFilter {
    /// Action taken for system calls no rule names.
    pub default_action: SyscallFilterAction,

    /// Filter rules, applied in order, each a (syscall name, action) pair.
    pub rules: Vec<FilterRule>,
}

impl View for SyscallFilter {
    type V = SyscallFilterView;

    open spec fn view(&self) -> SyscallFilterView {
        SyscallFilterView { default_action: self.default_action, rules: rule_views(self.rules@) }
    }
}

impl Clone for SyscallFilter {
    /// Cloning keeps the default action and the rules.
    fn clone(&self) -> (r: Self)
        ensures
            r@ == self@,
    {
        let mut rules: Vec<FilterRule> = Vec::new();
        let mut i: usize = 0;
        while i < self.rules.len()
            invariant
                i <= self.rules.len(),
                rules@.len() == i,
                forall|k: int|
                    0 <= k < i ==> (#[trigger] rules@[k]).0@ == self.rules@[k].0@
                        && rules@[k].1 == self.rules@[k].1,
            decreases self.rules.len() - i,
        {
            let rule = (self.rules[i].0.clone(), self.rules[i].1);
            rules.push(rule);
            i = i + 1;
        }
        let r = SyscallFilter { default_action: self.default_action, rules };
        proof {
            assert(rule_views(r.rules@) =~= rule_views(self.rules@));
            assert(r@ =~= self@);
        }
        r
    }
}

impl Default for SyscallFilter {
    /// The default filter kills the process on every system call and has
    /// no rules.
    fn default() -> (r: Self)
        ensures
            r.default_action == SyscallFilterAction::Kill,
            r.rules@ == Seq::<FilterRule>::empty(),
    {
        SyscallFilter { default_action: SyscallFilterAction::Kill, rules: Vec::new() }
    }
}

/// The rules the preset filter of [`SyscallFilter::build`] installs: kill
/// rules for the process-creation family when multiprocess is disallowed,
/// then kill rules for the chmod family when chmod is disallowed.
pub open spec fn preset_rules(multiprocess: bool, chmod: bool) -> Seq<FilterRuleView> {
    (if multiprocess {
        Seq::<FilterRuleView>::empty()
    } else {
        seq![
            ("fork"@, SyscallFilterAction::Kill),
            ("vfork"@, SyscallFilterAction::Kill),
            ("clone"@, SyscallFilterAction::Kill),
        ]
    }) + (if chmod {
        Seq::<FilterRuleView>::empty()
    } else {
        seq![
            ("chmod"@, SyscallFilterAction::Kill),
            ("fchmod"@, SyscallFilterAction::Kill),
            ("fchmodat"@, SyscallFilterAction::Kill),
        ]
    })
}

impl SyscallFilter {
    /// Build a filter that blocks the most dangerous system calls: the
    /// default action allows everything, and kill rules are added for the
    /// process-creation family unless `multiprocess`, and for the chmod
    /// family unless `chmod`.
    pub fn build(multiprocess: bool, chmod: bool) -> (r: Self)
        ensures
            r.default_action == SyscallFilterAction::Allow,
            rule_views(r.rules@) == preset_rules(multiprocess, chmod),
    {
        let mut filter = SyscallFilter::default();
        filter.default_action(SyscallFilterAction::Allow);
        if !multiprocess {
            filter.add_rule(String::from_str("fork"), SyscallFilterAction::Kill);
            filter.add_rule(String::from_str("vfork"), SyscallFilterAction::Kill);
            filter.add_rule(String::from_str("clone"), SyscallFilterAction::Kill);
        }
        if !chmod {
            filter.add_rule(String::from_str("chmod"), SyscallFilterAction::Kill);
            filter.add_rule(String::from_str("fchmod"), SyscallFilterAction::Kill);
            filter.add_rule(String::from_str("fchmodat"), SyscallFilterAction::Kill);
        }
        proof {
            assert(rule_views(filter.rules@) =~= preset_rules(multiprocess, chmod));
        }
        filter
    }

    /// Set the default filter action.
    pub fn default_action(&mut self, action: SyscallFilterAction)
        ensures
            final(self).default_action == action,
            final(self).rules@ == old(self).rules@,
    {
        self.default_action = action;
    }

    /// Add a rule to the filter.
    pub fn add_rule(&mut self, syscall: String, action: SyscallFilterAction)
        ensures
            final(self).default_action == old(self).default_action,
            final(self).rules@ == old(self).rules@.push((syscall, action)),
    {
        self.rules.push((syscall, action));
    }
}

} // verus!
