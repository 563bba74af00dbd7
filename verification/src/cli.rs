//! Parsing of the command-line directive tokens: mount directives,
//! environment directives, and the megabyte-to-byte conversion of the
//! memory option. Only the token grammar lives here; reading the actual
//! command line stays outside the library.

use vstd::prelude::*;

use crate::configuration::{DirectoryMount, DirectoryMountView};
use crate::SandboxError;

verus! {

/// The position of the first occurrence of `sep` in `s`, or -1 when `s`
/// does not contain it.
pub open spec fn find_char(s: Seq<char>, sep: char) -> int
    decreases s.len(),
{
    if s.len() == 0 {
        -1
    } else if s[0] == sep {
        0
    } else if find_char(s.drop_first(), sep) < 0 {
        -1
    } else {
        find_char(s.drop_first(), sep) + 1
    }
}

/// What `find_char` finds: a negative answer means no occurrence, and a
/// nonnegative answer is the first occurrence.
pub proof fn lemma_find_char(s: Seq<char>, sep: char)
    ensures
        find_char(s, sep) < 0 ==> forall|k: int| 0 <= k < s.len() ==> s[k] != sep,
        find_char(s, sep) >= 0 ==> 0 <= find_char(s, sep) < s.len() && s[find_char(s, sep)] == sep
            && (forall|k: int| 0 <= k < find_char(s, sep) ==> s[k] != sep),
    decreases s.len(),
{
    if s.len() > 0 && s[0] != sep {
        let d = s.drop_first();
        lemma_find_char(d, sep);
        let fd = find_char(d, sep);
        if fd < 0 {
            assert forall|k: int| 0 <= k < s.len() implies s[k] != sep by {
                if k > 0 {
                    assert(d[k - 1] == s[k]);
                }
            }
        } else {
            assert(s[fd + 1] == d[fd]);
            assert forall|k: int| 0 <= k < fd + 1 implies s[k] != sep by {
                if k > 0 {
                    assert(d[k - 1] == s[k]);
                    assert(d[k - 1] != sep);
                }
            }
        }
    }
}

/// The pieces of `s` between the occurrences of `sep`: one piece more
/// than there are separators, each possibly empty, in order.
pub open spec fn spec_split(s: Seq<char>, sep: char) -> Seq<Seq<char>>
    decreases s.len(),
    via spec_split_decreases
{
    if find_char(s, sep) < 0 {
        seq![s]
    } else {
        seq![s.take(find_char(s, sep))] + spec_split(s.skip(find_char(s, sep) + 1), sep)
    }
}

#[via_fn]
proof fn spec_split_decreases(s: Seq<char>, sep: char) {
    lemma_find_char(s, sep);
}

/// Find the first occurrence of `sep` in `s`.
fn find_char_in(s: &str, sep: char) -> (r: Option<usize>)
    ensures
        r is Some <==> find_char(s@, sep) >= 0,
        r is Some ==> r.unwrap() == find_char(s@, sep),
{
    proof {
        lemma_find_char(s@, sep);
    }
    let len = s.unicode_len();
    let mut i: usize = 0;
    while i < len
        invariant
            len == s@.len(),
            0 <= i <= len,
            forall|k: int| 0 <= k < i ==> s@[k] != sep,
        decreases len - i,
    {
        if s.get_char(i) == sep {
            proof {
                lemma_find_char(s@, sep);
                assert(find_char(s@, sep) == i) by {
                    let f = find_char(s@, sep);
                    if f < 0 {
                        assert(s@[i as int] != sep);
                    } else if f < i {
                        assert(s@[f] != sep);
                    } else if f > i {
                        assert(s@[i as int] != sep);
                    }
                }
            }
            return Some(i);
        }
        i = i + 1;
    }
    proof {
        lemma_find_char(s@, sep);
        if find_char(s@, sep) >= 0 {
            assert(s@[find_char(s@, sep)] != sep);
        }
    }
    None
}

/// Split `s` at every occurrence of `sep`.
pub fn split_on(s: &str, sep: char) -> (r: Vec<String>)
    ensures
        crate::configuration::string_views(r@) == spec_split(s@, sep),
    decreases s@.len(),
{
    proof {
        lemma_find_char(s@, sep);
    }
    match find_char_in(s, sep) {
        None => {
            let mut r: Vec<String> = Vec::new();
            r.push(s.to_owned());
            proof {
                assert(crate::configuration::string_views(r@) =~= spec_split(s@, sep));
            }
            r
        },
        Some(i) => {
            let len = s.unicode_len();
            let head = s.substring_char(0, i).to_owned();
            let tail = s.substring_char(i + 1, len);
            proof {
                assert(tail@ =~= s@.skip(i + 1));
                assert(head@ =~= s@.take(i as int));
            }
            let rest = split_on(tail, sep);
            let mut r: Vec<String> = Vec::new();
            r.push(head);
            let mut j: usize = 0;
            while j < rest.len()
                invariant
                    j <= rest.len(),
                    r@.len() == j + 1,
                    r@[0]@ == s@.take(find_char(s@, sep)),
                    forall|k: int| 1 <= k <= j ==> (#[trigger] r@[k])@ == rest@[k - 1]@,
                decreases rest.len() - j,
            {
                r.push(rest[j].clone());
                j = j + 1;
            }
            proof {
                assert(crate::configuration::string_views(r@) =~= spec_split(s@, sep));
            }
            r
        },
    }
}

/// Whether two strings hold the same characters.
pub fn str_eq(a: &str, b: &str) -> (r: bool)
    ensures
        r == (a@ == b@),
{
    let alen = a.unicode_len();
    let blen = b.unicode_len();
    if alen != blen {
        return false;
    }
    let mut i: usize = 0;
    while i < alen
        invariant
            alen == a@.len(),
            blen == b@.len(),
            alen == blen,
            0 <= i <= alen,
            forall|k: int| 0 <= k < i ==> a@[k] == b@[k],
        decreases alen - i,
    {
        if a.get_char(i) != b.get_char(i) {
            return false;
        }
        i = i + 1;
    }
    proof {
        assert(a@ =~= b@);
    }
    true
}

/// The mount entry a mount directive describes, when it is well-formed:
/// one piece mounts the path read-only at the same place; two pieces are
/// either a path made writable with "rw" or a host path and its
/// read-only in-sandbox place; three pieces spell the mode out as "rw"
/// or "ro"; anything else is malformed.
pub open spec fn spec_parse_mount_directive(s: Seq<char>) -> Option<DirectoryMountView> {
    let parts = spec_split(s, ',');
    if parts.len() == 1 {
        Some(DirectoryMountView { target: parts[0], source: parts[0], writable: false })
    } else if parts.len() == 2 {
        if parts[1] == "rw"@ {
            Some(DirectoryMountView { target: parts[0], source: parts[0], writable: true })
        } else {
            Some(DirectoryMountView { target: parts[1], source: parts[0], writable: false })
        }
    } else if parts.len() == 3 {
        if parts[2] == "rw"@ {
            Some(DirectoryMountView { target: parts[1], source: parts[0], writable: true })
        } else if parts[2] == "ro"@ {
            Some(DirectoryMountView { target: parts[1], source: parts[0], writable: false })
        } else {
            None
        }
    } else {
        None
    }
}

/// Parse a mount directive. Succeeds exactly on the well-formed shapes
/// of [`spec_parse_mount_directive`]; a malformed directive is reported
/// with the whole offending token.
pub fn parse_mount_directive(s: &str) -> (r: Result<DirectoryMount, SandboxError>)
    ensures
        r is Ok <==> spec_parse_mount_directive(s@) is Some,
        r is Ok ==> r.unwrap()@ == spec_parse_mount_directive(s@).unwrap(),
        r is Err ==> (r.unwrap_err() matches SandboxError::InvalidMount(t) && t@ == s@),
{
    let parts = split_on(s, ',');
    if parts.len() == 1 {
        let source = parts[0].clone();
        let target = parts[0].clone();
        Ok(DirectoryMount { target, source, writable: false })
    } else if parts.len() == 2 {
        if str_eq(parts[1].as_str(), "rw") {
            let source = parts[0].clone();
            let target = parts[0].clone();
            Ok(DirectoryMount { target, source, writable: true })
        } else {
            let source = parts[0].clone();
            let target = parts[1].clone();
            Ok(DirectoryMount { target, source, writable: false })
        }
    } else if parts.len() == 3 {
        if str_eq(parts[2].as_str(), "rw") {
            let source = parts[0].clone();
            let target = parts[1].clone();
            Ok(DirectoryMount { target, source, writable: true })
        } else if str_eq(parts[2].as_str(), "ro") {
            let source = parts[0].clone();
            let target = parts[1].clone();
            Ok(DirectoryMount { target, source, writable: false })
        } else {
            Err(SandboxError::InvalidMount(s.to_owned()))
        }
    } else {
        Err(SandboxError::InvalidMount(s.to_owned()))
    }
}

/// An environment directive from the command line.
#[derive(Debug)]
pub enum EnvDirective {
    /// Assign the given value to the variable.
    Assign(String, String),

    /// Inherit the variable from the parent environment.
    Inherit(String),
}

/// Parse an environment directive: a bare name inherits the variable
/// from the parent environment, and everything after the first "=" —
/// even further "=" signs — is the value to set.
pub fn parse_env_directive(s: &str) -> (r: EnvDirective)
    ensures
        find_char(s@, '=') < 0 ==> (r matches EnvDirective::Inherit(name) && name@ == s@),
        find_char(s@, '=') >= 0 ==> (r matches EnvDirective::Assign(name, value) && name@
            == s@.take(find_char(s@, '=')) && value@ == s@.skip(find_char(s@, '=') + 1)),
{
    proof {
        lemma_find_char(s@, '=');
    }
    match find_char_in(s, '=') {
        None => EnvDirective::Inherit(s.to_owned()),
        Some(i) => {
            let len = s.unicode_len();
            let name = s.substring_char(0, i).to_owned();
            let value = s.substring_char(i + 1, len).to_owned();
            proof {
                assert(name@ =~= s@.take(i as int));
                assert(value@ =~= s@.skip(i + 1));
            }
            EnvDirective::Assign(name, value)
        },
    }
}

/// Convert the memory option, given in megabytes, to bytes: succeeds
/// exactly when the product fits the machine representation.
pub fn megabytes_to_bytes(megabytes: u64) -> (r: Option<u64>)
    ensures
        r is Some <==> megabytes * 1000000 <= u64::MAX,
        r is Some ==> r.unwrap() == megabytes * 1000000,
{
    if megabytes <= u64::MAX / 1000000 {
        proof {
            assert(megabytes * 1000000 <= u64::MAX) by (nonlinear_arith)
                requires megabytes <= u64::MAX / 1000000;
        }
        Some(megabytes * 1000000)
    } else {
        proof {
            assert(megabytes * 1000000 > u64::MAX) by (nonlinear_arith)
                requires megabytes > u64::MAX / 1000000;
        }
        None
    }
}

} // verus!
