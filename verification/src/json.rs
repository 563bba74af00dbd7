//! The JSON form of the result record: rendering a
//! [`SandboxExecutionResult`] into the fixed schema the sandbox reports,
//! and parsing such a rendering back. Parsing inverts rendering: the
//! round-trip lemma at the end of this module proves that every rendered
//! record parses back to itself.

use vstd::prelude::*;

use crate::decimal::{
    all_digits, dec_digits, dec_digits_padded, dec_value, digit_run_end, is_digit,
    lemma_dec_digits_padded_value, lemma_dec_digits_value, lemma_dec_value_nonneg,
    lemma_dec_value_push, lemma_dec_value_take_le, lemma_digit_run_at,
    lemma_digit_run_end_props, pow10, u64_to_padded_string, u64_to_string,
};
use crate::result::{ExitStatus, ResourceUsage, SandboxExecutionResult};

verus! {

/// A possibly signed integer in JSON: a minus sign for negative values,
/// then the decimal digits of the magnitude.
pub open spec fn int_json(n: int) -> Seq<char> {
    if n < 0 {
        seq!['-'] + dec_digits((-n) as nat)
    } else {
        dec_digits(n as nat)
    }
}

/// A duration held in microseconds, rendered as decimal seconds: the
/// whole seconds, a point, and exactly six fractional digits.
pub open spec fn seconds_json(us: int) -> Seq<char> {
    dec_digits((us / 1000000) as nat) + "."@ + dec_digits_padded((us % 1000000) as nat, 6)
}

/// The JSON form of an exit status: an object with the variant name for
/// exit codes and signals, and a bare string for a sandbox kill.
pub open spec fn status_json(status: ExitStatus) -> Seq<char> {
    match status {
        ExitStatus::ExitCode(n) => "{\"ExitCode\":"@ + int_json(n as int) + "}"@,
        ExitStatus::Signal(n) => "{\"Signal\":"@ + int_json(n as int) + "}"@,
        ExitStatus::Killed => "\"Killed\""@,
    }
}

/// The JSON form of the resource-usage record, as it appears after the
/// status: the object key, then memory in bytes and the three times in
/// seconds, closing both the usage object and the whole record.
pub open spec fn usage_json(usage: ResourceUsage) -> Seq<char> {
    ",\"resource_usage\":{\"memory_usage\":"@ + dec_digits(usage.memory_usage as nat)
        + ",\"user_cpu_time\":"@ + seconds_json(usage.user_cpu_time_us as int)
        + ",\"system_cpu_time\":"@ + seconds_json(usage.system_cpu_time_us as int)
        + ",\"wall_time_usage\":"@ + seconds_json(usage.wall_time_usage_us as int) + "}}"@
}

/// The JSON form of the whole result record.
pub open spec fn result_json(result: SandboxExecutionResult) -> Seq<char> {
    "{\"status\":"@ + status_json(result.status) + usage_json(result.resource_usage)
}

/// Render a signed 32-bit value in decimal.
fn i32_to_json(n: i32) -> (s: String)
    ensures
        s@ == int_json(n as int),
{
    crate::decimal::i64_to_string(n as i64)
}

/// Render a duration held in microseconds as decimal seconds.
fn seconds_to_json(us: u64) -> (s: String)
    ensures
        s@ == seconds_json(us as int),
{
    let mut s = u64_to_string(us / 1000000);
    s.append(".");
    s.append(u64_to_padded_string(us % 1000000, 6).as_str());
    proof {
        assert(s@ =~= seconds_json(us as int));
    }
    s
}

/// Render the result record in its JSON form.
pub fn encode_result(result: &SandboxExecutionResult) -> (s: String)
    ensures
        s@ == result_json(*result),
{
    let mut s = String::from_str("{\"status\":");
    match result.status {
        ExitStatus::ExitCode(n) => {
            s.append("{\"ExitCode\":");
            s.append(i32_to_json(n).as_str());
            s.append("}");
        },
        ExitStatus::Signal(n) => {
            s.append("{\"Signal\":");
            s.append(i32_to_json(n).as_str());
            s.append("}");
        },
        ExitStatus::Killed => {
            s.append("\"Killed\"");
        },
    }
    proof {
        assert(s@ =~= "{\"status\":"@ + status_json(result.status));
    }
    s.append(",\"resource_usage\":{\"memory_usage\":");
    s.append(u64_to_string(result.resource_usage.memory_usage).as_str());
    s.append(",\"user_cpu_time\":");
    s.append(seconds_to_json(result.resource_usage.user_cpu_time_us).as_str());
    s.append(",\"system_cpu_time\":");
    s.append(seconds_to_json(result.resource_usage.system_cpu_time_us).as_str());
    s.append(",\"wall_time_usage\":");
    s.append(seconds_to_json(result.resource_usage.wall_time_usage_us).as_str());
    s.append("}}");
    proof {
        assert(s@ =~= result_json(*result));
    }
    s
}

/// Whether the literal `lit` sits at position `i` of `s`.
pub open spec fn lit_at(s: Seq<char>, i: int, lit: Seq<char>) -> bool {
    0 <= i && i + lit.len() <= s.len() && s.subrange(i, i + lit.len()) == lit
}

/// What parsing an unsigned number at `i` yields: the digit run at `i`
/// and its value, provided the run is nonempty and the value fits a u64.
pub open spec fn spec_scan_u64(s: Seq<char>, i: int) -> Option<(int, int)> {
    let e = digit_run_end(s, i);
    let v = dec_value(s.subrange(i, e));
    if e > i && v <= u64::MAX {
        Some((e, v))
    } else {
        None
    }
}

/// What parsing a signed 32-bit number at `i` yields: an optional minus
/// sign, then a digit run whose value fits the signed range.
pub open spec fn spec_parse_i32(s: Seq<char>, i: int) -> Option<(int, int)> {
    let neg = 0 <= i < s.len() && s[i] == '-';
    let start = if neg {
        i + 1
    } else {
        i
    };
    match spec_scan_u64(s, start) {
        None => None,
        Some((e, mag)) => if neg {
            if mag <= 0x8000_0000 {
                Some((e, -mag))
            } else {
                None
            }
        } else {
            if mag <= 0x7fff_ffff {
                Some((e, mag))
            } else {
                None
            }
        },
    }
}

/// What parsing decimal seconds at `i` yields: whole seconds, a point,
/// exactly six fractional digits, the total in microseconds fitting a u64.
pub open spec fn spec_parse_seconds(s: Seq<char>, i: int) -> Option<(int, int)> {
    match spec_scan_u64(s, i) {
        None => None,
        Some((e, secs)) => if lit_at(s, e, "."@) && e + 7 <= s.len() && all_digits(
            s.subrange(e + 1, e + 7),
        ) {
            let us = secs * 1000000 + dec_value(s.subrange(e + 1, e + 7));
            if us <= u64::MAX {
                Some((e + 7, us))
            } else {
                None
            }
        } else {
            None
        },
    }
}

/// What parsing an exit status at `i` yields.
pub open spec fn spec_parse_status(s: Seq<char>, i: int) -> Option<(int, ExitStatus)> {
    if lit_at(s, i, "{\"ExitCode\":"@) {
        match spec_parse_i32(s, i + "{\"ExitCode\":"@.len()) {
            None => None,
            Some((j, n)) => if lit_at(s, j, "}"@) {
                Some((j + "}"@.len(), ExitStatus::ExitCode(n as i32)))
            } else {
                None
            },
        }
    } else if lit_at(s, i, "{\"Signal\":"@) {
        match spec_parse_i32(s, i + "{\"Signal\":"@.len()) {
            None => None,
            Some((j, n)) => if lit_at(s, j, "}"@) {
                Some((j + "}"@.len(), ExitStatus::Signal(n as i32)))
            } else {
                None
            },
        }
    } else if lit_at(s, i, "\"Killed\""@) {
        Some((i + "\"Killed\""@.len(), ExitStatus::Killed))
    } else {
        None
    }
}

/// What parsing the resource-usage part at `i` yields; it must close the
/// record, so it succeeds only at the very end of the input.
pub open spec fn spec_parse_usage(s: Seq<char>, i: int) -> Option<ResourceUsage> {
    if !lit_at(s, i, ",\"resource_usage\":{\"memory_usage\":"@) {
        None
    } else {
        match spec_scan_u64(s, i + ",\"resource_usage\":{\"memory_usage\":"@.len()) {
            None => None,
            Some((j, mem)) => if !lit_at(s, j, ",\"user_cpu_time\":"@) {
                None
            } else {
                match spec_parse_seconds(s, j + ",\"user_cpu_time\":"@.len()) {
                    None => None,
                    Some((j, user)) => if !lit_at(s, j, ",\"system_cpu_time\":"@) {
                        None
                    } else {
                        match spec_parse_seconds(s, j + ",\"system_cpu_time\":"@.len()) {
                            None => None,
                            Some((j, system)) => if !lit_at(s, j, ",\"wall_time_usage\":"@) {
                                None
                            } else {
                                match spec_parse_seconds(
                                    s,
                                    j + ",\"wall_time_usage\":"@.len(),
                                ) {
                                    None => None,
                                    Some((j, wall)) => if lit_at(s, j, "}}"@) && j
                                        + "}}"@.len() == s.len() {
                                        Some(ResourceUsage {
                                            memory_usage: mem as u64,
                                            user_cpu_time_us: user as u64,
                                            system_cpu_time_us: system as u64,
                                            wall_time_usage_us: wall as u64,
                                        })
                                    } else {
                                        None
                                    },
                                }
                            },
                        }
                    },
                }
            },
        }
    }
}

/// What parsing a whole rendered result record yields.
pub open spec fn spec_parse_result(s: Seq<char>) -> Option<SandboxExecutionResult> {
    if !lit_at(s, 0, "{\"status\":"@) {
        None
    } else {
        match spec_parse_status(s, "{\"status\":"@.len() as int) {
            None => None,
            Some((i, status)) => match spec_parse_usage(s, i) {
                None => None,
                Some(usage) => Some(
                    SandboxExecutionResult { status, resource_usage: usage },
                ),
            },
        }
    }
}

/// A window inside a known block of `s` equals the matching window of
/// the block.
proof fn lemma_subrange_shift(s: Seq<char>, i: int, t: Seq<char>, a: int, b: int)
    requires
        0 <= i,
        i + t.len() <= s.len(),
        s.subrange(i, i + t.len()) == t,
        0 <= a <= b <= t.len(),
    ensures
        s.subrange(i + a, i + b) == t.subrange(a, b),
{
    assert forall|k: int| 0 <= k < b - a implies #[trigger] s.subrange(i + a, i + b)[k]
        == t.subrange(a, b)[k] by {
        assert(s.subrange(i, i + t.len())[a + k] == s[i + a + k]);
    }
    assert(s.subrange(i + a, i + b) =~= t.subrange(a, b));
}

/// One character inside a known block of `s` equals the matching
/// character of the block.
proof fn lemma_char_shift(s: Seq<char>, i: int, t: Seq<char>, a: int)
    requires
        0 <= i,
        i + t.len() <= s.len(),
        s.subrange(i, i + t.len()) == t,
        0 <= a < t.len(),
    ensures
        s[i + a] == t[a],
{
    assert(s.subrange(i, i + t.len())[a] == s[i + a]);
}

/// When the digits of `n` sit at `i` with no digit following them,
/// scanning at `i` yields exactly `n` and stops right after them.
proof fn lemma_scan_at(s: Seq<char>, i: int, n: int)
    requires
        0 <= n <= u64::MAX,
        0 <= i,
        i + dec_digits(n as nat).len() <= s.len(),
        s.subrange(i, i + dec_digits(n as nat).len()) == dec_digits(n as nat),
        i + dec_digits(n as nat).len() == s.len() || !is_digit(
            s[i + dec_digits(n as nat).len()],
        ),
    ensures
        spec_scan_u64(s, i) == Some((i + dec_digits(n as nat).len() as int, n)),
{
    let d = dec_digits(n as nat);
    lemma_dec_digits_value(n as nat);
    lemma_digit_run_at(s, i, d);
    assert(s.subrange(i, digit_run_end(s, i)) == d);
}

/// When a rendered signed 32-bit number sits at `i` with no digit
/// following it, parsing at `i` yields exactly that number.
proof fn lemma_parse_i32_at(s: Seq<char>, i: int, m: int)
    requires
        -0x8000_0000 <= m <= 0x7fff_ffff,
        0 <= i,
        i + int_json(m).len() <= s.len(),
        s.subrange(i, i + int_json(m).len()) == int_json(m),
        i + int_json(m).len() == s.len() || !is_digit(s[i + int_json(m).len()]),
    ensures
        spec_parse_i32(s, i) == Some((i + int_json(m).len() as int, m)),
{
    assert('-' as u32 == 45);
    let ij = int_json(m);
    if m >= 0 {
        let d = dec_digits(m as nat);
        lemma_dec_digits_value(m as nat);
        lemma_char_shift(s, i, ij, 0);
        assert(is_digit(d[0]));
        assert(s[i] != '-');
        lemma_scan_at(s, i, m);
    } else {
        let mag = -m;
        let d = dec_digits(mag as nat);
        lemma_char_shift(s, i, ij, 0);
        assert(ij[0] == '-');
        assert(s[i] == '-');
        lemma_subrange_shift(s, i, ij, 1, ij.len() as int);
        assert(ij.subrange(1, ij.len() as int) =~= d);
        lemma_scan_at(s, i + 1, mag);
    }
}

/// When rendered seconds sit at `i` with no digit following them,
/// parsing at `i` yields back exactly those microseconds.
proof fn lemma_parse_seconds_at(s: Seq<char>, i: int, us: int)
    requires
        0 <= us <= u64::MAX,
        0 <= i,
        i + seconds_json(us).len() <= s.len(),
        s.subrange(i, i + seconds_json(us).len()) == seconds_json(us),
        i + seconds_json(us).len() == s.len() || !is_digit(s[i + seconds_json(us).len()]),
    ensures
        spec_parse_seconds(s, i) == Some((i + seconds_json(us).len() as int, us)),
{
    reveal_strlit(".");
    assert('.' as u32 == 46);
    let q = us / 1000000;
    let r = us % 1000000;
    let dq = dec_digits(q as nat);
    let fr = dec_digits_padded(r as nat, 6);
    lemma_dec_digits_padded_value(r as nat, 6);
    assert(pow10(6) == 1000000) by {
        reveal_with_fuel(pow10, 8);
    }
    let sj = seconds_json(us);
    assert(sj.len() == dq.len() + 1 + 6);
    lemma_subrange_shift(s, i, sj, 0, dq.len() as int);
    assert(sj.subrange(0, dq.len() as int) =~= dq);
    lemma_char_shift(s, i, sj, dq.len() as int);
    assert(sj[dq.len() as int] == '.');
    assert(s[i + dq.len()] == '.');
    assert(!is_digit('.'));
    lemma_scan_at(s, i, q);
    let e = i + dq.len();
    assert(lit_at(s, e, "."@)) by {
        assert(s.subrange(e, e + 1) =~= "."@) by {
            assert(s.subrange(e, e + 1)[0] == s[e]);
        }
    }
    lemma_subrange_shift(s, i, sj, (dq.len() + 1) as int, sj.len() as int);
    assert(sj.subrange((dq.len() + 1) as int, sj.len() as int) =~= fr);
    assert(s.subrange(e + 1, e + 7) == fr);
    assert(dec_value(s.subrange(e + 1, e + 7)) == r);
    assert(all_digits(s.subrange(e + 1, e + 7)));
    assert(q * 1000000 + r == us);
    assert(spec_parse_seconds(s, i) == Some((e + 7, us)));
    assert(e + 7 == i + sj.len());
}

/// When a rendered exit status sits at `i`, parsing at `i` yields
/// exactly that status.
proof fn lemma_parse_status_at(s: Seq<char>, i: int, st: ExitStatus)
    requires
        0 <= i,
        i + status_json(st).len() <= s.len(),
        s.subrange(i, i + status_json(st).len()) == status_json(st),
    ensures
        spec_parse_status(s, i) == Some((i + status_json(st).len() as int, st)),
{
    reveal_strlit("{\"ExitCode\":");
    reveal_strlit("{\"Signal\":");
    reveal_strlit("\"Killed\"");
    reveal_strlit("}");
    assert('}' as u32 == 125);
    let sj = status_json(st);
    match st {
        ExitStatus::ExitCode(n) => {
            let pre = "{\"ExitCode\":"@;
            let ij = int_json(n as int);
            lemma_subrange_shift(s, i, sj, 0, pre.len() as int);
            assert(sj.subrange(0, pre.len() as int) =~= pre);
            assert(lit_at(s, i, pre));
            let p = i + pre.len();
            lemma_subrange_shift(s, i, sj, pre.len() as int, (pre.len() + ij.len()) as int);
            assert(sj.subrange(pre.len() as int, (pre.len() + ij.len()) as int) =~= ij);
            lemma_char_shift(s, i, sj, (pre.len() + ij.len()) as int);
            assert(sj[(pre.len() + ij.len()) as int] == '}');
            lemma_parse_i32_at(s, p, n as int);
            let j = p + ij.len();
            assert(lit_at(s, j, "}"@)) by {
                assert(s.subrange(j, j + 1) =~= "}"@) by {
                    assert(s.subrange(j, j + 1)[0] == s[j]);
                }
            }
            assert(spec_parse_status(s, i) == Some((j + "}"@.len(), st)));
        },
        ExitStatus::Signal(n) => {
            let pre = "{\"Signal\":"@;
            let other = "{\"ExitCode\":"@;
            lemma_char_shift(s, i, sj, 2);
            assert(s[i + 2] == 'S');
            assert(!lit_at(s, i, other)) by {
                if i + other.len() <= s.len() {
                    assert(s.subrange(i, i + other.len())[2] == s[i + 2]);
                }
            }
            let ij = int_json(n as int);
            lemma_subrange_shift(s, i, sj, 0, pre.len() as int);
            assert(sj.subrange(0, pre.len() as int) =~= pre);
            assert(lit_at(s, i, pre));
            let p = i + pre.len();
            lemma_subrange_shift(s, i, sj, pre.len() as int, (pre.len() + ij.len()) as int);
            assert(sj.subrange(pre.len() as int, (pre.len() + ij.len()) as int) =~= ij);
            lemma_char_shift(s, i, sj, (pre.len() + ij.len()) as int);
            assert(sj[(pre.len() + ij.len()) as int] == '}');
            lemma_parse_i32_at(s, p, n as int);
            let j = p + ij.len();
            assert(lit_at(s, j, "}"@)) by {
                assert(s.subrange(j, j + 1) =~= "}"@) by {
                    assert(s.subrange(j, j + 1)[0] == s[j]);
                }
            }
            assert(spec_parse_status(s, i) == Some((j + "}"@.len(), st)));
        },
        ExitStatus::Killed => {
            let pre = "\"Killed\""@;
            lemma_char_shift(s, i, sj, 0);
            assert(s[i] == '\"');
            assert(!lit_at(s, i, "{\"ExitCode\":"@)) by {
                if i + "{\"ExitCode\":"@.len() <= s.len() {
                    assert(s.subrange(i, i + "{\"ExitCode\":"@.len())[0] == s[i]);
                }
            }
            assert(!lit_at(s, i, "{\"Signal\":"@)) by {
                if i + "{\"Signal\":"@.len() <= s.len() {
                    assert(s.subrange(i, i + "{\"Signal\":"@.len())[0] == s[i]);
                }
            }
            assert(lit_at(s, i, pre));
        },
    }
}

/// When a rendered usage record fills the rest of `s`, parsing it
/// yields exactly that record and consumes everything.
proof fn lemma_parse_usage_at(s: Seq<char>, i: int, u: ResourceUsage)
    requires
        0 <= i <= s.len(),
        s.subrange(i, s.len() as int) == usage_json(u),
    ensures
        spec_parse_usage(s, i) == Some(u),
{
    reveal_strlit(",\"user_cpu_time\":");
    reveal_strlit(",\"system_cpu_time\":");
    reveal_strlit(",\"wall_time_usage\":");
    reveal_strlit("}}");
    assert(',' as u32 == 44 && '}' as u32 == 125);
    let uj = usage_json(u);
    assert(s.len() == i + uj.len());
    let l0 = ",\"resource_usage\":{\"memory_usage\":"@;
    let dmem = dec_digits(u.memory_usage as nat);
    let l1 = ",\"user_cpu_time\":"@;
    let j1 = seconds_json(u.user_cpu_time_us as int);
    let l2 = ",\"system_cpu_time\":"@;
    let j2 = seconds_json(u.system_cpu_time_us as int);
    let l3 = ",\"wall_time_usage\":"@;
    let j3 = seconds_json(u.wall_time_usage_us as int);

    let p0 = i + l0.len();
    let p1 = p0 + dmem.len();
    let p2 = p1 + l1.len();
    let p3 = p2 + j1.len();
    let p4 = p3 + l2.len();
    let p5 = p4 + j2.len();
    let p6 = p5 + l3.len();
    let p7 = p6 + j3.len();

    lemma_subrange_shift(s, i, uj, 0, l0.len() as int);
    assert(uj.subrange(0, l0.len() as int) =~= l0);
    assert(lit_at(s, i, l0));

    lemma_subrange_shift(s, i, uj, l0.len() as int, p1 - i);
    assert(uj.subrange(l0.len() as int, p1 - i) =~= dmem);
    lemma_char_shift(s, i, uj, p1 - i);
    assert(uj[p1 - i] == ',');
    assert(s[p1] == ',');
    assert(!is_digit(','));
    lemma_scan_at(s, p0, u.memory_usage as int);

    lemma_subrange_shift(s, i, uj, p1 - i, p2 - i);
    assert(uj.subrange(p1 - i, p2 - i) =~= l1);
    assert(lit_at(s, p1, l1));

    lemma_subrange_shift(s, i, uj, p2 - i, p3 - i);
    assert(uj.subrange(p2 - i, p3 - i) =~= j1);
    lemma_char_shift(s, i, uj, p3 - i);
    assert(uj[p3 - i] == ',');
    lemma_parse_seconds_at(s, p2, u.user_cpu_time_us as int);

    lemma_subrange_shift(s, i, uj, p3 - i, p4 - i);
    assert(uj.subrange(p3 - i, p4 - i) =~= l2);
    assert(lit_at(s, p3, l2));

    lemma_subrange_shift(s, i, uj, p4 - i, p5 - i);
    assert(uj.subrange(p4 - i, p5 - i) =~= j2);
    lemma_char_shift(s, i, uj, p5 - i);
    assert(uj[p5 - i] == ',');
    lemma_parse_seconds_at(s, p4, u.system_cpu_time_us as int);

    lemma_subrange_shift(s, i, uj, p5 - i, p6 - i);
    assert(uj.subrange(p5 - i, p6 - i) =~= l3);
    assert(lit_at(s, p5, l3));

    lemma_subrange_shift(s, i, uj, p6 - i, p7 - i);
    assert(uj.subrange(p6 - i, p7 - i) =~= j3);
    lemma_char_shift(s, i, uj, p7 - i);
    assert(uj[p7 - i] == '}');
    lemma_parse_seconds_at(s, p6, u.wall_time_usage_us as int);

    lemma_subrange_shift(s, i, uj, p7 - i, uj.len() as int);
    assert(uj.subrange(p7 - i, uj.len() as int) =~= "}}"@);
    assert(lit_at(s, p7, "}}"@));
    assert(p7 + "}}"@.len() == s.len());
}

/// Round trip: every rendered result record parses back to itself.
pub proof fn lemma_result_json_round_trip(v: SandboxExecutionResult)
    ensures
        spec_parse_result(result_json(v)) == Some(v),
{
    let s = result_json(v);
    let pre = "{\"status\":"@;
    let sj = status_json(v.status);
    let uj = usage_json(v.resource_usage);
    assert(lit_at(s, 0, pre)) by {
        assert(s.subrange(0, pre.len() as int) =~= pre);
    }
    assert(s.subrange(pre.len() as int, (pre.len() + sj.len()) as int) =~= sj);
    lemma_parse_status_at(s, pre.len() as int, v.status);
    assert(s.subrange((pre.len() + sj.len()) as int, s.len() as int) =~= uj);
    lemma_parse_usage_at(s, (pre.len() + sj.len()) as int, v.resource_usage);
}

/// Check whether the literal `lit` sits at position `i` of `s`.
fn match_lit(s: &str, i: usize, lit: &str) -> (r: Option<usize>)
    requires
        i <= s@.len(),
    ensures
        r is Some <==> lit_at(s@, i as int, lit@),
        r is Some ==> r.unwrap() == i + lit@.len() && i <= r.unwrap() <= s@.len(),
{
    let slen = s.unicode_len();
    let llen = lit.unicode_len();
    if slen - i < llen {
        return None;
    }
    let mut k: usize = 0;
    while k < llen
        invariant
            slen == s@.len(),
            llen == lit@.len(),
            i + llen <= slen,
            0 <= k <= llen,
            forall|m: int| 0 <= m < k ==> s@[i + m] == lit@[m],
        decreases llen - k,
    {
        if s.get_char(i + k) != lit.get_char(k) {
            proof {
                assert(s@.subrange(i as int, i + lit@.len())[k as int] == s@[i + k]);
            }
            return None;
        }
        k = k + 1;
    }
    proof {
        assert(s@.subrange(i as int, i + lit@.len()) =~= lit@);
    }
    Some(i + llen)
}

/// Read the unsigned number at `i`: the digit run there, when it is
/// nonempty and its value fits a u64.
fn scan_u64(s: &str, i: usize) -> (r: Option<(usize, u64)>)
    requires
        i <= s@.len(),
    ensures
        r is Some <==> spec_scan_u64(s@, i as int) is Some,
        r is Some ==> r.unwrap().0 == spec_scan_u64(s@, i as int).unwrap().0 && r.unwrap().1
            == spec_scan_u64(s@, i as int).unwrap().1 && i <= r.unwrap().0 <= s@.len(),
{
    proof {
        lemma_digit_run_end_props(s@, i as int);
    }
    let ghost e = digit_run_end(s@, i as int);
    let len = s.unicode_len();
    let mut j: usize = i;
    let mut acc: u64 = 0;
    while j < len
        invariant_except_break
            i <= j <= len == s@.len(),
            i <= e <= len,
            e == digit_run_end(s@, i as int),
            digit_run_end(s@, j as int) == e,
            j <= e,
            forall|k: int| i <= k < e ==> is_digit(#[trigger] s@[k]),
            acc == dec_value(s@.subrange(i as int, j as int)),
        ensures
            i <= j <= len == s@.len(),
            j == e,
            acc == dec_value(s@.subrange(i as int, j as int)),
        decreases len - j,
    {
        let c = s.get_char(j);
        let code = c as u32;
        if code < 48 || code > 57 {
            proof {
                assert(!is_digit(s@[j as int]));
                assert(digit_run_end(s@, j as int) == j);
            }
            break;
        }
        let d = (code - 48) as u64;
        proof {
            assert(is_digit(s@[j as int]));
            assert(digit_run_end(s@, j as int) == digit_run_end(s@, j + 1));
            assert(s@.subrange(i as int, j + 1).drop_last() =~= s@.subrange(i as int, j as int));
            assert(s@.subrange(i as int, j + 1).last() == s@[j as int]);
            assert(all_digits(s@.subrange(i as int, j as int))) by {
                assert(forall|k: int|
                    0 <= k < j - i ==> #[trigger] s@.subrange(i as int, j as int)[k] == s@[i + k]);
            }
            lemma_dec_value_nonneg(s@.subrange(i as int, j as int));
            lemma_digit_run_end_props(s@, j + 1);
        }
        if acc > (u64::MAX - d) / 10 {
            proof {
                assert(acc * 10 + d > u64::MAX) by (nonlinear_arith)
                    requires acc > (u64::MAX - d) / 10, d < 10, acc >= 0;
                assert(dec_value(s@.subrange(i as int, j + 1)) == acc * 10 + d);
                let t = s@.subrange(i as int, e);
                assert(all_digits(t)) by {
                    assert(forall|k: int| 0 <= k < t.len() ==> #[trigger] t[k] == s@[i + k]);
                }
                assert(t.take(j + 1 - i) =~= s@.subrange(i as int, j + 1));
                lemma_dec_value_take_le(t, j + 1 - i);
            }
            return None;
        }
        proof {
            assert(acc * 10 + d <= u64::MAX) by (nonlinear_arith)
                requires acc <= (u64::MAX - d) / 10, d < 10, acc >= 0;
            assert(dec_value(s@.subrange(i as int, j + 1)) == acc * 10 + d);
        }
        acc = acc * 10 + d;
        j = j + 1;
    }
    if j == i {
        proof {
            assert(s@.subrange(i as int, i as int) =~= Seq::<char>::empty());
        }
        None
    } else {
        Some((j, acc))
    }
}

/// Read the signed 32-bit number at `i`.
fn parse_i32_at(s: &str, i: usize) -> (r: Option<(usize, i32)>)
    requires
        i <= s@.len(),
    ensures
        r is Some <==> spec_parse_i32(s@, i as int) is Some,
        r is Some ==> r.unwrap().0 == spec_parse_i32(s@, i as int).unwrap().0 && r.unwrap().1
            as int == spec_parse_i32(s@, i as int).unwrap().1 && i <= r.unwrap().0 <= s@.len(),
{
    let len = s.unicode_len();
    let neg = i < len && s.get_char(i) == '-';
    let start = if neg {
        i + 1
    } else {
        i
    };
    match scan_u64(s, start) {
        None => None,
        Some((e, mag)) => {
            if neg {
                if mag <= 0x8000_0000 {
                    let value = (-(mag as i64)) as i32;
                    Some((e, value))
                } else {
                    None
                }
            } else {
                if mag <= 0x7fff_ffff {
                    Some((e, mag as i32))
                } else {
                    None
                }
            }
        },
    }
}

/// Read the decimal seconds at `i` and return them in microseconds.
#[verifier::loop_isolation(false)]
fn parse_seconds_at(s: &str, i: usize) -> (r: Option<(usize, u64)>)
    requires
        i <= s@.len(),
    ensures
        r is Some <==> spec_parse_seconds(s@, i as int) is Some,
        r is Some ==> r.unwrap().0 == spec_parse_seconds(s@, i as int).unwrap().0 && r.unwrap().1
            == spec_parse_seconds(s@, i as int).unwrap().1 && i <= r.unwrap().0 <= s@.len(),
{
    let (after_secs, secs) = match scan_u64(s, i) {
        None => {
            return None;
        },
        Some(p) => p,
    };
    let after_dot = match match_lit(s, after_secs, ".") {
        None => {
            return None;
        },
        Some(j) => j,
    };
    proof {
        reveal_strlit(".");
    }
    let len = s.unicode_len();
    if len - after_dot < 6 {
        return None;
    }
    let mut k: usize = 0;
    let mut frac: u64 = 0;
    while k < 6
        invariant
            len == s@.len(),
            after_dot + 6 <= len,
            0 <= k <= 6,
            forall|m: int| 0 <= m < k ==> is_digit(#[trigger] s@[after_dot + m]),
            frac == dec_value(s@.subrange(after_dot as int, after_dot + k)),
            frac < pow10(k as nat),
        decreases 6 - k,
    {
        let c = s.get_char(after_dot + k);
        let code = c as u32;
        if code < 48 || code > 57 {
            proof {
                assert(!is_digit(s@[after_dot + k]));
                assert(s@.subrange(after_dot as int, after_dot + 6)[k as int] == s@[after_dot + k]);
                assert(!all_digits(s@.subrange(after_dot as int, after_dot + 6)));
            }
            return None;
        }
        let d = (code - 48) as u64;
        proof {
            assert(s@.subrange(after_dot as int, after_dot + k + 1).drop_last() =~= s@.subrange(
                after_dot as int,
                after_dot + k,
            ));
            assert(s@.subrange(after_dot as int, after_dot + k + 1).last() == s@[after_dot + k]);
            lemma_dec_value_push(s@.subrange(after_dot as int, after_dot + k), s@[after_dot + k]);
            assert(pow10((k + 1) as nat) == 10 * pow10(k as nat));
            assert(frac * 10 + (code - 48) < pow10((k + 1) as nat)) by (nonlinear_arith)
                requires
                    frac < pow10(k as nat),
                    code - 48 < 10,
                    pow10((k + 1) as nat) == 10 * pow10(k as nat),
                    frac >= 0,
            ;
            crate::decimal::lemma_pow10_mono((k + 1) as nat, 6);
            assert(pow10(6) == 1000000) by {
                reveal_with_fuel(pow10, 8);
            }
        }
        frac = frac * 10 + d;
        k = k + 1;
    }
    proof {
        reveal_with_fuel(pow10, 8);
        assert(pow10(6) == 1000000);
        assert(all_digits(s@.subrange(after_dot as int, after_dot + 6))) by {
            assert(forall|m: int|
                0 <= m < 6 ==> #[trigger] s@.subrange(after_dot as int, after_dot + 6)[m]
                    == s@[after_dot + m]);
        }
        lemma_dec_value_nonneg(s@.subrange(after_dot as int, after_dot + 6));
    }
    if secs > (u64::MAX - frac) / 1000000 {
        proof {
            assert(secs * 1000000 + frac > u64::MAX) by (nonlinear_arith)
                requires secs > (u64::MAX - frac) / 1000000, frac <= u64::MAX, secs >= 0;
        }
        return None;
    }
    proof {
        assert(secs * 1000000 + frac <= u64::MAX) by (nonlinear_arith)
            requires secs <= (u64::MAX - frac) / 1000000, frac <= u64::MAX, secs >= 0;
    }
    Some((after_dot + 6, secs * 1000000 + frac))
}

/// Read the exit status at `i`.
fn parse_status_at(s: &str, i: usize) -> (r: Option<(usize, ExitStatus)>)
    requires
        i <= s@.len(),
    ensures
        r is Some <==> spec_parse_status(s@, i as int) is Some,
        r is Some ==> r.unwrap().0 == spec_parse_status(s@, i as int).unwrap().0 && r.unwrap().1
            == spec_parse_status(s@, i as int).unwrap().1 && i <= r.unwrap().0 <= s@.len(),
{
    if let Some(j) = match_lit(s, i, "{\"ExitCode\":") {
        match parse_i32_at(s, j) {
            None => None,
            Some((j, n)) => match match_lit(s, j, "}") {
                None => None,
                Some(j) => Some((j, ExitStatus::ExitCode(n))),
            },
        }
    } else if let Some(j) = match_lit(s, i, "{\"Signal\":") {
        match parse_i32_at(s, j) {
            None => None,
            Some((j, n)) => match match_lit(s, j, "}") {
                None => None,
                Some(j) => Some((j, ExitStatus::Signal(n))),
            },
        }
    } else if let Some(j) = match_lit(s, i, "\"Killed\"") {
        Some((j, ExitStatus::Killed))
    } else {
        None
    }
}

/// Parse a rendered result record: succeeds exactly on the strings
/// [`spec_parse_result`] accepts, which include every rendering that
/// [`encode_result`] produces.
pub fn parse_result(s: &str) -> (r: Option<SandboxExecutionResult>)
    ensures
        r == spec_parse_result(s@),
{
    let i = match match_lit(s, 0, "{\"status\":") {
        None => {
            return None;
        },
        Some(i) => i,
    };
    let (i, status) = match parse_status_at(s, i) {
        None => {
            return None;
        },
        Some(p) => p,
    };
    let i = match match_lit(s, i, ",\"resource_usage\":{\"memory_usage\":") {
        None => {
            return None;
        },
        Some(i) => i,
    };
    let (i, mem) = match scan_u64(s, i) {
        None => {
            return None;
        },
        Some(p) => p,
    };
    let i = match match_lit(s, i, ",\"user_cpu_time\":") {
        None => {
            return None;
        },
        Some(i) => i,
    };
    let (i, user) = match parse_seconds_at(s, i) {
        None => {
            return None;
        },
        Some(p) => p,
    };
    let i = match match_lit(s, i, ",\"system_cpu_time\":") {
        None => {
            return None;
        },
        Some(i) => i,
    };
    let (i, system) = match parse_seconds_at(s, i) {
        None => {
            return None;
        },
        Some(p) => p,
    };
    let i = match match_lit(s, i, ",\"wall_time_usage\":") {
        None => {
            return None;
        },
        Some(i) => i,
    };
    let (i, wall) = match parse_seconds_at(s, i) {
        None => {
            return None;
        },
        Some(p) => p,
    };
    let i = match match_lit(s, i, "}}") {
        None => {
            return None;
        },
        Some(i) => i,
    };
    if i != s.unicode_len() {
        return None;
    }
    Some(SandboxExecutionResult {
        status,
        resource_usage: ResourceUsage {
            memory_usage: mem,
            user_cpu_time_us: user,
            system_cpu_time_us: system,
            wall_time_usage_us: wall,
        },
    })
}

} // verus!
