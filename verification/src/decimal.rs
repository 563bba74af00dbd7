//! Decimal text: rendering integers as strings and reading them back.
//!
//! The sandbox writes numbers into kernel control files (the identity maps),
//! option strings and the JSON result record, and reads them back when a
//! record is parsed; both directions are pinned to one spec-level digit
//! sequence so that rendering and parsing invert each other.

use vstd::prelude::*;

verus! {

/// Whether `c` is a decimal digit.
pub open spec fn is_digit(c: char) -> bool {
    48 <= c as u32 <= 57
}

/// The numeric value of the digit `c`.
pub open spec fn digit_val(c: char) -> int {
    c as u32 - 48
}

/// The digit character for a value below ten.
pub open spec fn digit_char(d: int) -> char {
    if d == 0 {
        '0'
    } else if d == 1 {
        '1'
    } else if d == 2 {
        '2'
    } else if d == 3 {
        '3'
    } else if d == 4 {
        '4'
    } else if d == 5 {
        '5'
    } else if d == 6 {
        '6'
    } else if d == 7 {
        '7'
    } else if d == 8 {
        '8'
    } else {
        '9'
    }
}

/// The decimal digit sequence of `n`, without leading zeros (`0` is "0").
pub open spec fn dec_digits(n: nat) -> Seq<char>
    decreases n,
{
    if n < 10 {
        seq![digit_char(n as int)]
    } else {
        dec_digits(n / 10).push(digit_char((n % 10) as int))
    }
}

/// The decimal digit sequence of `n` padded with leading zeros to exactly
/// `width` digits; digits beyond `width` are dropped.
pub open spec fn dec_digits_padded(n: nat, width: nat) -> Seq<char>
    decreases width,
{
    if width == 0 {
        Seq::empty()
    } else {
        dec_digits_padded(n / 10, (width - 1) as nat).push(digit_char((n % 10) as int))
    }
}

/// Whether every character of `s` is a decimal digit.
pub open spec fn all_digits(s: Seq<char>) -> bool {
    forall|i: int| 0 <= i < s.len() ==> is_digit(#[trigger] s[i])
}

/// The numeric value of the digit sequence `s` (most significant first).
pub open spec fn dec_value(s: Seq<char>) -> int
    decreases s.len(),
{
    if s.len() == 0 {
        0
    } else {
        dec_value(s.drop_last()) * 10 + digit_val(s.last())
    }
}

/// Whether `s` is the canonical decimal form of a number: nonempty, all
/// digits, and no leading zero unless it is exactly "0".
pub open spec fn canonical_digits(s: Seq<char>) -> bool {
    &&& s.len() > 0
    &&& all_digits(s)
    &&& (s.len() > 1 ==> s[0] != '0')
}

/// The single-character string for the digit value `d`.
fn digit_str(d: u64) -> (r: &'static str)
    requires
        d < 10,
    ensures
        r@ == seq![digit_char(d as int)],
{
    let r: &'static str = if d == 0 {
        "0"
    } else if d == 1 {
        "1"
    } else if d == 2 {
        "2"
    } else if d == 3 {
        "3"
    } else if d == 4 {
        "4"
    } else if d == 5 {
        "5"
    } else if d == 6 {
        "6"
    } else if d == 7 {
        "7"
    } else if d == 8 {
        "8"
    } else {
        "9"
    };
    proof {
        reveal_strlit("0");
        reveal_strlit("1");
        reveal_strlit("2");
        reveal_strlit("3");
        reveal_strlit("4");
        reveal_strlit("5");
        reveal_strlit("6");
        reveal_strlit("7");
        reveal_strlit("8");
        reveal_strlit("9");
        assert(r@ =~= seq![digit_char(d as int)]);
    }
    r
}

/// Render `n` in decimal.
pub fn u64_to_string(n: u64) -> (s: String)
    ensures
        s@ == dec_digits(n as nat),
    decreases n,
{
    if n < 10 {
        String::from_str(digit_str(n))
    } else {
        let mut s = u64_to_string(n / 10);
        s.append(digit_str(n % 10));
        proof {
            assert(s@ =~= dec_digits(n as nat));
        }
        s
    }
}

/// Render `n` in decimal, padded with leading zeros to exactly `width`
/// digits; digits beyond `width` are dropped.
pub fn u64_to_padded_string(n: u64, width: u64) -> (s: String)
    ensures
        s@ == dec_digits_padded(n as nat, width as nat),
    decreases width,
{
    if width == 0 {
        let s = String::new();
        proof {
            assert(s@ =~= dec_digits_padded(n as nat, 0));
        }
        s
    } else {
        let mut s = u64_to_padded_string(n / 10, width - 1);
        s.append(digit_str(n % 10));
        proof {
            assert(s@ =~= dec_digits_padded(n as nat, width as nat));
        }
        s
    }
}

/// Render `n` in decimal, with a leading minus sign when negative.
pub fn i64_to_string(n: i64) -> (s: String)
    ensures
        n >= 0 ==> s@ == dec_digits(n as nat),
        n < 0 ==> s@ == seq!['-'] + dec_digits((-(n as int)) as nat),
{
    if n >= 0 {
        u64_to_string(n as u64)
    } else {
        let magnitude: u64 = if n == i64::MIN {
            9223372036854775808u64
        } else {
            (-n) as u64
        };
        let mut s = String::from_str("-");
        s.append(u64_to_string(magnitude).as_str());
        proof {
            reveal_strlit("-");
            assert(s@ =~= seq!['-'] + dec_digits((-(n as int)) as nat));
        }
        s
    }
}

/// The value of a digit sequence is nonnegative.
pub proof fn lemma_dec_value_nonneg(s: Seq<char>)
    requires
        all_digits(s),
    ensures
        dec_value(s) >= 0,
    decreases s.len(),
{
    if s.len() > 0 {
        assert(all_digits(s.drop_last()));
        lemma_dec_value_nonneg(s.drop_last());
    }
}

/// Appending a digit multiplies the value by ten and adds the digit.
pub proof fn lemma_dec_value_push(s: Seq<char>, c: char)
    ensures
        dec_value(s.push(c)) == dec_value(s) * 10 + digit_val(c),
{
    assert(s.push(c).drop_last() =~= s);
    assert(s.push(c).last() == c);
}

/// The digit sequence of `n` is canonical and evaluates back to `n`.
pub proof fn lemma_dec_digits_value(n: nat)
    ensures
        canonical_digits(dec_digits(n)),
        dec_value(dec_digits(n)) == n,
    decreases n,
{
    assert('0' as u32 == 48 && '1' as u32 == 49 && '2' as u32 == 50 && '3' as u32 == 51
        && '4' as u32 == 52 && '5' as u32 == 53 && '6' as u32 == 54 && '7' as u32 == 55
        && '8' as u32 == 56 && '9' as u32 == 57);
    if n < 10 {
        let s = seq![digit_char(n as int)];
        assert(s.drop_last() =~= Seq::<char>::empty());
        assert(s.last() == digit_char(n as int));
        assert(digit_val(digit_char(n as int)) == n);
        assert(dec_value(Seq::<char>::empty()) == 0);
        assert(dec_value(s) == n);
        assert(is_digit(s[0]));
        assert(all_digits(s));
    } else {
        lemma_dec_digits_value(n / 10);
        let s = dec_digits(n / 10);
        let d = digit_char((n % 10) as int);
        lemma_dec_value_push(s, d);
        let full = s.push(d);
        assert(forall|i: int|
            0 <= i < full.len() ==> is_digit(#[trigger] full[i]) == (if i < s.len() {
                is_digit(s[i])
            } else {
                is_digit(d)
            }));
        assert(is_digit(d));
        assert(all_digits(full));
        assert(full[0] == s[0]);
        if s.len() == 1 {
            assert(s.drop_last() =~= Seq::<char>::empty());
            assert(s.last() == s[0]);
            assert(dec_value(Seq::<char>::empty()) == 0);
            assert(digit_val(s[0]) == n / 10);
            assert(n / 10 >= 1);
        }
        assert(s[0] != '0');
        assert(digit_val(d) == n % 10);
        assert(dec_value(full) == n);
    }
}

/// The padded digit sequence of `n` has exactly `width` digits and, when
/// `n` fits in `width` digits, evaluates back to `n`.
pub proof fn lemma_dec_digits_padded_value(n: nat, width: nat)
    ensures
        dec_digits_padded(n, width).len() == width,
        all_digits(dec_digits_padded(n, width)),
        n < pow10(width) ==> dec_value(dec_digits_padded(n, width)) == n,
    decreases width,
{
    if width > 0 {
        lemma_dec_digits_padded_value(n / 10, (width - 1) as nat);
        lemma_dec_value_push(
            dec_digits_padded(n / 10, (width - 1) as nat),
            digit_char((n % 10) as int),
        );
        let s = dec_digits_padded(n / 10, (width - 1) as nat);
        let full = s.push(digit_char((n % 10) as int));
        assert(forall|i: int|
            0 <= i < full.len() ==> is_digit(#[trigger] full[i]) == (if i < s.len() {
                is_digit(s[i])
            } else {
                is_digit(digit_char((n % 10) as int))
            }));
        if n < pow10(width) {
            assert(n / 10 < pow10((width - 1) as nat)) by {
                assert(pow10(width) == pow10((width - 1) as nat) * 10);
                assert(n < pow10((width - 1) as nat) * 10);
            }
        }
    }
}

/// Ten to the `width`.
pub open spec fn pow10(width: nat) -> nat
    decreases width,
{
    if width == 0 {
        1
    } else {
        10 * pow10((width - 1) as nat)
    }
}

/// Ten to the power never falls below one.
pub proof fn lemma_pow10_pos(width: nat)
    ensures
        pow10(width) >= 1,
    decreases width,
{
    if width > 0 {
        lemma_pow10_pos((width - 1) as nat);
    }
}

/// Ten to the power grows with the exponent.
pub proof fn lemma_pow10_mono(a: nat, b: nat)
    requires
        a <= b,
    ensures
        pow10(a) <= pow10(b),
    decreases b,
{
    if a < b {
        lemma_pow10_mono(a, (b - 1) as nat);
        lemma_pow10_pos((b - 1) as nat);
        assert(pow10(b) == 10 * pow10((b - 1) as nat));
        assert(10 * pow10((b - 1) as nat) >= pow10((b - 1) as nat)) by (nonlinear_arith)
            requires pow10((b - 1) as nat) >= 1;
    }
}

/// A prefix of a digit sequence never evaluates to more than the whole.
pub proof fn lemma_dec_value_take_le(s: Seq<char>, i: int)
    requires
        all_digits(s),
        0 <= i <= s.len(),
    ensures
        dec_value(s.take(i)) <= dec_value(s),
    decreases s.len() - i,
{
    if i < s.len() {
        lemma_dec_value_take_le(s, i + 1);
        assert(s.take(i + 1).drop_last() =~= s.take(i));
        assert(s.take(i + 1).last() == s[i]);
        assert(all_digits(s.take(i)));
        lemma_dec_value_nonneg(s.take(i));
        assert(dec_value(s.take(i + 1)) == dec_value(s.take(i)) * 10 + digit_val(s[i]));
        assert(digit_val(s[i]) >= 0);
        assert(dec_value(s.take(i)) * 10 >= dec_value(s.take(i))) by (nonlinear_arith)
            requires dec_value(s.take(i)) >= 0;
    } else {
        assert(s.take(i) =~= s);
    }
}

/// Where the run of digits beginning at `i` in `s` ends: the first
/// position at or after `i` that is past the end or holds a non-digit.
pub open spec fn digit_run_end(s: Seq<char>, i: int) -> int
    decreases s.len() - i,
{
    if 0 <= i < s.len() && is_digit(s[i]) {
        digit_run_end(s, i + 1)
    } else {
        i
    }
}

/// The digit run neither leaves the string nor stops early: everything in
/// it is a digit and what follows it is not.
pub proof fn lemma_digit_run_end_props(s: Seq<char>, i: int)
    requires
        0 <= i <= s.len(),
    ensures
        i <= digit_run_end(s, i) <= s.len(),
        forall|k: int| i <= k < digit_run_end(s, i) ==> is_digit(#[trigger] s[k]),
        digit_run_end(s, i) == s.len() || !is_digit(s[digit_run_end(s, i)]),
    decreases s.len() - i,
{
    if i < s.len() && is_digit(s[i]) {
        lemma_digit_run_end_props(s, i + 1);
    }
}

/// When a nonempty all-digit block sits at `i` and a non-digit (or the
/// end) follows it, the digit run at `i` is exactly that block.
pub proof fn lemma_digit_run_at(s: Seq<char>, i: int, d: Seq<char>)
    requires
        0 <= i,
        i + d.len() <= s.len(),
        d.len() > 0,
        all_digits(d),
        s.subrange(i, i + d.len()) == d,
        i + d.len() == s.len() || !is_digit(s[i + d.len()]),
    ensures
        digit_run_end(s, i) == i + d.len(),
    decreases d.len(),
{
    assert(s[i] == d[0]);
    assert(is_digit(d[0]));
    if d.len() == 1 {
        assert(digit_run_end(s, i + 1) == i + 1);
    } else {
        assert(s.subrange(i + 1, i + 1 + (d.len() - 1)) =~= d.drop_first());
        assert(all_digits(d.drop_first())) by {
            assert(forall|k: int|
                0 <= k < d.drop_first().len() ==> #[trigger] d.drop_first()[k] == d[k + 1]);
        }
        lemma_digit_run_at(s, i + 1, d.drop_first());
    }
}

/// Parse an unsigned decimal number: succeeds exactly on nonempty
/// all-digit strings whose value fits in a u64, and then returns the value.
pub fn parse_u64(s: &str) -> (r: Option<u64>)
    ensures
        r is Some <==> s@.len() > 0 && all_digits(s@) && dec_value(s@) <= u64::MAX,
        r is Some ==> r.unwrap() == dec_value(s@),
{
    let len = s.unicode_len();
    if len == 0 {
        return None;
    }
    let mut acc: u64 = 0;
    let mut i: usize = 0;
    while i < len
        invariant
            0 < len == s@.len(),
            0 <= i <= len,
            all_digits(s@.take(i as int)),
            acc == dec_value(s@.take(i as int)),
        decreases len - i,
    {
        let c = s.get_char(i);
        let code = c as u32;
        if code < 48 || code > 57 {
            proof {
                assert(!is_digit(s@[i as int]));
            }
            return None;
        }
        let d = (code - 48) as u64;
        proof {
            assert(s@.take(i + 1).drop_last() =~= s@.take(i as int));
            assert(s@.take(i + 1).last() == s@[i as int]);
            lemma_dec_value_nonneg(s@.take(i as int));
        }
        if acc > (u64::MAX - d) / 10 {
            proof {
                assert(dec_value(s@.take(i + 1)) == acc * 10 + d);
                assert(acc * 10 + d > u64::MAX) by (nonlinear_arith)
                    requires acc > (u64::MAX - d) / 10, d < 10, acc >= 0;
                assert(all_digits(s@.take(i + 1)));
                assert(forall|k: int|
                    0 <= k < s@.len() ==> is_digit(#[trigger] s@[k]) == (if k <= i {
                        is_digit(s@.take(i + 1)[k])
                    } else {
                        is_digit(s@[k])
                    }));
                if all_digits(s@) {
                    lemma_dec_value_take_le(s@, i + 1);
                }
            }
            return None;
        }
        let next = acc * 10 + d;
        proof {
            assert(acc * 10 + d <= u64::MAX) by (nonlinear_arith)
                requires acc <= (u64::MAX - d) / 10, d < 10, acc >= 0;
            assert(dec_value(s@.take(i + 1)) == acc * 10 + d);
        }
        acc = next;
        i = i + 1;
    }
    proof {
        assert(s@.take(len as int) =~= s@);
    }
    Some(acc)
}

} // verus!
