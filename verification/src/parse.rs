//! Strict decimal-string parsing: the JSON helpers and the from-string
//! operations of the arbitrary-precision types.
//!
//! Each parse is exact: the acceptance set and the value returned are
//! stated as spec functions over the character sequence, and malformed
//! input is a deterministic error of the caller.

use vstd::prelude::*;
use vstd::string::StrSliceExecFns;
use crate::bigint::{big_int_value, bi_add, bi_from_u64, bi_mul, bi_neg, pow10};

verus! {

broadcast use vstd::std_specs::vec::group_vec_axioms, vstd::seq::group_seq_axioms;

/// Whether the character is a decimal digit.
pub open spec fn is_dec_digit(c: char) -> bool {
    48 <= c as u32 && c as u32 <= 57
}

/// The value of one decimal digit.
pub open spec fn dec_digit_val(c: char) -> nat {
    (c as u32 - 48) as nat
}

/// Whether every character is a decimal digit.
pub open spec fn all_dec_digits(s: Seq<char>) -> bool {
    forall|i: int| 0 <= i < s.len() ==> is_dec_digit(#[trigger] s[i])
}

/// The value of a decimal digit string, most significant first.
pub open spec fn digits_val(s: Seq<char>) -> nat
    decreases s,
{
    if s.len() == 0 {
        0
    } else {
        digits_val(s.drop_last()) * 10 + dec_digit_val(s.last())
    }
}

/// The sign, and the rest: a leading `-` or `+` is consumed.
pub open spec fn sign_split(s: Seq<char>) -> (bool, Seq<char>) {
    if s.len() > 0 && s[0] == '-' {
        (true, s.skip(1))
    } else if s.len() > 0 && s[0] == '+' {
        (false, s.skip(1))
    } else {
        (false, s)
    }
}

/// An optionally signed decimal integer: sign, then one digit or more,
/// nothing else.
pub open spec fn parse_int(s: Seq<char>) -> Option<int> {
    let (neg, t) = sign_split(s);
    if t.len() > 0 && all_dec_digits(t) {
        if neg {
            Some(-(digits_val(t) as int))
        } else {
            Some(digits_val(t) as int)
        }
    } else {
        None
    }
}

/// What a string parses to as an unsigned 64-bit integer: an optional
/// `+`, digits, and a value within range; a minus sign is rejected.
pub open spec fn parse_u64(s: Seq<char>) -> Option<u64> {
    let t = if s.len() > 0 && s[0] == '+' {
        s.skip(1)
    } else {
        s
    };
    if t.len() > 0 && all_dec_digits(t) && (s.len() == 0 || s[0] != '-') && digits_val(t)
        <= u64::MAX {
        Some(digits_val(t) as u64)
    } else {
        None
    }
}

/// What a string parses to as a signed 64-bit integer.
pub open spec fn parse_i64(s: Seq<char>) -> Option<i64> {
    match parse_int(s) {
        None => None,
        Some(v) => if i64::MIN <= v <= i64::MAX {
            Some(v as i64)
        } else {
            None
        },
    }
}

/// Length of the maximal digit prefix.
pub open spec fn span_digits(s: Seq<char>) -> int
    decreases s,
{
    if s.len() > 0 && is_dec_digit(s.first()) {
        1 + span_digits(s.drop_first())
    } else {
        0
    }
}

/// The value decomposes around any cut of a digit string.
pub proof fn lemma_digits_val_split(s: Seq<char>, i: int)
    requires
        0 <= i <= s.len(),
    ensures
        digits_val(s) == digits_val(s.take(i)) * pow10((s.len() - i) as nat) + digits_val(
            s.skip(i),
        ),
    decreases s.len() - i,
{
    if i == s.len() {
        assert(s.take(i) =~= s);
        assert(s.skip(i).len() == 0);
    } else {
        lemma_digits_val_split(s, i + 1);
        assert(s.take(i + 1).drop_last() =~= s.take(i));
        assert(s.take(i + 1).last() == s[i]);
        assert(s.skip(i).drop_last() =~= s.skip(i).take(s.len() - i - 1));
        let a = digits_val(s.take(i)) as int;
        let d = dec_digit_val(s[i]) as int;
        let p = pow10((s.len() - i - 1) as nat);
        let rest = digits_val(s.skip(i + 1)) as int;
        assert(s.skip(i + 1) =~= s.skip(i).drop_first());
        lemma_digits_val_first(s.skip(i));
        assert(digits_val(s.skip(i)) == d * pow10((s.len() - i - 1) as nat) + rest);
        assert((a * 10 + d) * p + rest == a * (10 * p) + (d * p + rest)) by (nonlinear_arith);
        assert(pow10((s.len() - i) as nat) == 10 * p);
    }
}

/// The value seen from the first digit: the first digit weighs a power
/// of ten for each digit after it.
pub proof fn lemma_digits_val_first(s: Seq<char>)
    requires
        s.len() > 0,
    ensures
        digits_val(s) == dec_digit_val(s.first()) * pow10((s.len() - 1) as nat) + digits_val(
            s.drop_first(),
        ),
    decreases s.len(),
{
    if s.len() == 1 {
        assert(s.drop_first().len() == 0);
        assert(s.drop_last().len() == 0);
        assert(s.last() == s.first());
        assert(digits_val(s.drop_last()) == 0);
        assert(digits_val(s) == dec_digit_val(s.first()));
        assert(digits_val(s.drop_first()) == 0);
        assert(pow10((s.len() - 1) as nat) == 1);
        assert(dec_digit_val(s.first()) * pow10((s.len() - 1) as nat) == dec_digit_val(s.first()));
    } else {
        lemma_digits_val_first(s.drop_last());
        assert(s.drop_last().first() == s.first());
        assert(s.drop_last().drop_first() =~= s.drop_first().drop_last());
        assert(s.drop_first().last() == s.last());
        let d = dec_digit_val(s.first()) as int;
        let p = pow10((s.len() - 2) as nat);
        let m = digits_val(s.drop_first().drop_last()) as int;
        let l = dec_digit_val(s.last()) as int;
        assert(digits_val(s) == digits_val(s.drop_last()) * 10 + l);
        assert(digits_val(s.drop_last()) == d * p + m);
        assert(s.drop_first().len() > 0);
        assert(digits_val(s.drop_first()) == m * 10 + l);
        assert((d * p + m) * 10 + l == d * (10 * p) + (m * 10 + l)) by (nonlinear_arith);
        assert(pow10((s.len() - 1) as nat) == 10 * p);
    }
}

/// A power of ten is at least one.
pub proof fn lemma_pow10_pos(e: nat)
    ensures
        pow10(e) >= 1,
    decreases e,
{
    if e > 0 {
        lemma_pow10_pos((e - 1) as nat);
        assert(10 * pow10((e - 1) as nat) >= pow10((e - 1) as nat)) by (nonlinear_arith)
            requires
                pow10((e - 1) as nat) >= 0,
        ;
    }
}

/// A digit string weighs at least any of its prefixes.
pub proof fn lemma_digits_val_prefix(s: Seq<char>, i: int)
    requires
        0 <= i <= s.len(),
    ensures
        digits_val(s) >= digits_val(s.take(i)),
{
    lemma_digits_val_split(s, i);
    lemma_pow10_pos((s.len() - i) as nat);
    let a = digits_val(s.take(i)) as int;
    let p = pow10((s.len() - i) as nat);
    assert(a * p >= a) by (nonlinear_arith)
        requires
            a >= 0,
            p >= 1,
    ;
}

/// Reads the digits of `s` from `from` to its end into a 64-bit value;
/// `None` where a non-digit stands in the way, the range is empty, or
/// the value does not fit.
pub fn parse_u64_digits(s: &str, from: usize) -> (r: Option<u64>)
    requires
        from <= s@.len(),
    ensures
        r is Some <==> (from < s@.len() && all_dec_digits(s@.skip(from as int)) && digits_val(
            s@.skip(from as int),
        ) <= u64::MAX),
        r matches Some(v) ==> v == digits_val(s@.skip(from as int)),
{
    let n = s.unicode_len();
    if from >= n {
        return None;
    }
    let ghost t = s@.skip(from as int);
    let mut acc: u64 = 0;
    let mut i: usize = from;
    while i < n
        invariant
            from <= i <= n,
            n == s@.len(),
            t == s@.skip(from as int),
            acc == digits_val(t.take(i - from)),
            all_dec_digits(t.take(i - from)),
        decreases n - i,
    {
        let c = s.get_char(i);
        let u = c as u32;
        proof {
            assert(t[i - from] == s@[i as int]);
            assert(t.take(i - from + 1).drop_last() =~= t.take(i - from));
            assert(t.take(i - from + 1).last() == t[i - from]);
        }
        if !(48 <= u && u <= 57) {
            proof {
                assert(!is_dec_digit(t[i - from]));
            }
            return None;
        }
        let d = (u - 48) as u64;
        let acc10 = match acc.checked_mul(10) {
            Some(v) => v,
            None => {
                proof {
                    lemma_overflow(t, i - from, acc as nat, d as nat);
                }
                return None;
            },
        };
        let acc2 = match acc10.checked_add(d) {
            Some(v) => v,
            None => {
                proof {
                    lemma_overflow(t, i - from, acc as nat, d as nat);
                }
                return None;
            },
        };
        acc = acc2;
        i = i + 1;
    }
    proof {
        assert(t.take(n - from) =~= t);
    }
    Some(acc)
}

/// The span of digits is `k` exactly when the first `k` characters are
/// digits and the next one, if any, is not.
pub proof fn lemma_span_digits(t: Seq<char>, k: int)
    requires
        0 <= k <= t.len(),
        all_dec_digits(t.take(k)),
        k == t.len() || !is_dec_digit(t[k]),
    ensures
        span_digits(t) == k,
    decreases k,
{
    if k == 0 {
        if t.len() > 0 {
            assert(!is_dec_digit(t.first()));
        }
    } else {
        assert(is_dec_digit(t.take(k)[0]));
        assert(t.first() == t.take(k)[0]);
        assert(t.drop_first().take(k - 1) =~= t.take(k).drop_first());
        assert(all_dec_digits(t.drop_first().take(k - 1))) by {
            assert(forall|j: int|
                0 <= j < k - 1 ==> #[trigger] t.drop_first().take(k - 1)[j] == t.take(k)[j + 1]);
        }
        assert(k - 1 == t.drop_first().len() || !is_dec_digit(t.drop_first()[k - 1]));
        lemma_span_digits(t.drop_first(), k - 1);
    }
}

/// An optionally signed decimal integer, parsed as a `u64`.
pub fn parse_u64_str(s: &str) -> (r: Option<u64>)
    ensures
        r == parse_u64(s@),
{
    let n = s.unicode_len();
    let from: usize = if n > 0 && s.get_char(0) == '+' {
        1
    } else {
        0
    };
    proof {
        if from == 0 {
            assert(s@.skip(0) =~= s@);
            if s@.len() > 0 && s@[0] == '-' {
                assert(!is_dec_digit(s@.skip(0)[0]));
            }
        }
    }
    parse_u64_digits(s, from)
}

/// An optionally signed decimal integer, parsed as an `i64`.
pub fn parse_i64_str(s: &str) -> (r: Option<i64>)
    ensures
        r == parse_i64(s@),
{
    let n = s.unicode_len();
    let (neg, from): (bool, usize) = if n > 0 && s.get_char(0) == '-' {
        (true, 1)
    } else if n > 0 && s.get_char(0) == '+' {
        (false, 1)
    } else {
        (false, 0)
    };
    proof {
        if from == 0 {
            assert(s@.skip(0) =~= s@);
        }
    }
    match parse_u64_digits(s, from) {
        None => None,
        Some(mag) => {
            if neg {
                if mag <= 9_223_372_036_854_775_807u64 {
                    Some(-(mag as i64))
                } else if mag == 9_223_372_036_854_775_808u64 {
                    Some(i64::MIN)
                } else {
                    None
                }
            } else {
                if mag <= 9_223_372_036_854_775_807u64 {
                    Some(mag as i64)
                } else {
                    None
                }
            }
        },
    }
}

/// An optionally signed decimal integer, parsed to arbitrary precision.
pub fn parse_big_int_str(s: &str) -> (r: Option<num_bigint::BigInt>)
    ensures
        r is Some <==> parse_int(s@) is Some,
        r matches Some(n) ==> Some(big_int_value(n)) == parse_int(s@),
{
    let n = s.unicode_len();
    let (neg, from): (bool, usize) = if n > 0 && s.get_char(0) == '-' {
        (true, 1)
    } else if n > 0 && s.get_char(0) == '+' {
        (false, 1)
    } else {
        (false, 0)
    };
    proof {
        if from == 0 {
            assert(s@.skip(0) =~= s@);
        }
    }
    if from >= n {
        return None;
    }
    let ghost t = s@.skip(from as int);
    let ten = bi_from_u64(10);
    let mut acc = bi_from_u64(0);
    let mut i: usize = from;
    while i < n
        invariant
            from <= i <= n,
            n == s@.len(),
            t == s@.skip(from as int),
            sign_split(s@) == (neg, t),
            big_int_value(ten) == 10,
            big_int_value(acc) == digits_val(t.take(i - from)),
            all_dec_digits(t.take(i - from)),
        decreases n - i,
    {
        let c = s.get_char(i);
        let u = c as u32;
        proof {
            assert(t[i - from] == s@[i as int]);
            assert(t.take(i - from + 1).drop_last() =~= t.take(i - from));
            assert(t.take(i - from + 1).last() == t[i - from]);
        }
        if !(48 <= u && u <= 57) {
            proof {
                assert(!is_dec_digit(t[i - from]));
                assert(!all_dec_digits(t));
            }
            return None;
        }
        let d = bi_from_u64((u - 48) as u64);
        acc = bi_add(&bi_mul(&acc, &ten), &d);
        i = i + 1;
    }
    proof {
        assert(t.take(n - from) =~= t);
    }
    if neg {
        Some(bi_neg(&acc))
    } else {
        Some(acc)
    }
}

/// The value, negated when the sign says so.
pub open spec fn apply_sign(neg: bool, v: int) -> int {
    if neg {
        -v
    } else {
        v
    }
}

/// The exponent tail of a decimal string: an optionally signed digit
/// string; the digits must fit a 64-bit word and the resulting scale a
/// signed 64-bit word — resource caps that keep results representable.
pub open spec fn parse_exp(mant: int, frac_len: int, e: Seq<char>) -> Option<(int, int)> {
    let (eneg, d) = sign_split(e);
    if d.len() > 0 && all_dec_digits(d) && digits_val(d) <= u64::MAX {
        let scale = frac_len - apply_sign(eneg, digits_val(d) as int);
        if i64::MIN <= scale <= i64::MAX {
            Some((mant, scale))
        } else {
            None
        }
    } else {
        None
    }
}

/// What a string parses to as a decimal: sign, integer digits, an
/// optional fraction after a point (at least one digit on one of the two
/// sides), and an optional exponent. The result is the pair of mantissa
/// and scale: the number stood for is `mantissa * 10^(-scale)`.
pub open spec fn parse_decimal(s: Seq<char>) -> Option<(int, int)> {
    let (neg, t) = sign_split(s);
    let n1 = span_digits(t);
    if t.len() == 0 {
        None
    } else if n1 == t.len() {
        Some((apply_sign(neg, digits_val(t) as int), 0))
    } else if t[n1] == '.' {
        let frac = t.skip(n1 + 1);
        let n2 = span_digits(frac);
        if n1 + n2 == 0 {
            None
        } else {
            let mant = apply_sign(neg, digits_val(t.take(n1) + frac.take(n2)) as int);
            if n2 == frac.len() {
                if n2 <= i64::MAX {
                    Some((mant, n2))
                } else {
                    None
                }
            } else if frac[n2] == 'e' || frac[n2] == 'E' {
                parse_exp(mant, n2, frac.skip(n2 + 1))
            } else {
                None
            }
        }
    } else if (t[n1] == 'e' || t[n1] == 'E') && n1 > 0 {
        parse_exp(apply_sign(neg, digits_val(t.take(n1)) as int), 0, t.skip(n1 + 1))
    } else {
        None
    }
}

/// Whether the character at `i` is a decimal digit.
fn digit_at(s: &str, i: usize) -> (r: bool)
    requires
        i < s@.len(),
    ensures
        r == is_dec_digit(s@[i as int]),
{
    let u = s.get_char(i) as u32;
    48 <= u && u <= 57
}

/// Parses the exponent tail beginning at `from2`.
fn parse_exp_exec(s: &str, from2: usize, mant: num_bigint::BigInt, frac_len: usize) -> (r: Option<
    (num_bigint::BigInt, i64),
>)
    requires
        from2 <= s@.len(),
    ensures
        r is Some <==> parse_exp(big_int_value(mant), frac_len as int, s@.skip(from2 as int))
            is Some,
        r matches Some(p) ==> {
            &&& Some((big_int_value(p.0), p.1 as int)) == parse_exp(
                big_int_value(mant),
                frac_len as int,
                s@.skip(from2 as int),
            )
            &&& big_int_value(p.0) == big_int_value(mant)
        },
{
    let ghost e = s@.skip(from2 as int);
    let n = s.unicode_len();
    let (eneg, from3): (bool, usize) = if from2 < n && s.get_char(from2) == '-' {
        (true, from2 + 1)
    } else if from2 < n && s.get_char(from2) == '+' {
        (false, from2 + 1)
    } else {
        (false, from2)
    };
    proof {
        if from3 == from2 {
            assert(sign_split(e) == (false, e));
        } else {
            assert(e[0] == s@[from2 as int]);
            assert(e.skip(1) =~= s@.skip(from3 as int));
        }
        assert(s@.skip(from3 as int) == sign_split(e).1);
    }
    let ev = match parse_u64_digits(s, from3) {
        Some(v) => v,
        None => {
            return None;
        },
    };
    let scale: i128 = if eneg {
        frac_len as i128 + ev as i128
    } else {
        frac_len as i128 - ev as i128
    };
    if scale < i64::MIN as i128 || scale > i64::MAX as i128 {
        return None;
    }
    Some((mant, scale as i64))
}

/// A decimal string, parsed to an arbitrary-precision mantissa and a
/// scale: sign, integer digits, optional fraction, optional exponent.
#[verifier::rlimit(100)]
pub fn parse_big_decimal_str(s: &str) -> (r: Option<(num_bigint::BigInt, i64)>)
    ensures
        r is Some <==> parse_decimal(s@) is Some,
        r matches Some(p) ==> Some((big_int_value(p.0), p.1 as int)) == parse_decimal(s@),
{
    let n = s.unicode_len();
    let (neg, from): (bool, usize) = if n > 0 && s.get_char(0) == '-' {
        (true, 1)
    } else if n > 0 && s.get_char(0) == '+' {
        (false, 1)
    } else {
        (false, 0)
    };
    proof {
        if from == 0 {
            assert(s@.skip(0) =~= s@);
        }
    }
    let ghost t = s@.skip(from as int);
    let ten = bi_from_u64(10);
    let mut acc = bi_from_u64(0);
    let mut i: usize = from;
    while i < n && digit_at(s, i)
        invariant
            from <= i <= n,
            n == s@.len(),
            t == s@.skip(from as int),
            sign_split(s@) == (neg, t),
            big_int_value(ten) == 10,
            big_int_value(acc) == digits_val(t.take(i - from)),
            all_dec_digits(t.take(i - from)),
        decreases n - i,
    {
        let c = s.get_char(i);
        let u = c as u32;
        proof {
            assert(t[i - from] == s@[i as int]);
            assert(t.take(i - from + 1).drop_last() =~= t.take(i - from));
            assert(t.take(i - from + 1).last() == t[i - from]);
        }
        let d = bi_from_u64((u - 48) as u64);
        acc = bi_add(&bi_mul(&acc, &ten), &d);
        i = i + 1;
    }
    let n1 = i - from;
    proof {
        if i < n {
            assert(t[n1 as int] == s@[i as int]);
        }
        lemma_span_digits(t, n1 as int);
    }
    if i == n {
        if n1 == 0 {
            return None;
        }
        proof {
            assert(t.take(n1 as int) =~= t);
        }
        let m = if neg {
            bi_neg(&acc)
        } else {
            acc
        };
        return Some((m, 0));
    }
    let c = s.get_char(i);
    if c == '.' {
        let ghost frac = t.skip(n1 as int + 1);
        i = i + 1;
        let mut n2: usize = 0;
        while i < n && digit_at(s, i)
            invariant
                from <= i <= n,
                n == s@.len(),
                t == s@.skip(from as int),
                sign_split(s@) == (neg, t),
                span_digits(t) == n1,
                n1 < t.len(),
                t[n1 as int] == '.',
                frac == t.skip(n1 as int + 1),
                i - from == n1 + 1 + n2,
                big_int_value(ten) == 10,
                big_int_value(acc) == digits_val(t.take(n1 as int) + frac.take(n2 as int)),
                all_dec_digits(frac.take(n2 as int)),
            decreases n - i,
        {
            let c2 = s.get_char(i);
            let u = c2 as u32;
            proof {
                assert(frac[n2 as int] == s@[i as int]);
                assert((t.take(n1 as int) + frac.take(n2 as int + 1)).drop_last() =~= t.take(
                    n1 as int,
                ) + frac.take(n2 as int));
                assert((t.take(n1 as int) + frac.take(n2 as int + 1)).last() == frac[n2 as int]);
            }
            let d = bi_from_u64((u - 48) as u64);
            acc = bi_add(&bi_mul(&acc, &ten), &d);
            n2 = n2 + 1;
            i = i + 1;
        }
        proof {
            if i < n {
                assert(frac[n2 as int] == s@[i as int]);
            }
            lemma_span_digits(frac, n2 as int);
        }
        if n1 == 0 && n2 == 0 {
            return None;
        }
        let m = if neg {
            bi_neg(&acc)
        } else {
            acc
        };
        if i == n {
            proof {
                assert(frac.take(n2 as int) =~= frac);
            }
            if (n2 as u64) > 9_223_372_036_854_775_807u64 {
                return None;
            }
            return Some((m, n2 as i64));
        }
        let c2 = s.get_char(i);
        if c2 == 'e' || c2 == 'E' {
            proof {
                assert(frac.skip(n2 as int + 1) =~= s@.skip(i as int + 1));
            }
            return parse_exp_exec(s, i + 1, m, n2);
        }
        return None;
    }
    if (c == 'e' || c == 'E') && n1 > 0 {
        let m = if neg {
            bi_neg(&acc)
        } else {
            acc
        };
        proof {
            assert(t.skip(n1 as int + 1) =~= s@.skip(i as int + 1));
        }
        return parse_exp_exec(s, i + 1, m, 0);
    }
    None
}

/// If one more digit overflows the accumulator, the whole string's value
/// is out of range.
proof fn lemma_overflow(t: Seq<char>, i: int, acc: nat, d: nat)
    requires
        0 <= i < t.len(),
        acc == digits_val(t.take(i)),
        d == dec_digit_val(t[i]),
        acc * 10 + d > u64::MAX,
    ensures
        digits_val(t) > u64::MAX,
{
    assert(t.take(i + 1).drop_last() =~= t.take(i));
    assert(t.take(i + 1).last() == t[i]);
    assert(digits_val(t.take(i + 1)) == acc * 10 + d);
    lemma_digits_val_prefix(t, i + 1);
}

} // verus!
