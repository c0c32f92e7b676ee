//! Arbitrary-precision decimals.
//!
//! A decimal is a big-integer mantissa together with a scale: the value
//! stood for is `mantissa * 10^(-scale)`. Two decimals are equal as
//! numbers when their mantissas agree after aligning the scales.

use vstd::prelude::*;
use vstd::string::{StringExecFns, StrSliceExecFns};
use crate::bigint::{
    big_int_value, pow10, t_div, abs_int, bi_add, bi_sub, bi_mul, bi_checked_div, bi_eq,
    bi_from_u64, bi_pow, bi_is_zero, bi_clone, bi_is_negative, bi_neg, bi_to_dec_string,
    dec_digits, dec_string_of,
};
use crate::errors::DeterministicHostError;

verus! {

/// A run of zero digits.
pub open spec fn zeros(n: nat) -> Seq<char>
    decreases n,
{
    if n == 0 {
        Seq::empty()
    } else {
        zeros((n - 1) as nat).push('0')
    }
}

/// The positional decimal rendering of `m * 10^(-s)`: an optional minus
/// sign; a non-positive scale appends zeros, a scale below the digit
/// count inserts the point, a larger one pads with `0.` and zeros.
pub open spec fn dec_rendering(m: int, s: int) -> Seq<char> {
    let sign: Seq<char> = if m < 0 {
        seq!['-']
    } else {
        Seq::empty()
    };
    let ds = dec_digits(abs_int(m) as nat);
    if s <= 0 {
        sign + ds + zeros((-s) as nat)
    } else if s < ds.len() {
        sign + ds.take(ds.len() - s) + seq!['.'] + ds.skip(ds.len() - s)
    } else {
        sign + seq!['0', '.'] + zeros((s - ds.len()) as nat) + ds
    }
}

/// An arbitrary-precision decimal number: `digits * 10^(-scale)`.
#[derive(Debug)]
pub struct BigDecimal {
    /// The mantissa.
    pub digits: num_bigint::BigInt,
    /// Decimal places: positive scales shift the point left, negative
    /// scales append zeros.
    pub scale: i64,
}

impl BigDecimal {
    /// The mathematical mantissa.
    pub open spec fn mantissa(self) -> int {
        big_int_value(self.digits)
    }
}

/// Numeric equality of two (mantissa, scale) pairs: the mantissas agree
/// once both are brought to the larger scale.
pub open spec fn dec_eq(m1: int, s1: int, m2: int, s2: int) -> bool {
    if s1 <= s2 {
        m1 * pow10((s2 - s1) as nat) == m2
    } else {
        m1 == m2 * pow10((s1 - s2) as nat)
    }
}

/// The sum of two decimals, on the larger of the two scales.
pub open spec fn dec_add(m1: int, s1: int, m2: int, s2: int) -> (int, int) {
    if s1 >= s2 {
        (m1 + m2 * pow10((s1 - s2) as nat), s1)
    } else {
        (m1 * pow10((s2 - s1) as nat) + m2, s2)
    }
}

/// The difference of two decimals, on the larger of the two scales.
pub open spec fn dec_sub(m1: int, s1: int, m2: int, s2: int) -> (int, int) {
    if s1 >= s2 {
        (m1 - m2 * pow10((s1 - s2) as nat), s1)
    } else {
        (m1 * pow10((s2 - s1) as nat) - m2, s2)
    }
}

/// The product of two decimals: mantissas multiply, scales add.
pub open spec fn dec_mul(m1: int, s1: int, m2: int, s2: int) -> (int, int) {
    (m1 * m2, s1 + s2)
}

/// The extra decimal digits a quotient is computed with.
pub const DIV_PRECISION: u32 = 100;

/// The quotient of two decimals: the dividend is widened by the declared
/// precision, divided truncating toward zero, and the scales adjust.
pub open spec fn dec_div(m1: int, s1: int, m2: int, s2: int) -> (int, int) {
    (t_div(m1 * pow10(DIV_PRECISION as nat), m2), s1 - s2 + DIV_PRECISION)
}

impl BigDecimal {
    /// A copy standing for the same number.
    pub fn duplicate(&self) -> (r: BigDecimal)
        ensures
            r.mantissa() == self.mantissa(),
            r.scale == self.scale,
    {
        BigDecimal { digits: bi_clone(&self.digits), scale: self.scale }
    }

    /// The sum. Fails deterministically only where the scales lie
    /// further apart than any representable alignment.
    pub fn add(&self, other: &BigDecimal) -> (r: Result<BigDecimal, DeterministicHostError>)
        ensures
            r is Ok <==> abs_int(self.scale - other.scale) <= u32::MAX,
            r matches Ok(d) ==> (d.mantissa(), d.scale as int) == dec_add(
                self.mantissa(),
                self.scale as int,
                other.mantissa(),
                other.scale as int,
            ),
    {
        let ds: i128 = self.scale as i128 - other.scale as i128;
        if ds >= 0 {
            if ds > u32::MAX as i128 {
                return Err(DeterministicHostError::new("decimal scales lie too far apart"));
            }
            let p = bi_pow(&bi_from_u64(10), ds as u32);
            Ok(
                BigDecimal {
                    digits: bi_add(&self.digits, &bi_mul(&other.digits, &p)),
                    scale: self.scale,
                },
            )
        } else {
            if -ds > u32::MAX as i128 {
                return Err(DeterministicHostError::new("decimal scales lie too far apart"));
            }
            let p = bi_pow(&bi_from_u64(10), (-ds) as u32);
            Ok(
                BigDecimal {
                    digits: bi_add(&bi_mul(&self.digits, &p), &other.digits),
                    scale: other.scale,
                },
            )
        }
    }

    /// The difference, under the same alignment cap as the sum.
    pub fn sub(&self, other: &BigDecimal) -> (r: Result<BigDecimal, DeterministicHostError>)
        ensures
            r is Ok <==> abs_int(self.scale - other.scale) <= u32::MAX,
            r matches Ok(d) ==> (d.mantissa(), d.scale as int) == dec_sub(
                self.mantissa(),
                self.scale as int,
                other.mantissa(),
                other.scale as int,
            ),
    {
        let ds: i128 = self.scale as i128 - other.scale as i128;
        if ds >= 0 {
            if ds > u32::MAX as i128 {
                return Err(DeterministicHostError::new("decimal scales lie too far apart"));
            }
            let p = bi_pow(&bi_from_u64(10), ds as u32);
            Ok(
                BigDecimal {
                    digits: bi_sub(&self.digits, &bi_mul(&other.digits, &p)),
                    scale: self.scale,
                },
            )
        } else {
            if -ds > u32::MAX as i128 {
                return Err(DeterministicHostError::new("decimal scales lie too far apart"));
            }
            let p = bi_pow(&bi_from_u64(10), (-ds) as u32);
            Ok(
                BigDecimal {
                    digits: bi_sub(&bi_mul(&self.digits, &p), &other.digits),
                    scale: other.scale,
                },
            )
        }
    }

    /// The product. Fails deterministically only where the summed scale
    /// leaves the representable range.
    pub fn mul(&self, other: &BigDecimal) -> (r: Result<BigDecimal, DeterministicHostError>)
        ensures
            r is Ok <==> i64::MIN <= self.scale as int + other.scale as int <= i64::MAX,
            r matches Ok(d) ==> (d.mantissa(), d.scale as int) == dec_mul(
                self.mantissa(),
                self.scale as int,
                other.mantissa(),
                other.scale as int,
            ),
    {
        let s: i128 = self.scale as i128 + other.scale as i128;
        if s < i64::MIN as i128 || s > i64::MAX as i128 {
            return Err(DeterministicHostError::new("decimal scale leaves the representable range"));
        }
        Ok(BigDecimal { digits: bi_mul(&self.digits, &other.digits), scale: s as i64 })
    }

    /// The quotient, to the declared precision; a zero divisor is a
    /// deterministic error naming the dividend.
    pub fn div(&self, other: &BigDecimal) -> (r: Result<BigDecimal, DeterministicHostError>)
        ensures
            r is Ok <==> (other.mantissa() != 0 && i64::MIN <= self.scale as int
                - other.scale as int + DIV_PRECISION as int <= i64::MAX),
            r matches Ok(d) ==> (d.mantissa(), d.scale as int) == dec_div(
                self.mantissa(),
                self.scale as int,
                other.mantissa(),
                other.scale as int,
            ),
            other.mantissa() == 0 ==> (r matches Err(e) && e.message@
                == "attempted to divide BigDecimal `"@ + dec_rendering(
                self.mantissa(),
                self.scale as int,
            ) + "` by zero"@),
    {
        if bi_is_zero(&other.digits) {
            let rendered = self.to_dec_string();
            return Err(
                DeterministicHostError::with_input(
                    "attempted to divide BigDecimal `",
                    rendered.as_str(),
                    "` by zero",
                ),
            );
        }
        let s: i128 = self.scale as i128 - other.scale as i128 + DIV_PRECISION as i128;
        if s < i64::MIN as i128 || s > i64::MAX as i128 {
            return Err(DeterministicHostError::new("decimal scale leaves the representable range"));
        }
        let p = bi_pow(&bi_from_u64(10), DIV_PRECISION);
        let wide = bi_mul(&self.digits, &p);
        match bi_checked_div(&wide, &other.digits) {
            Some(q) => Ok(BigDecimal { digits: q, scale: s as i64 }),
            None => {
                proof {
                    assert(false);
                }
                Err(DeterministicHostError::new("attempted to divide a BigDecimal by zero"))
            },
        }
    }

    /// The positional decimal rendering of the number.
    pub fn to_dec_string(&self) -> (r: String)
        ensures
            r@ == dec_rendering(self.mantissa(), self.scale as int),
    {
        let neg = bi_is_negative(&self.digits);
        let mag = if neg {
            bi_neg(&self.digits)
        } else {
            bi_clone(&self.digits)
        };
        let ds = bi_to_dec_string(&mag);
        proof {
            assert(dec_string_of(abs_int(self.mantissa())) == dec_digits(
                abs_int(self.mantissa()) as nat,
            ));
        }
        let dlen = ds.as_str().unicode_len();
        let mut out = String::new();
        if neg {
            out.append("-");
            proof {
                reveal_strlit("-");
            }
        }
        let ghost sign: Seq<char> = if neg {
            seq!['-']
        } else {
            Seq::empty()
        };
        proof {
            assert(out@ =~= sign);
        }
        let s = self.scale;
        if s <= 0 {
            out.append(ds.as_str());
            let cnt: u64 = (-(s as i128)) as u64;
            let mut k: u64 = 0;
            while k < cnt
                invariant
                    k <= cnt,
                    out@ == sign + ds@ + zeros(k as nat),
                decreases cnt - k,
            {
                out.append("0");
                proof {
                    reveal_strlit("0");
                    assert("0"@ =~= seq!['0']);
                    assert(sign + ds@ + zeros(k as nat) + seq!['0'] =~= sign + ds@ + zeros(
                        (k + 1) as nat,
                    ));
                }
                k = k + 1;
            }
            proof {
                assert(sign + ds@ + zeros(0nat) =~= sign + ds@);
                assert(out@ =~= dec_rendering(self.mantissa(), self.scale as int));
            }
            out
        } else if (s as u64) < (dlen as u64) {
            let split = dlen - s as usize;
            let left = ds.as_str().substring_char(0, split);
            let right = ds.as_str().substring_char(split, dlen);
            out.append(left);
            out.append(".");
            out.append(right);
            proof {
                reveal_strlit(".");
                assert("."@ =~= seq!['.']);
                assert(left@ =~= ds@.take(split as int));
                assert(right@ =~= ds@.skip(split as int));
                assert(out@ =~= dec_rendering(self.mantissa(), self.scale as int));
            }
            out
        } else {
            out.append("0.");
            proof {
                reveal_strlit("0.");
                assert("0."@ =~= seq!['0', '.']);
            }
            let cnt: u64 = s as u64 - dlen as u64;
            let mut k: u64 = 0;
            while k < cnt
                invariant
                    k <= cnt,
                    out@ == sign + seq!['0', '.'] + zeros(k as nat),
                decreases cnt - k,
            {
                out.append("0");
                proof {
                    reveal_strlit("0");
                    assert("0"@ =~= seq!['0']);
                    assert(sign + seq!['0', '.'] + zeros(k as nat) + seq!['0'] =~= sign + seq![
                        '0',
                        '.',
                    ] + zeros((k + 1) as nat));
                }
                k = k + 1;
            }
            out.append(ds.as_str());
            proof {
                assert(out@ =~= dec_rendering(self.mantissa(), self.scale as int));
            }
            out
        }
    }

    /// Numeric equality, deciding `dec_eq`; the same alignment cap as
    /// the sum.
    pub fn equals(&self, other: &BigDecimal) -> (r: Result<bool, DeterministicHostError>)
        ensures
            r is Ok <==> abs_int(self.scale - other.scale) <= u32::MAX,
            r matches Ok(b) ==> b == dec_eq(
                self.mantissa(),
                self.scale as int,
                other.mantissa(),
                other.scale as int,
            ),
    {
        let ds: i128 = self.scale as i128 - other.scale as i128;
        if ds <= 0 {
            if -ds > u32::MAX as i128 {
                return Err(DeterministicHostError::new("decimal scales lie too far apart"));
            }
            let p = bi_pow(&bi_from_u64(10), (-ds) as u32);
            Ok(bi_eq(&bi_mul(&self.digits, &p), &other.digits))
        } else {
            if ds > u32::MAX as i128 {
                return Err(DeterministicHostError::new("decimal scales lie too far apart"));
            }
            let p = bi_pow(&bi_from_u64(10), ds as u32);
            Ok(bi_eq(&self.digits, &bi_mul(&other.digits, &p)))
        }
    }
}

} // verus!
