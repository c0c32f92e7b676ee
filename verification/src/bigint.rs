//! Arbitrary-precision integers for the host operations.
//!
//! The bridge performs its big-integer arithmetic through `num_bigint`.
//! The value a `num_bigint::BigInt` stands for is named by the
//! uninterpreted function [`big_int_value`]; every trusted wrapper below
//! states what the called `num_bigint` operation does to that value, and
//! all verified arithmetic in the crate is proved against those contracts.

use vstd::prelude::*;

verus! {

#[verifier::external_type_specification]
#[verifier::external_body]
pub struct ExBigInt(num_bigint::BigInt);

/// The mathematical integer a `num_bigint::BigInt` holds.
pub uninterp spec fn big_int_value(n: num_bigint::BigInt) -> int;

/// The integer whose two's-complement OR this is; relied on for
/// `num_bigint`'s `BitOr`.
pub uninterp spec fn int_bit_or(x: int, y: int) -> int;

/// The integer whose two's-complement AND this is; relied on for
/// `num_bigint`'s `BitAnd`.
pub uninterp spec fn int_bit_and(x: int, y: int) -> int;

pub open spec fn abs_int(x: int) -> int {
    if x >= 0 {
        x
    } else {
        -x
    }
}

/// `b` raised to `e`.
pub open spec fn pow_int(b: int, e: nat) -> int
    decreases e,
{
    if e == 0 {
        1
    } else {
        b * pow_int(b, (e - 1) as nat)
    }
}

pub open spec fn pow2(e: nat) -> int {
    pow_int(2, e)
}

pub open spec fn pow10(e: nat) -> int {
    pow_int(10, e)
}

/// Number of binary digits of a non-negative integer; zero for zero.
pub open spec fn bit_len(n: nat) -> nat
    decreases n,
{
    if n == 0 {
        0
    } else {
        1 + bit_len(n / 2)
    }
}

/// Division truncated toward zero, as the big-integer engine computes it.
pub open spec fn t_div(x: int, y: int) -> int {
    if (x < 0) == (y < 0) {
        abs_int(x) / abs_int(y)
    } else {
        -(abs_int(x) / abs_int(y))
    }
}

/// The remainder matching [`t_div`]: it carries the sign of the dividend
/// and satisfies `t_div(x, y) * y + t_rem(x, y) == x`.
pub open spec fn t_rem(x: int, y: int) -> int {
    x - y * t_div(x, y)
}

/// Value of a big-endian magnitude byte string.
pub open spec fn be_value(s: Seq<u8>) -> int
    decreases s.len(),
{
    if s.len() == 0 {
        0
    } else {
        be_value(s.drop_last()) * 256 + s.last()
    }
}

/// Value of a little-endian unsigned byte string.
pub open spec fn le_value(s: Seq<u8>) -> int
    decreases s.len(),
{
    if s.len() == 0 {
        0
    } else {
        s.first() + 256 * le_value(s.drop_first())
    }
}

/// Value of a little-endian two's-complement byte string.
pub open spec fn signed_le_value(s: Seq<u8>) -> int {
    if s.len() == 0 {
        0
    } else if s.last() >= 0x80 {
        le_value(s) - pow2(8 * s.len())
    } else {
        le_value(s)
    }
}

/// The character for one decimal or hexadecimal digit (lower case).
pub open spec fn digit_char(d: nat) -> char {
    if d < 10 {
        ((d + 48) as u8) as char
    } else {
        ((d + 87) as u8) as char
    }
}

/// Decimal digit string of a non-negative integer, no leading zeros.
pub open spec fn dec_digits(n: nat) -> Seq<char>
    decreases n,
{
    if n < 10 {
        seq![digit_char(n)]
    } else {
        dec_digits(n / 10).push(digit_char(n % 10))
    }
}

/// Decimal rendering of an integer: optional minus sign, then digits.
pub open spec fn dec_string_of(x: int) -> Seq<char> {
    if x < 0 {
        seq!['-'] + dec_digits(abs_int(x) as nat)
    } else {
        dec_digits(x as nat)
    }
}

/// The gas-accounting size of a big integer, in bytes.
pub open spec fn big_int_size(v: int) -> u64 {
    crate::gas::cap64(bit_len(abs_int(v) as nat) as int / 8 + 1)
}

/// The gas size of a big integer, computed from its bit length.
pub(crate) fn bi_gas_size(x: &num_bigint::BigInt) -> (r: u64)
    ensures
        r == big_int_size(big_int_value(*x)),
{
    let b = bi_bits(x);
    b / 8 + 1
}

/// For every pair of operands with a non-zero divisor, the truncated
/// quotient and its remainder reassemble the dividend exactly:
/// `(x / y) * y + (x % y) == x`. Division and modulo by zero, by
/// contrast, always fail deterministically in the host operations.
pub proof fn lemma_div_mod_identity(x: int, y: int)
    requires
        y != 0,
    ensures
        t_div(x, y) * y + t_rem(x, y) == x,
{
    let q = t_div(x, y);
    assert(t_rem(x, y) == x - y * q);
    assert(q * y + (x - y * q) == x) by (nonlinear_arith);
}

/// The remainder of truncated division is smaller in magnitude than the
/// divisor and carries the dividend's sign (or is zero).
pub proof fn lemma_rem_bounds(x: int, y: int)
    requires
        y != 0,
    ensures
        abs_int(t_rem(x, y)) < abs_int(y),
        x >= 0 ==> t_rem(x, y) >= 0,
        x <= 0 ==> t_rem(x, y) <= 0,
{
    let a = abs_int(x);
    let b = abs_int(y);
    let q = a / b;
    vstd::arithmetic::div_mod::lemma_fundamental_div_mod(a, b);
    vstd::arithmetic::div_mod::lemma_mod_division_less_than_divisor(a, b);
    assert(b * q + a % b == a);
    assert(0 <= a % b < b);
    assert(b * q == q * b) by (nonlinear_arith);
    if (x < 0) == (y < 0) {
        assert(t_div(x, y) == q);
        if x >= 0 {
            assert(t_rem(x, y) == a - y * q);
            assert(y * q == q * b) by (nonlinear_arith)
                requires
                    y == b,
            ;
        } else {
            assert(t_rem(x, y) == x - y * q);
            assert(y * q == -(q * b)) by (nonlinear_arith)
                requires
                    y == -b,
            ;
        }
    } else {
        assert(t_div(x, y) == -q);
        if x >= 0 {
            assert(y * -q == q * b) by (nonlinear_arith)
                requires
                    y == -b,
            ;
        } else {
            assert(y * -q == -(q * b)) by (nonlinear_arith)
                requires
                    y == b,
            ;
        }
    }
}

/// Relies on `num_bigint`'s `Add`: the sum of the two values.
#[verifier::external_body]
pub(crate) fn bi_add(x: &num_bigint::BigInt, y: &num_bigint::BigInt) -> (r: num_bigint::BigInt)
    ensures
        big_int_value(r) == big_int_value(*x) + big_int_value(*y),
{
    x + y
}

/// Relies on `num_bigint`'s `Sub`: the difference of the two values.
#[verifier::external_body]
pub(crate) fn bi_sub(x: &num_bigint::BigInt, y: &num_bigint::BigInt) -> (r: num_bigint::BigInt)
    ensures
        big_int_value(r) == big_int_value(*x) - big_int_value(*y),
{
    x - y
}

/// Relies on `num_bigint`'s `Mul`: the product of the two values.
#[verifier::external_body]
pub(crate) fn bi_mul(x: &num_bigint::BigInt, y: &num_bigint::BigInt) -> (r: num_bigint::BigInt)
    ensures
        big_int_value(r) == big_int_value(*x) * big_int_value(*y),
{
    x * y
}

/// Relies on `num_bigint::BigInt::checked_div`: `None` exactly on a zero
/// divisor, otherwise the quotient truncated toward zero.
#[verifier::external_body]
pub(crate) fn bi_checked_div(x: &num_bigint::BigInt, y: &num_bigint::BigInt) -> (r: Option<
    num_bigint::BigInt,
>)
    ensures
        r is None <==> big_int_value(*y) == 0,
        r matches Some(q) ==> big_int_value(q) == t_div(big_int_value(*x), big_int_value(*y)),
{
    x.checked_div(y)
}

/// Relies on `num_bigint`'s `Rem`: remainder of truncated division,
/// carrying the dividend's sign. Panics on zero, hence the precondition.
#[verifier::external_body]
pub(crate) fn bi_rem(x: &num_bigint::BigInt, y: &num_bigint::BigInt) -> (r: num_bigint::BigInt)
    requires
        big_int_value(*y) != 0,
    ensures
        big_int_value(r) == t_rem(big_int_value(*x), big_int_value(*y)),
{
    x % y
}

/// Relies on `num_bigint`'s `Neg`.
#[verifier::external_body]
pub(crate) fn bi_neg(x: &num_bigint::BigInt) -> (r: num_bigint::BigInt)
    ensures
        big_int_value(r) == -big_int_value(*x),
{
    -x
}

/// Relies on `num_bigint::BigInt::pow`.
#[verifier::external_body]
pub(crate) fn bi_pow(x: &num_bigint::BigInt, e: u32) -> (r: num_bigint::BigInt)
    ensures
        big_int_value(r) == pow_int(big_int_value(*x), e as nat),
{
    x.pow(e)
}

/// Relies on `num_bigint`'s `Shl`: multiplication by a power of two.
#[verifier::external_body]
pub(crate) fn bi_shl(x: &num_bigint::BigInt, bits: u8) -> (r: num_bigint::BigInt)
    ensures
        big_int_value(r) == big_int_value(*x) * pow2(bits as nat),
{
    x << bits
}

/// Relies on `num_bigint`'s `Shr`: arithmetic shift, i.e. division by a
/// power of two rounded toward negative infinity.
#[verifier::external_body]
pub(crate) fn bi_shr(x: &num_bigint::BigInt, bits: u8) -> (r: num_bigint::BigInt)
    ensures
        big_int_value(r) == big_int_value(*x) / pow2(bits as nat),
{
    x >> bits
}

/// Relies on `num_bigint`'s `BitOr`, named by [`int_bit_or`].
#[verifier::external_body]
pub(crate) fn bi_bitor(x: &num_bigint::BigInt, y: &num_bigint::BigInt) -> (r: num_bigint::BigInt)
    ensures
        big_int_value(r) == int_bit_or(big_int_value(*x), big_int_value(*y)),
{
    x | y
}

/// Relies on `num_bigint`'s `BitAnd`, named by [`int_bit_and`].
#[verifier::external_body]
pub(crate) fn bi_bitand(x: &num_bigint::BigInt, y: &num_bigint::BigInt) -> (r: num_bigint::BigInt)
    ensures
        big_int_value(r) == int_bit_and(big_int_value(*x), big_int_value(*y)),
{
    x & y
}

/// Relies on `num_bigint::BigInt::sign`: the value is zero exactly when
/// the sign is `NoSign`.
#[verifier::external_body]
pub(crate) fn bi_is_zero(x: &num_bigint::BigInt) -> (r: bool)
    ensures
        r <==> big_int_value(*x) == 0,
{
    matches!(x.sign(), num_bigint::Sign::NoSign)
}

/// Relies on `num_bigint::BigInt::sign`: the value is negative exactly
/// when the sign is `Minus`.
#[verifier::external_body]
pub(crate) fn bi_is_negative(x: &num_bigint::BigInt) -> (r: bool)
    ensures
        r <==> big_int_value(*x) < 0,
{
    matches!(x.sign(), num_bigint::Sign::Minus)
}

/// Relies on `num_bigint`'s `PartialEq`: equality of the two values.
#[verifier::external_body]
pub(crate) fn bi_eq(x: &num_bigint::BigInt, y: &num_bigint::BigInt) -> (r: bool)
    ensures
        r <==> big_int_value(*x) == big_int_value(*y),
{
    x == y
}

/// Relies on `num_bigint`'s `From<u64>`.
#[verifier::external_body]
pub(crate) fn bi_from_u64(v: u64) -> (r: num_bigint::BigInt)
    ensures
        big_int_value(r) == v as int,
{
    num_bigint::BigInt::from(v)
}

/// Relies on `num_bigint`'s `From<i64>`.
#[verifier::external_body]
pub(crate) fn bi_from_i64(v: i64) -> (r: num_bigint::BigInt)
    ensures
        big_int_value(r) == v as int,
{
    num_bigint::BigInt::from(v)
}

/// Relies on `num_bigint`'s `Clone`.
#[verifier::external_body]
pub(crate) fn bi_clone(x: &num_bigint::BigInt) -> (r: num_bigint::BigInt)
    ensures
        big_int_value(r) == big_int_value(*x),
{
    x.clone()
}

/// Relies on `num_bigint::BigInt::bits`: the bit length of the magnitude,
/// zero exactly for the value zero.
#[verifier::external_body]
pub(crate) fn bi_bits(x: &num_bigint::BigInt) -> (r: u64)
    ensures
        r == bit_len(abs_int(big_int_value(*x)) as nat),
{
    x.bits()
}

/// Relies on `num_bigint::BigInt::to_bytes_be`: the magnitude as minimal
/// big-endian bytes; the value zero gives the single byte `0`.
#[verifier::external_body]
pub(crate) fn bi_to_bytes_be_mag(x: &num_bigint::BigInt) -> (r: Vec<u8>)
    ensures
        r@.len() >= 1,
        be_value(r@) == abs_int(big_int_value(*x)),
        big_int_value(*x) != 0 ==> r@.first() != 0,
        big_int_value(*x) == 0 ==> r@ =~= seq![0u8],
{
    x.to_bytes_be().1
}

/// Relies on `num_bigint::BigInt::to_signed_bytes_le`: the value in
/// two's-complement little-endian bytes.
#[verifier::external_body]
pub(crate) fn bi_to_signed_bytes_le(x: &num_bigint::BigInt) -> (r: Vec<u8>)
    ensures
        r@.len() >= 1,
        signed_le_value(r@) == big_int_value(*x),
{
    x.to_signed_bytes_le()
}

/// Relies on `num_bigint::BigInt::to_str_radix` with radix 10: the decimal
/// rendering, a minus sign first for negative values, no leading zeros.
#[verifier::external_body]
pub(crate) fn bi_to_dec_string(x: &num_bigint::BigInt) -> (r: String)
    ensures
        r@ == dec_string_of(big_int_value(*x)),
{
    x.to_str_radix(10)
}

} // verus!
