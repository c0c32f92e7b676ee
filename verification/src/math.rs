//! The arithmetic, parsing, hashing and encoding host operations.
//!
//! Each operation charges its complexity-class gas first; division and
//! modulo by zero, malformed decimal strings and out-of-range results are
//! deterministic errors carrying the offending input's description.

use vstd::prelude::*;
use vstd::string::{StringExecFns, StrSliceExecFns};
use crate::bigdec::{BigDecimal, dec_add, dec_sub, dec_mul, dec_div, dec_eq};
use crate::bigint::{
    abs_int, be_value, bi_add, bi_bitand, bi_bitor, bi_checked_div, bi_gas_size, bi_is_zero,
    bi_mul, bi_pow, bi_rem, bi_shl, bi_shr, bi_sub, bi_to_bytes_be_mag, bi_to_dec_string,
    bi_to_signed_bytes_le, big_int_size, big_int_value, dec_string_of, int_bit_and, int_bit_or,
    pow2, pow_int, signed_le_value, t_div, t_rem,
};
use crate::codec::{
    all_hex, base58_of, bs58_encode, bytes_to_string_lossy, h160_parse, hex_digits_value,
    hex_encode, hex_seq, hex_trim, keccak256, keccak256_of, lemma_hex_seq_value,
    lemma_hex_trim_at, lemma_hex_trim_value, lossy_utf8, string_to_h160, trim_trailing_nul, H160,
};
use crate::errors::DeterministicHostError;
use crate::gas::{
    cap64, gas_exponential, gas_linear, gas_max, gas_min, gas_mul, sat_add, spec_gas_exponential,
    spec_gas_linear, spec_gas_max, spec_gas_min, spec_gas_mul, spec_sat_add, GasCounter,
};
use crate::host::HostExports;
use crate::parse::{parse_big_decimal_str, parse_big_int_str, parse_decimal, parse_i64,
    parse_i64_str, parse_int, parse_u64, parse_u64_str};
use vstd::utf8::{valid_utf8, decode_utf8};

verus! {

broadcast use vstd::std_specs::vec::group_vec_axioms, vstd::seq::group_seq_axioms;

impl HostExports {
    /// The sum of two big integers; gas is linear in the larger operand.
    pub fn big_int_plus(
        &self,
        x: num_bigint::BigInt,
        y: num_bigint::BigInt,
        gas: &mut GasCounter,
    ) -> (r: Result<num_bigint::BigInt, DeterministicHostError>)
        ensures
            final(gas).budget == old(gas).budget,
            final(gas).used == spec_sat_add(
                old(gas).used,
                spec_gas_max(big_int_size(big_int_value(x)), big_int_size(big_int_value(y))),
            ),
            r is Ok <==> final(gas).used <= old(gas).budget,
            r matches Ok(v) ==> big_int_value(v) == big_int_value(x) + big_int_value(y),
    {
        gas.consume_host_fn(gas_max(bi_gas_size(&x), bi_gas_size(&y)))?;
        Ok(bi_add(&x, &y))
    }

    /// The difference of two big integers.
    pub fn big_int_minus(
        &self,
        x: num_bigint::BigInt,
        y: num_bigint::BigInt,
        gas: &mut GasCounter,
    ) -> (r: Result<num_bigint::BigInt, DeterministicHostError>)
        ensures
            final(gas).budget == old(gas).budget,
            final(gas).used == spec_sat_add(
                old(gas).used,
                spec_gas_max(big_int_size(big_int_value(x)), big_int_size(big_int_value(y))),
            ),
            r is Ok <==> final(gas).used <= old(gas).budget,
            r matches Ok(v) ==> big_int_value(v) == big_int_value(x) - big_int_value(y),
    {
        gas.consume_host_fn(gas_max(bi_gas_size(&x), bi_gas_size(&y)))?;
        Ok(bi_sub(&x, &y))
    }

    /// The product; gas is multiplicative, the true algorithmic cost.
    pub fn big_int_times(
        &self,
        x: num_bigint::BigInt,
        y: num_bigint::BigInt,
        gas: &mut GasCounter,
    ) -> (r: Result<num_bigint::BigInt, DeterministicHostError>)
        ensures
            final(gas).budget == old(gas).budget,
            final(gas).used == spec_sat_add(
                old(gas).used,
                spec_gas_mul(big_int_size(big_int_value(x)), big_int_size(big_int_value(y))),
            ),
            r is Ok <==> final(gas).used <= old(gas).budget,
            r matches Ok(v) ==> big_int_value(v) == big_int_value(x) * big_int_value(y),
    {
        gas.consume_host_fn(gas_mul(bi_gas_size(&x), bi_gas_size(&y)))?;
        Ok(bi_mul(&x, &y))
    }

    /// The quotient, truncated toward zero; a zero divisor is a
    /// deterministic error, a non-zero one always succeeds.
    pub fn big_int_divided_by(
        &self,
        x: num_bigint::BigInt,
        y: num_bigint::BigInt,
        gas: &mut GasCounter,
    ) -> (r: Result<num_bigint::BigInt, DeterministicHostError>)
        ensures
            final(gas).budget == old(gas).budget,
            final(gas).used == spec_sat_add(
                old(gas).used,
                spec_gas_mul(big_int_size(big_int_value(x)), big_int_size(big_int_value(y))),
            ),
            r is Ok <==> (final(gas).used <= old(gas).budget && big_int_value(y) != 0),
            r matches Ok(v) ==> big_int_value(v) == t_div(big_int_value(x), big_int_value(y)),
            (final(gas).used <= old(gas).budget && big_int_value(y) == 0) ==> (r matches Err(e)
                && e.message@ == "attempted to divide BigInt `"@ + dec_string_of(big_int_value(x))
                + "` by zero"@),
    {
        gas.consume_host_fn(gas_mul(bi_gas_size(&x), bi_gas_size(&y)))?;
        match bi_checked_div(&x, &y) {
            Some(q) => Ok(q),
            None => {
                let rendered = bi_to_dec_string(&x);
                Err(
                    DeterministicHostError::with_input(
                        "attempted to divide BigInt `",
                        rendered.as_str(),
                        "` by zero",
                    ),
                )
            },
        }
    }

    /// The remainder of truncated division, carrying the dividend's
    /// sign; a zero divisor is a deterministic error.
    pub fn big_int_mod(
        &self,
        x: num_bigint::BigInt,
        y: num_bigint::BigInt,
        gas: &mut GasCounter,
    ) -> (r: Result<num_bigint::BigInt, DeterministicHostError>)
        ensures
            final(gas).budget == old(gas).budget,
            final(gas).used == spec_sat_add(
                old(gas).used,
                spec_gas_mul(big_int_size(big_int_value(x)), big_int_size(big_int_value(y))),
            ),
            r is Ok <==> (final(gas).used <= old(gas).budget && big_int_value(y) != 0),
            r matches Ok(v) ==> big_int_value(v) == t_rem(big_int_value(x), big_int_value(y)),
            (final(gas).used <= old(gas).budget && big_int_value(y) == 0) ==> (r matches Err(e)
                && e.message@ == "attempted to calculate the remainder of `"@ + dec_string_of(
                big_int_value(x),
            ) + "` with a divisor of zero"@),
    {
        gas.consume_host_fn(gas_mul(bi_gas_size(&x), bi_gas_size(&y)))?;
        if bi_is_zero(&y) {
            let rendered = bi_to_dec_string(&x);
            return Err(
                DeterministicHostError::with_input(
                    "attempted to calculate the remainder of `",
                    rendered.as_str(),
                    "` with a divisor of zero",
                ),
            );
        }
        Ok(bi_rem(&x, &y))
    }

    /// The power; the exponent is a small bounded integer so the result
    /// stays tractable, and gas grows with it.
    pub fn big_int_pow(&self, x: num_bigint::BigInt, exp: u8, gas: &mut GasCounter) -> (r: Result<
        num_bigint::BigInt,
        DeterministicHostError,
    >)
        ensures
            final(gas).budget == old(gas).budget,
            final(gas).used == spec_sat_add(
                old(gas).used,
                spec_gas_exponential(big_int_size(big_int_value(x)), exp as nat),
            ),
            r is Ok <==> final(gas).used <= old(gas).budget,
            r matches Ok(v) ==> big_int_value(v) == pow_int(big_int_value(x), exp as nat),
    {
        gas.consume_host_fn(gas_exponential(bi_gas_size(&x), exp))?;
        Ok(bi_pow(&x, exp as u32))
    }

    /// Parses an optionally signed decimal string to a big integer; any
    /// other shape is a deterministic error naming the input.
    pub fn big_int_from_string(&self, s: String, gas: &mut GasCounter) -> (r: Result<
        num_bigint::BigInt,
        DeterministicHostError,
    >)
        ensures
            final(gas).budget == old(gas).budget,
            final(gas).used == spec_sat_add(
                old(gas).used,
                spec_gas_linear(cap64(s@.len() as int)),
            ),
            r is Ok <==> (final(gas).used <= old(gas).budget && parse_int(s@) is Some),
            r matches Ok(v) ==> Some(big_int_value(v)) == parse_int(s@),
            (final(gas).used <= old(gas).budget && parse_int(s@) is None) ==> (r matches Err(e)
                && e.message@ == "string is not a BigInt: `"@ + s@ + "`"@),
    {
        gas.consume_host_fn(gas_linear(s.as_str().unicode_len() as u64))?;
        match parse_big_int_str(s.as_str()) {
            Some(v) => Ok(v),
            None => Err(
                DeterministicHostError::with_input("string is not a BigInt: `", s.as_str(), "`"),
            ),
        }
    }

    /// Bitwise or of the two's-complement values.
    pub fn big_int_bit_or(
        &self,
        x: num_bigint::BigInt,
        y: num_bigint::BigInt,
        gas: &mut GasCounter,
    ) -> (r: Result<num_bigint::BigInt, DeterministicHostError>)
        ensures
            final(gas).budget == old(gas).budget,
            final(gas).used == spec_sat_add(
                old(gas).used,
                spec_gas_max(big_int_size(big_int_value(x)), big_int_size(big_int_value(y))),
            ),
            r is Ok <==> final(gas).used <= old(gas).budget,
            r matches Ok(v) ==> big_int_value(v) == int_bit_or(big_int_value(x), big_int_value(y)),
    {
        gas.consume_host_fn(gas_max(bi_gas_size(&x), bi_gas_size(&y)))?;
        Ok(bi_bitor(&x, &y))
    }

    /// Bitwise and of the two's-complement values; gas follows the
    /// smaller operand.
    pub fn big_int_bit_and(
        &self,
        x: num_bigint::BigInt,
        y: num_bigint::BigInt,
        gas: &mut GasCounter,
    ) -> (r: Result<num_bigint::BigInt, DeterministicHostError>)
        ensures
            final(gas).budget == old(gas).budget,
            final(gas).used == spec_sat_add(
                old(gas).used,
                spec_gas_min(big_int_size(big_int_value(x)), big_int_size(big_int_value(y))),
            ),
            r is Ok <==> final(gas).used <= old(gas).budget,
            r matches Ok(v) ==> big_int_value(v) == int_bit_and(big_int_value(x), big_int_value(y)),
    {
        gas.consume_host_fn(gas_min(bi_gas_size(&x), bi_gas_size(&y)))?;
        Ok(bi_bitand(&x, &y))
    }

    /// Multiplication by a power of two.
    pub fn big_int_left_shift(
        &self,
        x: num_bigint::BigInt,
        bits: u8,
        gas: &mut GasCounter,
    ) -> (r: Result<num_bigint::BigInt, DeterministicHostError>)
        ensures
            final(gas).budget == old(gas).budget,
            final(gas).used == spec_sat_add(
                old(gas).used,
                spec_gas_linear(spec_sat_add(big_int_size(big_int_value(x)), bits as u64)),
            ),
            r is Ok <==> final(gas).used <= old(gas).budget,
            r matches Ok(v) ==> big_int_value(v) == big_int_value(x) * pow2(bits as nat),
    {
        gas.consume_host_fn(gas_linear(sat_add(bi_gas_size(&x), bits as u64)))?;
        Ok(bi_shl(&x, bits))
    }

    /// Arithmetic shift right: division by a power of two rounded toward
    /// negative infinity.
    pub fn big_int_right_shift(
        &self,
        x: num_bigint::BigInt,
        bits: u8,
        gas: &mut GasCounter,
    ) -> (r: Result<num_bigint::BigInt, DeterministicHostError>)
        ensures
            final(gas).budget == old(gas).budget,
            final(gas).used == spec_sat_add(
                old(gas).used,
                spec_gas_linear(spec_sat_add(big_int_size(big_int_value(x)), bits as u64)),
            ),
            r is Ok <==> final(gas).used <= old(gas).budget,
            r matches Ok(v) ==> big_int_value(v) == big_int_value(x) / pow2(bits as nat),
    {
        gas.consume_host_fn(gas_linear(sat_add(bi_gas_size(&x), bits as u64)))?;
        Ok(bi_shr(&x, bits))
    }

    /// Prints the magnitude of `n` in hex: zero encodes as `0x0`, any
    /// other value as `0x` followed by its digits with no leading zero
    /// digit (possibly an odd number of them).
    pub fn big_int_to_hex(&self, n: num_bigint::BigInt, gas: &mut GasCounter) -> (r: Result<
        String,
        DeterministicHostError,
    >)
        ensures
            final(gas).budget == old(gas).budget,
            final(gas).used == spec_sat_add(
                old(gas).used,
                spec_gas_linear(big_int_size(big_int_value(n))),
            ),
            r is Ok <==> final(gas).used <= old(gas).budget,
            r matches Ok(s) ==> (big_int_value(n) == 0 ==> s@ == "0x0"@),
            r matches Ok(s) ==> (big_int_value(n) != 0 ==> {
                &&& s@.len() > 2
                &&& s@.take(2) == "0x"@
                &&& all_hex(s@.skip(2))
                &&& s@[2] != '0'
                &&& hex_digits_value(s@.skip(2)) == abs_int(big_int_value(n))
            }),
    {
        gas.consume_host_fn(gas_linear(bi_gas_size(&n)))?;
        if bi_is_zero(&n) {
            return Ok(String::from_str("0x0"));
        }
        let bytes = bi_to_bytes_be_mag(&n);
        let hs = hex_encode(&bytes);
        proof {
            lemma_hex_seq_value(bytes@);
        }
        let hn = hs.as_str().unicode_len();
        let mut j: usize = 0;
        while j < hn && hs.as_str().get_char(j) == '0'
            invariant
                j <= hn,
                hn == hs@.len(),
                hs@ == hex_seq(bytes@),
                bytes@.len() >= 1,
                be_value(bytes@) == abs_int(big_int_value(n)),
                big_int_value(n) != 0,
                forall|i: int| 0 <= i < j as int ==> #[trigger] hs@[i] == '0',
            decreases hn - j,
        {
            j = j + 1;
        }
        proof {
            lemma_hex_trim_at(hs@, j as int);
            lemma_hex_trim_value(hs@);
            lemma_hex_seq_value(bytes@);
            assert(hex_digits_value(hs@) == abs_int(big_int_value(n)));
            assert(hex_trim(hs@).len() > 0);
        }
        let trimmed = hs.as_str().substring_char(j, hn);
        let out = String::from_str("0x").concat(trimmed);
        proof {
            assert(out@.take(2) =~= "0x"@) by {
                reveal_strlit("0x");
            }
            assert(out@.skip(2) =~= hs@.skip(j as int)) by {
                reveal_strlit("0x");
            }
            assert(out@.skip(2) == hex_trim(hs@));
            assert(out@.len() > 2) by {
                reveal_strlit("0x");
            }
            assert(all_hex(out@.skip(2)));
            assert(out@[2] != '0') by {
                assert(out@[2] == out@.skip(2)[0]);
            }
            assert(hex_digits_value(out@.skip(2)) == abs_int(big_int_value(n)));
        }
        Ok(out)
    }

    /// Parses a strict decimal string as a signed 64-bit integer.
    pub fn json_to_i64(&self, json: String, gas: &mut GasCounter) -> (r: Result<
        i64,
        DeterministicHostError,
    >)
        ensures
            final(gas).budget == old(gas).budget,
            final(gas).used == spec_sat_add(
                old(gas).used,
                spec_gas_linear(cap64(json@.len() as int)),
            ),
            r is Ok <==> (final(gas).used <= old(gas).budget && parse_i64(json@) is Some),
            r matches Ok(v) ==> Some(v) == parse_i64(json@),
            (final(gas).used <= old(gas).budget && parse_i64(json@) is None) ==> (r matches Err(e)
                && e.message@ == "JSON `"@ + json@ + "` cannot be parsed as i64"@),
    {
        gas.consume_host_fn(gas_linear(json.as_str().unicode_len() as u64))?;
        match parse_i64_str(json.as_str()) {
            Some(v) => Ok(v),
            None => Err(
                DeterministicHostError::with_input(
                    "JSON `",
                    json.as_str(),
                    "` cannot be parsed as i64",
                ),
            ),
        }
    }

    /// Parses a strict decimal string as an unsigned 64-bit integer.
    pub fn json_to_u64(&self, json: String, gas: &mut GasCounter) -> (r: Result<
        u64,
        DeterministicHostError,
    >)
        ensures
            final(gas).budget == old(gas).budget,
            final(gas).used == spec_sat_add(
                old(gas).used,
                spec_gas_linear(cap64(json@.len() as int)),
            ),
            r is Ok <==> (final(gas).used <= old(gas).budget && parse_u64(json@) is Some),
            r matches Ok(v) ==> Some(v) == parse_u64(json@),
            (final(gas).used <= old(gas).budget && parse_u64(json@) is None) ==> (r matches Err(e)
                && e.message@ == "JSON `"@ + json@ + "` cannot be parsed as u64"@),
    {
        gas.consume_host_fn(gas_linear(json.as_str().unicode_len() as u64))?;
        match parse_u64_str(json.as_str()) {
            Some(v) => Ok(v),
            None => Err(
                DeterministicHostError::with_input(
                    "JSON `",
                    json.as_str(),
                    "` cannot be parsed as u64",
                ),
            ),
        }
    }

    /// Parses a strict decimal string as a big integer and returns its
    /// two's-complement little-endian bytes.
    pub fn json_to_big_int(&self, json: String, gas: &mut GasCounter) -> (r: Result<
        Vec<u8>,
        DeterministicHostError,
    >)
        ensures
            final(gas).budget == old(gas).budget,
            final(gas).used == spec_sat_add(
                old(gas).used,
                spec_gas_linear(cap64(json@.len() as int)),
            ),
            r is Ok <==> (final(gas).used <= old(gas).budget && parse_int(json@) is Some),
            r matches Ok(v) ==> v@.len() >= 1 && Some(signed_le_value(v@)) == parse_int(json@),
            (final(gas).used <= old(gas).budget && parse_int(json@) is None) ==> (r matches Err(e)
                && e.message@ == "JSON `"@ + json@ + "` is not a decimal string"@),
    {
        gas.consume_host_fn(gas_linear(json.as_str().unicode_len() as u64))?;
        match parse_big_int_str(json.as_str()) {
            Some(v) => Ok(bi_to_signed_bytes_le(&v)),
            None => Err(
                DeterministicHostError::with_input(
                    "JSON `",
                    json.as_str(),
                    "` is not a decimal string",
                ),
            ),
        }
    }

    /// The 256-bit Keccak digest of the input bytes.
    pub fn crypto_keccak_256(&self, input: Vec<u8>, gas: &mut GasCounter) -> (r: Result<
        Vec<u8>,
        DeterministicHostError,
    >)
        ensures
            final(gas).budget == old(gas).budget,
            final(gas).used == spec_sat_add(
                old(gas).used,
                spec_gas_linear(cap64(input@.len() as int)),
            ),
            r is Ok <==> final(gas).used <= old(gas).budget,
            r matches Ok(v) ==> v@ == keccak256_of(input@) && v@.len() == 32,
    {
        gas.consume_host_fn(gas_linear(input.len() as u64))?;
        Ok(keccak256(&input))
    }

    /// The base58 rendering of the bytes, useful for content identifiers
    /// stored as raw bytes.
    pub fn bytes_to_base58(&self, bytes: Vec<u8>, gas: &mut GasCounter) -> (r: Result<
        String,
        DeterministicHostError,
    >)
        ensures
            final(gas).budget == old(gas).budget,
            final(gas).used == spec_sat_add(
                old(gas).used,
                spec_gas_linear(cap64(bytes@.len() as int)),
            ),
            r is Ok <==> final(gas).used <= old(gas).budget,
            r matches Ok(s) ==> s@ == base58_of(bytes@),
    {
        gas.consume_host_fn(gas_linear(bytes.len() as u64))?;
        Ok(bs58_encode(&bytes))
    }

    /// Parses an address string, with or without a `0x` prefix.
    pub fn string_to_h160(&self, s: &str, gas: &mut GasCounter) -> (r: Result<
        H160,
        DeterministicHostError,
    >)
        ensures
            final(gas).budget == old(gas).budget,
            final(gas).used == spec_sat_add(old(gas).used, spec_gas_linear(cap64(s@.len() as int))),
            final(gas).used <= old(gas).budget ==> (r is Ok <==> h160_parse(s@) is Some),
            final(gas).used > old(gas).budget ==> r is Err,
            r matches Ok(h) ==> h.wf() && Some(h.bytes@) == h160_parse(s@),
            (final(gas).used <= old(gas).budget && h160_parse(s@) is None) ==> (r matches Err(e)
                && e.message@ == "failed to convert string to Address/H160: '"@ + s@ + "'"@),
    {
        gas.consume_host_fn(gas_linear(s.unicode_len() as u64))?;
        string_to_h160(s)
    }

    /// Converts raw bytes to a string: trailing NUL padding is stripped,
    /// valid UTF-8 decodes exactly, invalid sequences decode lossily and
    /// the flag says a diagnostic is owed — the conversion never fails.
    pub fn bytes_to_string(&self, bytes: Vec<u8>, gas: &mut GasCounter) -> (r: Result<
        (String, bool),
        DeterministicHostError,
    >)
        ensures
            final(gas).budget == old(gas).budget,
            final(gas).used == spec_sat_add(
                old(gas).used,
                spec_gas_linear(cap64(bytes@.len() as int)),
            ),
            r is Ok <==> final(gas).used <= old(gas).budget,
            r matches Ok(p) ==> (valid_utf8(trim_trailing_nul(bytes@)) ==> p.0@ == decode_utf8(
                trim_trailing_nul(bytes@),
            ) && !p.1),
            r matches Ok(p) ==> (!valid_utf8(trim_trailing_nul(bytes@)) ==> p.0@ == lossy_utf8(
                trim_trailing_nul(bytes@),
            ) && p.1),
    {
        gas.consume_host_fn(gas_linear(bytes.len() as u64))?;
        Ok(bytes_to_string_lossy(bytes))
    }

    /// The decimal rendering of a big integer.
    pub fn big_int_to_string(&self, x: num_bigint::BigInt, gas: &mut GasCounter) -> (r: Result<
        String,
        DeterministicHostError,
    >)
        ensures
            final(gas).budget == old(gas).budget,
            final(gas).used == spec_sat_add(
                old(gas).used,
                spec_gas_linear(big_int_size(big_int_value(x))),
            ),
            r is Ok <==> final(gas).used <= old(gas).budget,
            r matches Ok(s) ==> s@ == dec_string_of(big_int_value(x)),
    {
        gas.consume_host_fn(gas_linear(bi_gas_size(&x)))?;
        Ok(bi_to_dec_string(&x))
    }

    /// The sum of two big decimals.
    pub fn big_decimal_plus(
        &self,
        x: BigDecimal,
        y: BigDecimal,
        gas: &mut GasCounter,
    ) -> (r: Result<BigDecimal, DeterministicHostError>)
        ensures
            final(gas).budget == old(gas).budget,
            final(gas).used == spec_sat_add(
                old(gas).used,
                spec_gas_max(big_int_size(x.mantissa()), big_int_size(y.mantissa())),
            ),
            r is Ok <==> (final(gas).used <= old(gas).budget && abs_int(x.scale - y.scale)
                <= u32::MAX),
            r matches Ok(d) ==> (d.mantissa(), d.scale as int) == dec_add(
                x.mantissa(),
                x.scale as int,
                y.mantissa(),
                y.scale as int,
            ),
    {
        gas.consume_host_fn(gas_max(bi_gas_size(&x.digits), bi_gas_size(&y.digits)))?;
        x.add(&y)
    }

    /// The difference of two big decimals.
    pub fn big_decimal_minus(
        &self,
        x: BigDecimal,
        y: BigDecimal,
        gas: &mut GasCounter,
    ) -> (r: Result<BigDecimal, DeterministicHostError>)
        ensures
            final(gas).budget == old(gas).budget,
            final(gas).used == spec_sat_add(
                old(gas).used,
                spec_gas_max(big_int_size(x.mantissa()), big_int_size(y.mantissa())),
            ),
            r is Ok <==> (final(gas).used <= old(gas).budget && abs_int(x.scale - y.scale)
                <= u32::MAX),
            r matches Ok(d) ==> (d.mantissa(), d.scale as int) == dec_sub(
                x.mantissa(),
                x.scale as int,
                y.mantissa(),
                y.scale as int,
            ),
    {
        gas.consume_host_fn(gas_max(bi_gas_size(&x.digits), bi_gas_size(&y.digits)))?;
        x.sub(&y)
    }

    /// The product of two big decimals.
    pub fn big_decimal_times(
        &self,
        x: BigDecimal,
        y: BigDecimal,
        gas: &mut GasCounter,
    ) -> (r: Result<BigDecimal, DeterministicHostError>)
        ensures
            final(gas).budget == old(gas).budget,
            final(gas).used == spec_sat_add(
                old(gas).used,
                spec_gas_mul(big_int_size(x.mantissa()), big_int_size(y.mantissa())),
            ),
            r is Ok <==> (final(gas).used <= old(gas).budget && i64::MIN <= x.scale as int
                + y.scale as int <= i64::MAX),
            r matches Ok(d) ==> (d.mantissa(), d.scale as int) == dec_mul(
                x.mantissa(),
                x.scale as int,
                y.mantissa(),
                y.scale as int,
            ),
    {
        gas.consume_host_fn(gas_mul(bi_gas_size(&x.digits), bi_gas_size(&y.digits)))?;
        x.mul(&y)
    }

    /// The quotient of two big decimals, to the declared precision; a
    /// zero divisor always fails deterministically.
    pub fn big_decimal_divided_by(
        &self,
        x: BigDecimal,
        y: BigDecimal,
        gas: &mut GasCounter,
    ) -> (r: Result<BigDecimal, DeterministicHostError>)
        ensures
            final(gas).budget == old(gas).budget,
            final(gas).used == spec_sat_add(
                old(gas).used,
                spec_gas_mul(big_int_size(x.mantissa()), big_int_size(y.mantissa())),
            ),
            r is Ok <==> (final(gas).used <= old(gas).budget && y.mantissa() != 0 && i64::MIN
                <= x.scale as int - y.scale as int + crate::bigdec::DIV_PRECISION as int
                <= i64::MAX),
            r matches Ok(d) ==> (d.mantissa(), d.scale as int) == dec_div(
                x.mantissa(),
                x.scale as int,
                y.mantissa(),
                y.scale as int,
            ),
            (final(gas).used <= old(gas).budget && y.mantissa() == 0) ==> (r matches Err(e)
                && e.message@ == "attempted to divide BigDecimal `"@ + crate::bigdec::dec_rendering(
                x.mantissa(),
                x.scale as int,
            ) + "` by zero"@),
    {
        gas.consume_host_fn(gas_mul(bi_gas_size(&x.digits), bi_gas_size(&y.digits)))?;
        x.div(&y)
    }

    /// Numeric equality of two big decimals.
    pub fn big_decimal_equals(
        &self,
        x: BigDecimal,
        y: BigDecimal,
        gas: &mut GasCounter,
    ) -> (r: Result<bool, DeterministicHostError>)
        ensures
            final(gas).budget == old(gas).budget,
            final(gas).used == spec_sat_add(
                old(gas).used,
                spec_gas_min(big_int_size(x.mantissa()), big_int_size(y.mantissa())),
            ),
            r is Ok <==> (final(gas).used <= old(gas).budget && abs_int(x.scale - y.scale)
                <= u32::MAX),
            r matches Ok(b) ==> b == dec_eq(
                x.mantissa(),
                x.scale as int,
                y.mantissa(),
                y.scale as int,
            ),
    {
        gas.consume_host_fn(gas_min(bi_gas_size(&x.digits), bi_gas_size(&y.digits)))?;
        x.equals(&y)
    }

    /// The positional decimal rendering of a big decimal.
    pub fn big_decimal_to_string(&self, x: BigDecimal, gas: &mut GasCounter) -> (r: Result<
        String,
        DeterministicHostError,
    >)
        ensures
            final(gas).budget == old(gas).budget,
            final(gas).used == spec_sat_add(
                old(gas).used,
                spec_gas_linear(big_int_size(x.mantissa())),
            ),
            r is Ok <==> final(gas).used <= old(gas).budget,
            r matches Ok(s) ==> s@ == crate::bigdec::dec_rendering(x.mantissa(), x.scale as int),
    {
        gas.consume_host_fn(gas_linear(bi_gas_size(&x.digits)))?;
        Ok(x.to_dec_string())
    }

    /// Parses a decimal string — sign, digits, optional fraction and
    /// exponent — to a big decimal; anything else fails deterministically.
    pub fn big_decimal_from_string(&self, s: String, gas: &mut GasCounter) -> (r: Result<
        BigDecimal,
        DeterministicHostError,
    >)
        ensures
            final(gas).budget == old(gas).budget,
            final(gas).used == spec_sat_add(
                old(gas).used,
                spec_gas_linear(cap64(s@.len() as int)),
            ),
            r is Ok <==> (final(gas).used <= old(gas).budget && parse_decimal(s@) is Some),
            r matches Ok(d) ==> Some((d.mantissa(), d.scale as int)) == parse_decimal(s@),
            (final(gas).used <= old(gas).budget && parse_decimal(s@) is None) ==> (r matches Err(
                e,
            ) && e.message@ == "string is not a BigDecimal: '"@ + s@ + "'"@),
    {
        gas.consume_host_fn(gas_linear(s.as_str().unicode_len() as u64))?;
        match parse_big_decimal_str(s.as_str()) {
            Some(p) => Ok(BigDecimal { digits: p.0, scale: p.1 }),
            None => Err(
                DeterministicHostError::with_input(
                    "string is not a BigDecimal: '",
                    s.as_str(),
                    "'",
                ),
            ),
        }
    }
}

} // verus!
