//! Hashing, encoding and byte/string conversions of the host API.
//!
//! Hex encoding and address parsing are specified exactly; the 256-bit
//! digest, the base58 rendering and the lossy UTF-8 decoding are named
//! results of the outside crates that compute them.

use vstd::prelude::*;
use vstd::string::StrSliceExecFns;
use tiny_keccak::Hasher;
use vstd::utf8::{valid_utf8, decode_utf8};
use crate::bigint::digit_char;
use crate::errors::DeterministicHostError;

verus! {

broadcast use vstd::std_specs::vec::group_vec_axioms, vstd::seq::group_seq_axioms;

/// Lower-case hexadecimal rendering of a byte string: two digits for
/// every byte, in order.
pub open spec fn hex_seq(bs: Seq<u8>) -> Seq<char>
    decreases bs,
{
    if bs.len() == 0 {
        Seq::empty()
    } else {
        hex_seq(bs.drop_last()).push(digit_char((bs.last() / 16) as nat)).push(
            digit_char((bs.last() % 16) as nat),
        )
    }
}

/// Whether the character is a hexadecimal digit, either case.
pub open spec fn is_hex_digit(c: char) -> bool {
    (48 <= c as u32 && c as u32 <= 57) || (97 <= c as u32 && c as u32 <= 102) || (65 <= c as u32
        && c as u32 <= 70)
}

/// The value of one hexadecimal digit.
pub open spec fn hex_digit_value(c: char) -> nat {
    if 48 <= c as u32 && c as u32 <= 57 {
        (c as u32 - 48) as nat
    } else if 97 <= c as u32 && c as u32 <= 102 {
        (c as u32 - 87) as nat
    } else if 65 <= c as u32 && c as u32 <= 70 {
        (c as u32 - 55) as nat
    } else {
        0
    }
}

/// The value of a hexadecimal digit string, most significant first.
pub open spec fn hex_digits_value(s: Seq<char>) -> nat
    decreases s,
{
    if s.len() == 0 {
        0
    } else {
        hex_digits_value(s.drop_last()) * 16 + hex_digit_value(s.last())
    }
}

/// Whether every character is a hexadecimal digit.
pub open spec fn all_hex(s: Seq<char>) -> bool {
    forall|i: int| 0 <= i < s.len() ==> is_hex_digit(#[trigger] s[i])
}

/// Leading zero digits, removed.
pub open spec fn hex_trim(s: Seq<char>) -> Seq<char>
    decreases s.len(),
{
    if s.len() > 0 && s[0] == '0' {
        hex_trim(s.skip(1))
    } else {
        s
    }
}

/// The value seen from the first hex digit.
pub proof fn lemma_hex_val_first(s: Seq<char>)
    requires
        s.len() > 0,
    ensures
        hex_digits_value(s) == hex_digit_value(s.first()) * crate::bigint::pow_int(
            16,
            (s.len() - 1) as nat,
        ) + hex_digits_value(s.drop_first()),
    decreases s.len(),
{
    if s.len() == 1 {
        assert(s.drop_first().len() == 0);
        assert(s.drop_last().len() == 0);
        assert(hex_digits_value(s.drop_last()) == 0);
        assert(s.last() == s.first());
        assert(crate::bigint::pow_int(16, 0) == 1);
    } else {
        lemma_hex_val_first(s.drop_last());
        assert(s.drop_last().first() == s.first());
        assert(s.drop_last().drop_first() =~= s.drop_first().drop_last());
        assert(s.drop_first().last() == s.last());
        let d = hex_digit_value(s.first()) as int;
        let p = crate::bigint::pow_int(16, (s.len() - 2) as nat);
        let m = hex_digits_value(s.drop_first().drop_last()) as int;
        let l = hex_digit_value(s.last()) as int;
        assert(hex_digits_value(s) == hex_digits_value(s.drop_last()) * 16 + l);
        assert(hex_digits_value(s.drop_last()) == d * p + m);
        assert(s.drop_first().len() > 0);
        assert(hex_digits_value(s.drop_first()) == m * 16 + l);
        assert((d * p + m) * 16 + l == d * (16 * p) + (m * 16 + l)) by (nonlinear_arith);
        assert(crate::bigint::pow_int(16, (s.len() - 1) as nat) == 16 * p);
    }
}

/// The hex rendering of a byte string reads back to its value, spends
/// two digits per byte, and holds hex digits only.
pub proof fn lemma_hex_seq_value(bs: Seq<u8>)
    ensures
        hex_digits_value(hex_seq(bs)) == crate::bigint::be_value(bs),
        hex_seq(bs).len() == 2 * bs.len(),
        all_hex(hex_seq(bs)),
    decreases bs.len(),
{
    if bs.len() > 0 {
        lemma_hex_seq_value(bs.drop_last());
        let prev = hex_seq(bs.drop_last());
        let hi = digit_char((bs.last() / 16) as nat);
        let lo = digit_char((bs.last() % 16) as nat);
        let t = prev.push(hi).push(lo);
        assert(t.drop_last() =~= prev.push(hi));
        assert(t.last() == lo);
        assert(prev.push(hi).drop_last() =~= prev);
        assert(prev.push(hi).last() == hi);
        assert(hex_digit_value(hi) == bs.last() / 16 && is_hex_digit(hi));
        assert(hex_digit_value(lo) == bs.last() % 16 && is_hex_digit(lo));
        let v = hex_digits_value(prev) as int;
        let a = (bs.last() / 16) as int;
        let b = (bs.last() % 16) as int;
        assert(hex_seq(bs) == t);
        assert(hex_digits_value(t) == hex_digits_value(prev.push(hi)) * 16 + hex_digit_value(lo));
        assert(hex_digits_value(prev.push(hi)) == hex_digits_value(prev) * 16 + hex_digit_value(
            hi,
        ));
        assert((v * 16 + a) * 16 + b == v * 256 + (a * 16 + b)) by (nonlinear_arith);
        assert(a * 16 + b == bs.last());
        assert(forall|i: int| 0 <= i < t.len() ==> is_hex_digit(#[trigger] t[i])) by {
            assert(forall|i: int|
                0 <= i < prev.len() ==> #[trigger] t[i] == prev[i] && is_hex_digit(prev[i]));
            assert(t[t.len() - 2] == hi && t[t.len() - 1] == lo);
        }
    }
}

/// Trimming leading zero digits keeps the value; what is left does not
/// start with a zero, is empty only for the value zero, and stays hex.
pub proof fn lemma_hex_trim_value(s: Seq<char>)
    ensures
        hex_digits_value(hex_trim(s)) == hex_digits_value(s),
        hex_trim(s).len() > 0 ==> hex_trim(s)[0] != '0',
        hex_trim(s).len() == 0 ==> hex_digits_value(s) == 0,
        all_hex(s) ==> all_hex(hex_trim(s)),
    decreases s.len(),
{
    if s.len() > 0 && s[0] == '0' {
        lemma_hex_val_first(s);
        assert(hex_digit_value('0') == 0);
        crate::parse::lemma_pow10_pos(0);
        let p = crate::bigint::pow_int(16, (s.len() - 1) as nat);
        assert(0 * p == 0) by (nonlinear_arith);
        assert(s.drop_first() =~= s.skip(1));
        lemma_hex_trim_value(s.skip(1));
        assert(all_hex(s) ==> all_hex(s.skip(1))) by {
            assert(forall|i: int| 0 <= i < s.len() - 1 ==> #[trigger] s.skip(1)[i] == s[i + 1]);
        }
    }
}

/// Where the first `k` digits read zero and the next does not, the trim
/// is the rest.
pub proof fn lemma_hex_trim_at(s: Seq<char>, k: int)
    requires
        0 <= k <= s.len(),
        forall|i: int| 0 <= i < k ==> #[trigger] s[i] == '0',
        k == s.len() || s[k] != '0',
    ensures
        hex_trim(s) == s.skip(k),
    decreases k,
{
    if k == 0 {
        assert(s.skip(0) =~= s);
    } else {
        assert(s[0] == '0');
        assert(forall|i: int| 0 <= i < k - 1 ==> #[trigger] s.skip(1)[i] == s[i + 1]);
        assert(k - 1 == s.skip(1).len() || s.skip(1)[k - 1] != '0');
        lemma_hex_trim_at(s.skip(1), k - 1);
        assert(s.skip(1).skip(k - 1) =~= s.skip(k));
    }
}

/// Relies on `hex::encode`: the lower-case hex rendering, two digits per
/// byte.
#[verifier::external_body]
pub(crate) fn hex_encode(bs: &Vec<u8>) -> (r: String)
    ensures
        r@ == hex_seq(bs@),
{
    hex::encode(bs)
}

/// A 160-bit address.
#[derive(Debug)]
pub struct H160 {
    /// The 20 address bytes, big-endian.
    pub bytes: Vec<u8>,
}

impl H160 {
    /// Exactly 20 bytes.
    pub open spec fn wf(self) -> bool {
        self.bytes@.len() == 20
    }

    /// The zero address, the default where a data source has none.
    pub fn zero() -> (r: H160)
        ensures
            r.wf(),
            forall|i: int| 0 <= i < 20 ==> r.bytes@[i] == 0u8,
    {
        let mut v: Vec<u8> = Vec::new();
        let mut i: usize = 0;
        while i < 20
            invariant
                i <= 20,
                v@.len() == i as int,
                forall|j: int| 0 <= j < i as int ==> v@[j] == 0u8,
            decreases 20 - i,
        {
            v.push(0u8);
            i = i + 1;
        }
        H160 { bytes: v }
    }

    /// A copy with the same bytes.
    pub fn duplicate(&self) -> (r: H160)
        ensures
            r.bytes@ == self.bytes@,
    {
        H160 { bytes: vstd::slice::slice_to_vec(self.bytes.as_slice()) }
    }
}

/// The optional `0x` prefix, removed.
pub open spec fn strip_0x(s: Seq<char>) -> Seq<char> {
    if s.len() >= 2 && s[0] == '0' && s[1] == 'x' {
        s.skip(2)
    } else {
        s
    }
}

/// The address a string parses to: after removing an optional `0x`
/// prefix there must be exactly 40 hexadecimal digits, two per byte.
pub open spec fn h160_parse(s: Seq<char>) -> Option<Seq<u8>> {
    let t = strip_0x(s);
    if t.len() == 40 && all_hex(t) {
        Some(
            Seq::new(
                20,
                |i: int| (hex_digit_value(t[2 * i]) * 16 + hex_digit_value(t[2 * i + 1])) as u8,
            ),
        )
    } else {
        None
    }
}

/// The value of one hexadecimal digit character, if it is one.
fn hex_digit_val(c: char) -> (r: Option<u8>)
    ensures
        r is Some <==> is_hex_digit(c),
        r matches Some(v) ==> v as nat == hex_digit_value(c),
{
    let u = c as u32;
    if 48 <= u && u <= 57 {
        Some((u - 48) as u8)
    } else if 97 <= u && u <= 102 {
        Some((u - 87) as u8)
    } else if 65 <= u && u <= 70 {
        Some((u - 55) as u8)
    } else {
        None
    }
}

/// Parses an address string: an optional `0x` prefix followed by exactly
/// 40 hexadecimal digits, in either case. Rejects everything else
/// deterministically.
pub fn string_to_h160(s: &str) -> (r: Result<H160, DeterministicHostError>)
    ensures
        r is Ok <==> h160_parse(s@) is Some,
        r matches Ok(h) ==> h.wf() && Some(h.bytes@) == h160_parse(s@),
        r matches Err(e) ==> e.message@ == "failed to convert string to Address/H160: '"@ + s@
            + "'"@,
{
    let n = s.unicode_len();
    let start: usize = if n >= 2 && s.get_char(0) == '0' && s.get_char(1) == 'x' {
        2
    } else {
        0
    };
    proof {
        if start == 2 {
            assert(strip_0x(s@) =~= s@.skip(2));
        } else {
            assert(strip_0x(s@) =~= s@);
        }
    }
    if n - start != 40 {
        return Err(
            DeterministicHostError::with_input("failed to convert string to Address/H160: '", s, "'"),
        );
    }
    let mut bytes: Vec<u8> = Vec::new();
    let mut i: usize = 0;
    while i < 20
        invariant
            i <= 20,
            n == s@.len(),
            start + 40 == n,
            start == 0 || start == 2,
            strip_0x(s@) == s@.skip(start as int),
            bytes@.len() == i as int,
            forall|j: int|
                0 <= j < 2 * i as int ==> is_hex_digit(#[trigger] s@.skip(start as int)[j]),
            forall|j: int|
                0 <= j < i as int ==> #[trigger] bytes@[j] as nat == hex_digit_value(
                    s@.skip(start as int)[2 * j],
                ) * 16 + hex_digit_value(s@.skip(start as int)[2 * j + 1]),
        decreases 20 - i,
    {
        let c1 = s.get_char(start + 2 * i);
        let c2 = s.get_char(start + 2 * i + 1);
        let v1 = match hex_digit_val(c1) {
            Some(v) => v,
            None => {
                proof {
                    assert(s@.skip(start as int)[2 * i as int] == c1);
                    assert(!all_hex(s@.skip(start as int)));
                }
                return Err(
                    DeterministicHostError::with_input(
                        "failed to convert string to Address/H160: '",
                        s,
                        "'",
                    ),
                );
            },
        };
        let v2 = match hex_digit_val(c2) {
            Some(v) => v,
            None => {
                proof {
                    assert(s@.skip(start as int)[2 * i as int + 1] == c2);
                    assert(!all_hex(s@.skip(start as int)));
                }
                return Err(
                    DeterministicHostError::with_input(
                        "failed to convert string to Address/H160: '",
                        s,
                        "'",
                    ),
                );
            },
        };
        bytes.push(v1 * 16 + v2);
        i = i + 1;
    }
    let h = H160 { bytes };
    proof {
        let t = s@.skip(start as int);
        assert(t.len() == 40);
        assert(all_hex(t));
        assert(h160_parse(s@) matches Some(bs) && bs =~= h.bytes@);
    }
    Ok(h)
}

/// An address string of forty characters parses to the same address
/// with and without the `0x` prefix, and to no address at all in the
/// same cases.
pub proof fn lemma_h160_prefix(t: Seq<char>)
    requires
        t.len() == 40,
    ensures
        h160_parse(seq!['0', 'x'] + t) == h160_parse(t),
{
    let s = seq!['0', 'x'] + t;
    assert(s.len() == 42);
    assert(s[0] == '0' && s[1] == 'x');
    assert(s.skip(2) =~= t);
    if t[0] == '0' && t[1] == 'x' {
        assert(strip_0x(t) == t.skip(2));
        assert(t.skip(2).len() == 38);
        assert(!is_hex_digit('x'));
        assert(!all_hex(t));
        assert(h160_parse(s) is None);
        assert(h160_parse(t) is None);
    } else {
        assert(strip_0x(t) == t);
        assert(strip_0x(s) == t);
    }
}

/// Trailing NUL padding, removed.
pub open spec fn trim_trailing_nul(bs: Seq<u8>) -> Seq<u8>
    decreases bs,
{
    if bs.len() > 0 && bs.last() == 0 {
        trim_trailing_nul(bs.drop_last())
    } else {
        bs
    }
}

/// What the lossy UTF-8 decoding of the outside runtime returns for
/// invalid byte strings; on valid ones it is the exact decoding.
pub uninterp spec fn lossy_utf8(bytes: Seq<u8>) -> Seq<char>;

/// Relies on std's `String::from_utf8`: succeeds exactly on valid UTF-8
/// and returns its decoding.
#[verifier::external_body]
pub(crate) fn utf8_to_string(bytes: &Vec<u8>) -> (r: Option<String>)
    ensures
        r is Some <==> valid_utf8(bytes@),
        r matches Some(s) ==> s@ == decode_utf8(bytes@),
{
    String::from_utf8(bytes.clone()).ok()
}

/// Relies on std's `String::from_utf8_lossy`: replaces invalid sequences
/// with the replacement character; on valid UTF-8 it is the exact
/// decoding, borrowed unchanged.
#[verifier::external_body]
pub(crate) fn utf8_to_string_lossy(bytes: &Vec<u8>) -> (r: String)
    ensures
        r@ == lossy_utf8(bytes@),
        valid_utf8(bytes@) ==> r@ == decode_utf8(bytes@),
{
    String::from_utf8_lossy(bytes.as_slice()).into_owned()
}

/// Converts raw bytes to a string, never failing: trailing NUL padding is
/// stripped, valid UTF-8 decodes exactly, invalid sequences are replaced
/// lossily and flagged so that a diagnostic can be emitted.
pub fn bytes_to_string_lossy(bytes: Vec<u8>) -> (r: (String, bool))
    ensures
        valid_utf8(trim_trailing_nul(bytes@)) ==> r.0@ == decode_utf8(trim_trailing_nul(bytes@))
            && !r.1,
        !valid_utf8(trim_trailing_nul(bytes@)) ==> r.0@ == lossy_utf8(trim_trailing_nul(bytes@))
            && r.1,
{
    let mut b = bytes;
    while b.len() > 0 && b[b.len() - 1] == 0u8
        invariant
            trim_trailing_nul(b@) == trim_trailing_nul(bytes@),
        decreases b@.len(),
    {
        b.pop();
    }
    proof {
        assert(b@ == trim_trailing_nul(bytes@));
    }
    match utf8_to_string(&b) {
        Some(s) => (s, false),
        None => (utf8_to_string_lossy(&b), true),
    }
}

/// What the base58 rendering of the outside crate returns.
pub uninterp spec fn base58_of(bytes: Seq<u8>) -> Seq<char>;

/// Relies on `bs58::encode` with the default (Bitcoin) alphabet; an empty
/// input renders as the empty string.
#[verifier::external_body]
pub(crate) fn bs58_encode(bytes: &Vec<u8>) -> (r: String)
    ensures
        r@ == base58_of(bytes@),
        bytes@.len() == 0 ==> r@.len() == 0,
{
    bs58::encode(bytes).into_string()
}

/// What the 256-bit Keccak digest of the outside crate returns.
pub uninterp spec fn keccak256_of(bytes: Seq<u8>) -> Seq<u8>;

/// Relies on `tiny_keccak`'s Keccak-256: a 32-byte digest determined by
/// the input bytes alone.
#[verifier::external_body]
pub(crate) fn keccak256(bytes: &Vec<u8>) -> (r: Vec<u8>)
    ensures
        r@ == keccak256_of(bytes@),
        r@.len() == 32,
{
    let mut k = tiny_keccak::Keccak::v256();
    k.update(bytes.as_slice());
    let mut out = [0u8; 32];
    k.finalize(&mut out);
    out.to_vec()
}

} // verus!
