use host_bridge::bigdec::BigDecimal;
use host_bridge::gas::{GasCounter, MAX_GAS_PER_HANDLER};
use host_bridge::host::{ApiVersion, HostExports};
use host_bridge::value::Schema;
use num_bigint::BigInt;

fn bare_host() -> HostExports {
    HostExports::new(
        "subgraph".to_string(),
        ApiVersion { major: 0, minor: 0, patch: 5 },
        "source".to_string(),
        None,
        "mainnet".to_string(),
        None,
        Vec::new(),
        Vec::new(),
        Schema { types: Vec::new() },
    )
}

fn gas() -> GasCounter {
    GasCounter::new(MAX_GAS_PER_HANDLER)
}

#[test]
fn big_int_basic_arithmetic() {
    let host = bare_host();
    let mut g = gas();
    assert_eq!(
        host.big_int_plus(BigInt::from(2), BigInt::from(40), &mut g).unwrap(),
        BigInt::from(42)
    );
    assert_eq!(
        host.big_int_minus(BigInt::from(2), BigInt::from(40), &mut g).unwrap(),
        BigInt::from(-38)
    );
    assert_eq!(
        host.big_int_times(BigInt::from(-6), BigInt::from(7), &mut g).unwrap(),
        BigInt::from(-42)
    );
    assert_eq!(
        host.big_int_pow(BigInt::from(3), 4, &mut g).unwrap(),
        BigInt::from(81)
    );
    assert_eq!(
        host.big_int_left_shift(BigInt::from(5), 3, &mut g).unwrap(),
        BigInt::from(40)
    );
    assert_eq!(
        host.big_int_right_shift(BigInt::from(5), 1, &mut g).unwrap(),
        BigInt::from(2)
    );
    assert_eq!(
        host.big_int_right_shift(BigInt::from(-5), 1, &mut g).unwrap(),
        BigInt::from(-3)
    );
    assert_eq!(
        host.big_int_bit_or(BigInt::from(6), BigInt::from(3), &mut g).unwrap(),
        BigInt::from(7)
    );
    assert_eq!(
        host.big_int_bit_and(BigInt::from(6), BigInt::from(3), &mut g).unwrap(),
        BigInt::from(2)
    );
}

#[test]
fn div_mod_identity_and_zero_divisors() {
    let host = bare_host();
    let mut g = gas();
    for (x, y) in [(-7i64, 3i64), (7, 3), (-7, -3), (7, -3), (0, 5), (123456, 789)] {
        let q = host
            .big_int_divided_by(BigInt::from(x), BigInt::from(y), &mut g)
            .unwrap();
        let r = host
            .big_int_mod(BigInt::from(x), BigInt::from(y), &mut g)
            .unwrap();
        assert_eq!(q.clone() * BigInt::from(y) + r.clone(), BigInt::from(x));
        assert_eq!(q, BigInt::from(x / y));
        assert_eq!(r, BigInt::from(x % y));
    }
    assert_eq!(
        host.big_int_divided_by(BigInt::from(17), BigInt::from(0), &mut g)
            .unwrap_err()
            .message,
        "attempted to divide BigInt `17` by zero"
    );
    assert_eq!(
        host.big_int_mod(BigInt::from(-4), BigInt::from(0), &mut g)
            .unwrap_err()
            .message,
        "attempted to calculate the remainder of `-4` with a divisor of zero"
    );
    let zero = BigDecimal { digits: BigInt::from(0), scale: 0 };
    let one = BigDecimal { digits: BigInt::from(15), scale: 1 };
    assert_eq!(
        host.big_decimal_divided_by(one, zero, &mut g).unwrap_err().message,
        "attempted to divide BigDecimal `1.5` by zero"
    );
}

#[test]
fn big_int_hex_encoding() {
    let host = bare_host();
    let mut g = gas();
    assert_eq!(host.big_int_to_hex(BigInt::from(0), &mut g).unwrap(), "0x0");
    assert_eq!(host.big_int_to_hex(BigInt::from(1), &mut g).unwrap(), "0x1");
    assert_eq!(host.big_int_to_hex(BigInt::from(15), &mut g).unwrap(), "0xf");
    assert_eq!(
        host.big_int_to_hex(BigInt::from(65280), &mut g).unwrap(),
        "0xff00"
    );
    // Decoding the produced digits reconstructs the value exactly.
    let s = host.big_int_to_hex(BigInt::from(3_735_928_559u64), &mut g).unwrap();
    assert_eq!(s, "0xdeadbeef");
    assert_eq!(u64::from_str_radix(&s[2..], 16).unwrap(), 3_735_928_559u64);
}

#[test]
fn big_int_string_round_trip() {
    let host = bare_host();
    let mut g = gas();
    let n = host.big_int_from_string("-1234567890123456789012345".to_string(), &mut g).unwrap();
    assert_eq!(n, BigInt::parse_bytes(b"-1234567890123456789012345", 10).unwrap());
    assert_eq!(
        host.big_int_to_string(n, &mut g).unwrap(),
        "-1234567890123456789012345"
    );
    assert_eq!(
        host.big_int_from_string("12a".to_string(), &mut g).unwrap_err().message,
        "string is not a BigInt: `12a`"
    );
    assert!(host.big_int_from_string("".to_string(), &mut g).is_err());
    assert!(host.big_int_from_string("+7".to_string(), &mut g).is_ok());
}

#[test]
fn json_number_parsing() {
    let host = bare_host();
    let mut g = gas();
    assert_eq!(host.json_to_i64("123".to_string(), &mut g).unwrap(), 123);
    assert_eq!(host.json_to_i64("-123".to_string(), &mut g).unwrap(), -123);
    assert_eq!(
        host.json_to_i64("-9223372036854775808".to_string(), &mut g).unwrap(),
        i64::MIN
    );
    assert!(host.json_to_i64("9223372036854775808".to_string(), &mut g).is_err());
    assert_eq!(
        host.json_to_i64("1.5".to_string(), &mut g).unwrap_err().message,
        "JSON `1.5` cannot be parsed as i64"
    );
    assert_eq!(
        host.json_to_u64("18446744073709551615".to_string(), &mut g).unwrap(),
        u64::MAX
    );
    assert!(host.json_to_u64("18446744073709551616".to_string(), &mut g).is_err());
    assert!(host.json_to_u64("-1".to_string(), &mut g).is_err());
    let le = host.json_to_big_int("-2".to_string(), &mut g).unwrap();
    assert_eq!(BigInt::from_signed_bytes_le(&le), BigInt::from(-2));
}

#[test]
fn big_decimal_arithmetic_and_rendering() {
    let host = bare_host();
    let mut g = gas();
    let a = host.big_decimal_from_string("1.5".to_string(), &mut g).unwrap();
    let b = host.big_decimal_from_string("2.25".to_string(), &mut g).unwrap();
    let sum = host.big_decimal_plus(a, b, &mut g).unwrap();
    assert_eq!(host.big_decimal_to_string(sum, &mut g).unwrap(), "3.75");

    let c = host.big_decimal_from_string("1.50".to_string(), &mut g).unwrap();
    let d = host.big_decimal_from_string("1.5".to_string(), &mut g).unwrap();
    assert!(host.big_decimal_equals(c, d, &mut g).unwrap());

    let e = host.big_decimal_from_string("2e3".to_string(), &mut g).unwrap();
    assert_eq!(host.big_decimal_to_string(e, &mut g).unwrap(), "2000");

    let f = host.big_decimal_from_string("-0.5".to_string(), &mut g).unwrap();
    let h2 = host.big_decimal_from_string("4".to_string(), &mut g).unwrap();
    let prod = host.big_decimal_times(f, h2, &mut g).unwrap();
    assert_eq!(host.big_decimal_to_string(prod, &mut g).unwrap(), "-2.0");

    let one = host.big_decimal_from_string("1".to_string(), &mut g).unwrap();
    let three = host.big_decimal_from_string("3".to_string(), &mut g).unwrap();
    let q = host.big_decimal_divided_by(one, three, &mut g).unwrap();
    let rendered = host.big_decimal_to_string(q, &mut g).unwrap();
    assert_eq!(rendered, format!("0.{}", "3".repeat(100)));

    assert!(host.big_decimal_from_string("1.2.3".to_string(), &mut g).is_err());
    assert!(host.big_decimal_from_string("abc".to_string(), &mut g).is_err());
}
