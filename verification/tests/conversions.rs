use host_bridge::codec::{bytes_to_string_lossy, string_to_h160};
use host_bridge::gas::{GasCounter, MAX_GAS_PER_HANDLER};
use host_bridge::host::{ApiVersion, HostExports};
use host_bridge::value::Schema;

fn bare_host() -> HostExports {
    HostExports::new(
        "subgraph".to_string(),
        ApiVersion { major: 0, minor: 0, patch: 5 },
        "source".to_string(),
        None,
        "mainnet".to_string(),
        None,
        Vec::new(),
        Vec::new(),
        Schema { types: Vec::new() },
    )
}

#[test]
fn test_string_to_h160_with_0x() {
    assert_eq!(
        string_to_h160("A16081F360e3847006dB660bae1c6d1b2e17eC2A")
            .unwrap()
            .bytes,
        string_to_h160("0xA16081F360e3847006dB660bae1c6d1b2e17eC2A")
            .unwrap()
            .bytes
    )
}

#[test]
fn bytes_to_string_is_lossy() {
    assert_eq!(
        "Downcoin WETH-USDT",
        bytes_to_string_lossy(vec![
            68, 111, 119, 110, 99, 111, 105, 110, 32, 87, 69, 84, 72, 45, 85, 83, 68, 84
        ])
        .0
    );

    assert_eq!(
        "Downcoin WETH-USDT\u{fffd}",
        bytes_to_string_lossy(vec![
            68, 111, 119, 110, 99, 111, 105, 110, 32, 87, 69, 84, 72, 45, 85, 83, 68, 84, 160, 0,
            0, 0, 0, 0, 0, 0, 0, 0, 0, 0, 0, 0
        ])
        .0
    )
}

#[test]
fn string_to_h160_values_and_rejections() {
    let h = string_to_h160("0x0000000000000000000000000000000000000001").unwrap();
    let mut expected = vec![0u8; 20];
    expected[19] = 1;
    assert_eq!(h.bytes, expected);

    assert_eq!(
        string_to_h160("0x123").unwrap_err().message,
        "failed to convert string to Address/H160: '0x123'"
    );
    assert!(string_to_h160("zz16081F360e3847006dB660bae1c6d1b2e17eC2A").is_err());
    assert!(string_to_h160("").is_err());
}

#[test]
fn string_to_h160_host_op_charges_gas() {
    let host = bare_host();
    let mut gas = GasCounter::new(MAX_GAS_PER_HANDLER);
    let h = host
        .string_to_h160("0xA16081F360e3847006dB660bae1c6d1b2e17eC2A", &mut gas)
        .unwrap();
    assert_eq!(h.bytes.len(), 20);
    assert!(gas.used > 0);
}

#[test]
fn bytes_to_string_strips_trailing_nuls() {
    let (s, warned) = bytes_to_string_lossy(b"abc\0\0\0".to_vec());
    assert_eq!(s, "abc");
    assert!(!warned);
}

#[test]
fn bytes_to_string_flags_invalid_utf8() {
    let (s, warned) = bytes_to_string_lossy(vec![0xff, 0xfe]);
    assert_eq!(s, "\u{fffd}\u{fffd}");
    assert!(warned);
}

#[test]
fn keccak_256_of_empty_input() {
    let host = bare_host();
    let mut gas = GasCounter::new(MAX_GAS_PER_HANDLER);
    let digest = host.crypto_keccak_256(Vec::new(), &mut gas).unwrap();
    assert_eq!(
        hex::encode(&digest),
        "c5d2460186f7233c927e7db2dcc703c0e500b653ca82273b7bfad8045d85a470"
    );
}

#[test]
fn base58_of_known_bytes() {
    let host = bare_host();
    let mut gas = GasCounter::new(MAX_GAS_PER_HANDLER);
    assert_eq!(host.bytes_to_base58(Vec::new(), &mut gas).unwrap(), "");
    assert_eq!(
        host.bytes_to_base58(b"abc".to_vec(), &mut gas).unwrap(),
        "ZiCa"
    );
}

#[test]
fn abort_formats_message_and_location() {
    let host = bare_host();
    let mut gas = GasCounter::new(MAX_GAS_PER_HANDLER);
    let e = host
        .abort(
            Some("boom".to_string()),
            Some("mapping.ts".to_string()),
            Some(13),
            Some(7),
            &mut gas,
        )
        .unwrap_err();
    assert_eq!(
        e.message,
        "Mapping aborted at mapping.ts, line 13, column 7, with message: boom"
    );

    let e2 = host.abort(None, None, None, None, &mut gas).unwrap_err();
    assert_eq!(e2.message, "Mapping aborted at an unknown location, with no message");
}
