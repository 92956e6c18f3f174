use evm_governance::codec::{from_hex, parse_address, to_hex, HexError};
use evm_governance::natural::BigNat;

#[test]
fn to_hex_writes_lowercase_prefixed_digits() {
    assert_eq!(to_hex(&[0x00, 0x0f, 0xab, 0xff]), "0x000fabff");
    assert_eq!(to_hex(&[]), "0x");
}

#[test]
fn from_hex_skips_prefix_and_decodes() {
    assert_eq!(from_hex("0x0102ff"), Ok(vec![1u8, 2, 255]));
    assert_eq!(from_hex("0xABcd"), Ok(vec![0xab, 0xcd]));
    assert_eq!(from_hex("0x"), Ok(vec![]));
}

#[test]
fn from_hex_rejects_short_or_bad_text() {
    assert_eq!(from_hex("0"), Err(HexError::TooShort));
    assert_eq!(from_hex("0x123"), Err(HexError::InvalidDigits));
    assert_eq!(from_hex("0xzz"), Err(HexError::InvalidDigits));
}

#[test]
fn parse_address_reads_forty_digits() {
    let a = parse_address("0x2036081922cf3124E9f13b3a3a4bE55410C80D95").unwrap();
    assert_eq!(a.bytes[0], 0x20);
    assert_eq!(a.bytes[1], 0x36);
    assert_eq!(a.bytes[19], 0x95);
}

#[test]
fn parse_address_rejects_bad_formats() {
    let msg = "Invalid Ethereum address format";
    assert_eq!(parse_address("2036081922cf3124E9f13b3a3a4bE55410C80D9500").unwrap_err(), msg);
    assert_eq!(parse_address("0x2036081922cf3124E9f13b3a3a4bE55410C80D9").unwrap_err(), msg);
    assert_eq!(parse_address("0x2036081922cf3124E9f13b3a3a4bE55410C80D9g").unwrap_err(), msg);
    assert_eq!(parse_address("").unwrap_err(), msg);
}

#[test]
fn big_numbers_add_multiply_divide() {
    let a = BigNat::from_u128(u128::MAX);
    let b = BigNat::from_u128(1);
    let sum = a.add(&b);
    assert_eq!(sum.to_decimal(), "340282366920938463463374607431768211456");
    let product = sum.mul(&BigNat::from_u128(100));
    assert_eq!(product.to_decimal(), "34028236692093846346337460743176821145600");
    let quotient = product.div(&BigNat::from_u128(3));
    assert_eq!(quotient.to_decimal(), "11342745564031282115445820247725607048533");
}

#[test]
fn big_numbers_zero_and_bytes() {
    assert!(BigNat::zero().is_zero());
    assert!(BigNat::from_be_bytes(vec![0, 0, 0]).is_zero());
    assert!(!BigNat::from_be_bytes(vec![0, 1]).is_zero());
    assert_eq!(BigNat::from_be_bytes(vec![1, 0]).to_decimal(), "256");
    assert_eq!(BigNat::zero().to_decimal(), "0");
    assert_eq!(BigNat::from_u128(1000000).to_decimal(), "1000000");
}
