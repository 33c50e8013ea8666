use web3_toys::address::parse_wallet_address;

#[test]
fn valid_address_decodes_big_endian() {
    let a = parse_wallet_address("0x00000000000000000000000000000000000000fF").unwrap();
    let mut expected = [0u8; 20];
    expected[19] = 0xff;
    assert_eq!(a.bytes, expected);
    let b = parse_wallet_address("0x0102030405060708090a0B0c0D0e0F1011121314").unwrap();
    assert_eq!(b.bytes[0], 1);
    assert_eq!(b.bytes[10], 0x0b);
    assert_eq!(b.bytes[19], 0x14);
}

#[test]
fn prefix_is_required() {
    assert!(parse_wallet_address("00000000000000000000000000000000000000ff00").is_none());
    assert!(parse_wallet_address("0X00000000000000000000000000000000000000ff").is_none());
}

#[test]
fn length_is_fixed() {
    assert!(parse_wallet_address("0x00000000000000000000000000000000000000f").is_none());
    assert!(parse_wallet_address("0x00000000000000000000000000000000000000fff").is_none());
    assert!(parse_wallet_address("").is_none());
    assert!(parse_wallet_address("0x").is_none());
}

#[test]
fn non_hex_characters_are_rejected() {
    assert!(parse_wallet_address("0x00000000000000000000000000000000000000fg").is_none());
    assert!(parse_wallet_address("0x0000000000000000000000000000000000000 ff").is_none());
}
