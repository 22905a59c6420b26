use eth_primitives::{
    FromDecStrErr, FromHexError, FromStrRadixErr, FromStrRadixErrKind, FromStrRadixErrSrc, U128,
    U256, U512, Uint,
};

#[test]
fn from_big_endian_pads_in_front() {
    let x = U128::from_big_endian(&[0x01, 0x02]);
    let mut want = [0u8; 16];
    want[14] = 1;
    want[15] = 2;
    assert_eq!(x.to_big_endian(), want);
    assert_eq!(U128::from_big_endian(&[]), U128::zero());
    assert!(U128::from_big_endian(&[0, 0]).is_zero());
    assert!(!x.is_zero());
}

#[test]
fn mul10_add_carries_out_of_the_width() {
    let x = Uint::<1>::from_big_endian(&[25]);
    let (y, carry) = x.mul10_add(5);
    assert_eq!((y.to_big_endian(), carry), ([255], 0));
    let (z, carry) = y.mul10_add(9);
    assert_eq!((z.to_big_endian(), carry), ([(2559u32 % 256) as u8], 9));
}

#[test]
fn decimal_parse_gives_the_number() {
    assert_eq!(U256::from_dec_str("123").unwrap(), U256::from_big_endian(&[123]));
    assert_eq!(U256::from_dec_str("256").unwrap(), U256::from_big_endian(&[1, 0]));
    assert_eq!(U256::from_dec_str("000").unwrap(), U256::zero());
    assert_eq!(U256::from_dec_str("").unwrap(), U256::zero());
}

#[test]
fn decimal_parse_refuses_what_does_not_fit() {
    let max = U128::from_dec_str("340282366920938463463374607431768211455").unwrap();
    assert_eq!(max.to_big_endian(), [0xffu8; 16]);
    assert_eq!(
        U128::from_dec_str("340282366920938463463374607431768211456"),
        Err(FromDecStrErr::InvalidLength)
    );
    assert_eq!(
        U128::from_dec_str("9999999999999999999999999999999999999999999999"),
        Err(FromDecStrErr::InvalidLength)
    );
    assert!(U256::from_dec_str("340282366920938463463374607431768211456").is_ok());
}

#[test]
fn decimal_parse_refuses_other_characters() {
    assert_eq!(U256::from_dec_str("12a"), Err(FromDecStrErr::InvalidCharacter));
    assert_eq!(U256::from_dec_str("-1"), Err(FromDecStrErr::InvalidCharacter));
    assert_eq!(U256::from_dec_str("1 2"), Err(FromDecStrErr::InvalidCharacter));
    assert_eq!(
        U128::from_dec_str("9999999999999999999999999999999999999999999999x"),
        Err(FromDecStrErr::InvalidCharacter)
    );
}

#[test]
fn parse_with_radix_ten_and_sixteen_agree() {
    let dec = U256::from_str_radix("123", 10).unwrap();
    let hex = U256::from_str_radix("7b", 16).unwrap();
    assert_eq!(dec, hex);
    assert_eq!(dec, U256::from_big_endian(&[123]));
    assert_eq!(U512::from_str_radix("7B", 16).unwrap(), U512::from_big_endian(&[0x7b]));
}

#[test]
fn parse_with_another_radix_is_unsupported() {
    let e = U256::from_str_radix("123", 7).unwrap_err();
    assert_eq!(e.kind(), FromStrRadixErrKind::UnsupportedRadix);
    assert_eq!(e.source(), None);
    assert_eq!(e, FromStrRadixErr::unsupported());
    assert_eq!(U256::from_str_radix("zz", 2).unwrap_err().kind(), FromStrRadixErrKind::UnsupportedRadix);
    assert_eq!(U256::from_str_radix("1", 0).unwrap_err().kind(), FromStrRadixErrKind::UnsupportedRadix);
}

#[test]
fn parse_of_a_wrong_hex_digit_is_a_parse_error() {
    let e = U256::from_str_radix("12g", 16).unwrap_err();
    assert_eq!(e.kind(), FromStrRadixErrKind::Parse);
    assert_eq!(
        e.source(),
        Some(FromStrRadixErrSrc::Hex(FromHexError::InvalidHexCharacter('g', 3)))
    );
    let e = U256::from_str_radix("1g", 16).unwrap_err();
    assert_eq!(
        e.source(),
        Some(FromStrRadixErrSrc::Hex(FromHexError::InvalidHexCharacter('g', 1)))
    );
}

#[test]
fn parse_of_a_wrong_decimal_is_a_parse_error() {
    let e = U256::from_str_radix("12g", 10).unwrap_err();
    assert_eq!(e.kind(), FromStrRadixErrKind::Parse);
    assert_eq!(e.source(), Some(FromStrRadixErrSrc::Dec(FromDecStrErr::InvalidCharacter)));
    let e = U128::from_str_radix("340282366920938463463374607431768211456", 10).unwrap_err();
    assert_eq!(e.source(), Some(FromStrRadixErrSrc::Dec(FromDecStrErr::InvalidLength)));
}

#[test]
fn hex_parse_reads_an_odd_text_with_a_zero_in_front() {
    assert_eq!(U128::from_hex_str("123").unwrap(), U128::from_big_endian(&[0x01, 0x23]));
    assert_eq!(U128::from_hex_str("").unwrap(), U128::zero());
    assert_eq!(
        U128::from_hex_str("ffffffffffffffffffffffffffffffff").unwrap().to_big_endian(),
        [0xffu8; 16]
    );
}

#[test]
fn hex_parse_refuses_more_bytes_than_the_width() {
    assert_eq!(
        U128::from_hex_str("01ffffffffffffffffffffffffffffffff"),
        Err(FromHexError::InvalidHexLength)
    );
    let e = U128::from_str_radix("01ffffffffffffffffffffffffffffffff", 16).unwrap_err();
    assert_eq!(e.kind(), FromStrRadixErrKind::Parse);
    assert_eq!(e.source(), Some(FromStrRadixErrSrc::Hex(FromHexError::InvalidHexLength)));
}

#[test]
fn from_decoded_keeps_a_failure_and_refuses_a_long_value() {
    assert_eq!(
        U128::from_decoded(Err(FromHexError::InvalidHexCharacter('x', 1))),
        Err(FromHexError::InvalidHexCharacter('x', 1))
    );
    assert_eq!(U128::from_decoded(Ok(vec![1, 0])), Ok(U128::from_big_endian(&[1, 0])));
    assert_eq!(U128::from_decoded(Ok(vec![0; 17])), Err(FromHexError::InvalidHexLength));
    assert_eq!(U128::from_decoded(Ok(vec![0; 16])), Ok(U128::zero()));
}

#[test]
fn failures_are_wrapped_with_their_source() {
    let d = FromStrRadixErr::from(FromDecStrErr::InvalidLength);
    assert_eq!(d.kind(), FromStrRadixErrKind::Parse);
    assert_eq!(d.source(), Some(FromStrRadixErrSrc::Dec(FromDecStrErr::InvalidLength)));
    let h = FromStrRadixErr::from(FromHexError::InvalidHexLength);
    assert_eq!(h.kind(), FromStrRadixErrKind::Parse);
    assert_eq!(h.source(), Some(FromStrRadixErrSrc::Hex(FromHexError::InvalidHexLength)));
}

#[test]
fn messages_name_the_failure() {
    assert_eq!(FromStrRadixErr::unsupported().message(), "the given radix is not supported");
    assert_eq!(
        FromStrRadixErr::from(FromDecStrErr::InvalidCharacter).message(),
        "a character is not in the range 0-9"
    );
    assert_eq!(
        FromStrRadixErr::from(FromDecStrErr::InvalidLength).message(),
        "the number is too large for the type"
    );
    assert_eq!(
        FromStrRadixErr::from(FromHexError::InvalidHexLength).message(),
        "Invalid input length"
    );
    assert_eq!(
        FromStrRadixErr::from(FromHexError::InvalidHexCharacter('g', 3)).message(),
        "Invalid character 'g' at position 3"
    );
}

#[test]
fn integer_text_has_full_width() {
    let x = U128::from_dec_str("258").unwrap();
    assert_eq!(String::from_utf8(x.to_hex()).unwrap(), "0x00000000000000000000000000000102");
    assert_eq!(U128::from_hex(&x.to_hex()), Ok(x));
    assert_eq!(
        U128::from_hex(b"0x0102"),
        Err(eth_primitives::HexError::InvalidLength { actual: 2, expected: 16 })
    );
}

#[test]
fn integers_are_equal_as_numbers() {
    let a = U256::from_dec_str("0123").unwrap();
    let b = U256::from_hex_str("7b").unwrap();
    let c = U256::from_dec_str("124").unwrap();
    assert!(a == b);
    assert!(a != c);
    assert!(a < c);
    assert!(U128::from_big_endian(&[1, 0]) > U128::from_big_endian(&[255]));
}

#[test]
fn hex_parse_hands_on_the_decoder_failures() {
    assert_eq!(U128::from_hex_str("12 3"), Err(FromHexError::InvalidHexLength));
    assert_eq!(U128::from_hex_str("12 34 "), Ok(U128::from_big_endian(&[0x12, 0x34])));
    assert_eq!(
        U128::from_hex_str("0x7b"),
        Err(FromHexError::InvalidHexCharacter('x', 1))
    );
    let e = U256::from_str_radix("0x7b", 16).unwrap_err();
    assert_eq!(e.kind(), FromStrRadixErrKind::Parse);
    assert_eq!(e.message(), "Invalid character 'x' at position 1");
}
