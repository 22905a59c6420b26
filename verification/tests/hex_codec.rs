use eth_primitives::hex::{decode, encode};
use eth_primitives::{ExpectedLen, HexError, H160, H256, H32, H64};

fn text(bytes: Vec<u8>) -> String {
    String::from_utf8(bytes).unwrap()
}

struct Framed(Vec<u8>);

impl serde::Serialize for Framed {
    fn serialize<S: serde::Serializer>(&self, serializer: S) -> Result<S::Ok, S::Error> {
        let mut slice = vec![0u8; 2 + 2 * self.0.len()];
        ethereum_types_serialize::serialize(&mut slice, &self.0, serializer)
    }
}

struct Four([u8; 4]);

impl<'de> serde::Deserialize<'de> for Four {
    fn deserialize<D: serde::Deserializer<'de>>(deserializer: D) -> Result<Self, D::Error> {
        let mut bytes = [0u8; 4];
        ethereum_types_serialize::deserialize_check_len(
            deserializer,
            ethereum_types_serialize::ExpectedLen::Exact(&mut bytes),
        )?;
        Ok(Four(bytes))
    }
}

#[test]
fn encode_gives_prefix_and_lowercase_digits() {
    assert_eq!(text(encode(&[0x00, 0x11, 0xab, 0xff])), "0x0011abff");
    assert_eq!(text(encode(&[0x0f])), "0x0f");
    assert_eq!(text(encode(&[])), "0x");
}

#[test]
fn encode_has_canonical_length() {
    assert_eq!(H32::new().to_hex().len(), 10);
    assert_eq!(H160::new().to_hex().len(), 42);
    assert_eq!(H256::new().to_hex().len(), 66);
    assert_eq!(text(H64::new().to_hex()), "0x0000000000000000");
}

#[test]
fn encode_agrees_with_the_serializer() {
    let bytes: Vec<u8> = (0u16..=255).map(|b| b as u8).collect();
    let quoted = serde_json::to_string(&Framed(bytes.clone())).unwrap();
    assert_eq!(quoted, format!("\"{}\"", text(encode(&bytes))));
}

#[test]
fn decode_agrees_with_the_deserializer() {
    let four: Four = serde_json::from_str("\"0xDEADbeef\"").unwrap();
    assert_eq!(H32::from_hex(b"0xDEADbeef").unwrap().as_bytes(), &four.0[..]);
    assert_eq!(four.0, [0xde, 0xad, 0xbe, 0xef]);
}

#[test]
fn decode_undoes_encode() {
    let mut bytes = [0u8; 32];
    for (i, b) in bytes.iter_mut().enumerate() {
        *b = (i * 7 + 3) as u8;
    }
    let h = H256::from_bytes(bytes);
    assert_eq!(H256::from_hex(&h.to_hex()), Ok(h));
    for b in 0u16..=255 {
        let one = [b as u8];
        assert_eq!(decode(&encode(&one), ExpectedLen::Exact(1)), Ok(one.to_vec()));
    }
}

#[test]
fn encode_of_decoded_is_lowercase() {
    let s = "0xDEADBEEF00aAbBcCdDeEfF0123456789abcdef01";
    let h = H160::from_hex(s.as_bytes()).unwrap();
    assert_eq!(text(h.to_hex()), s.to_lowercase());
}

#[test]
fn wrong_length_reports_actual_and_expected() {
    assert_eq!(
        H256::from_hex(b"0x00112233"),
        Err(HexError::InvalidLength { actual: 4, expected: 32 })
    );
    assert_eq!(
        H32::from_hex(b"0x"),
        Err(HexError::InvalidLength { actual: 0, expected: 4 })
    );
    assert_eq!(
        H32::from_hex(b"0x0011223344"),
        Err(HexError::InvalidLength { actual: 5, expected: 4 })
    );
    assert_eq!(
        H32::from_hex(b"0x001122"),
        Err(HexError::InvalidLength { actual: 3, expected: 4 })
    );
}

#[test]
fn odd_digit_count_is_not_an_exact_width() {
    assert_eq!(
        H32::from_hex(b"0x0112233"),
        Err(HexError::InvalidLength { actual: 4, expected: 4 })
    );
    assert_eq!(
        decode(b"0x123", ExpectedLen::Exact(1)),
        Err(HexError::InvalidLength { actual: 2, expected: 1 })
    );
}

#[test]
fn invalid_character_comes_before_length() {
    let want = Err(HexError::InvalidCharacter { ch: b'z', index: 2 });
    assert_eq!(decode(b"0xzz", ExpectedLen::Exact(1)), want);
    assert_eq!(decode(b"0xzz", ExpectedLen::Exact(32)), want);
    assert_eq!(decode(b"0xzz", ExpectedLen::Between(4, 8)), want);
    assert_eq!(H256::from_hex(b"0xzz").map(|h| h.to_hex()), Err(HexError::InvalidCharacter { ch: b'z', index: 2 }));
}

#[test]
fn invalid_character_reports_first_offset() {
    assert_eq!(
        H32::from_hex(b"0x0011g2h3"),
        Err(HexError::InvalidCharacter { ch: b'g', index: 6 })
    );
    assert_eq!(
        H32::from_hex(b"0x00 12233"),
        Err(HexError::InvalidCharacter { ch: b' ', index: 4 })
    );
    assert_eq!(
        H32::from_hex(b"0x0011223x"),
        Err(HexError::InvalidCharacter { ch: b'x', index: 9 })
    );
}

#[test]
fn missing_prefix_is_refused() {
    assert_eq!(H32::from_hex(b"00112233"), Err(HexError::MissingPrefix));
    assert_eq!(H32::from_hex(b"0X00112233"), Err(HexError::MissingPrefix));
    assert_eq!(H32::from_hex(b""), Err(HexError::MissingPrefix));
    assert_eq!(H32::from_hex(b"0"), Err(HexError::MissingPrefix));
}

#[test]
fn range_mode_accepts_lengths_in_range() {
    assert_eq!(decode(b"0x0011", ExpectedLen::Between(2, 4)), Ok(vec![0x00, 0x11]));
    assert_eq!(
        decode(b"0x00112233", ExpectedLen::Between(2, 4)),
        Ok(vec![0x00, 0x11, 0x22, 0x33])
    );
    assert_eq!(decode(b"0x123", ExpectedLen::Between(1, 4)), Ok(vec![0x01, 0x23]));
    assert_eq!(decode(b"0x", ExpectedLen::Between(0, 4)), Ok(vec![]));
}

#[test]
fn range_mode_reports_length_out_of_range() {
    assert_eq!(
        decode(b"0x00", ExpectedLen::Between(2, 4)),
        Err(HexError::LengthOutOfRange { actual: 1, min: 2, max: 4 })
    );
    assert_eq!(
        decode(b"0x0011223344", ExpectedLen::Between(2, 4)),
        Err(HexError::LengthOutOfRange { actual: 5, min: 2, max: 4 })
    );
}
