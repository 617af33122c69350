use kafka_wire::ParseError;
use kafka_wire::cursor::Cursor;
use kafka_wire::varint::Varint;

/// The canonical signed-varint encoding: zig-zag, then base-128 chunks,
/// least significant first, high bit marking continuation.
fn encode_varint(v: i64) -> Vec<u8> {
    let mut u = ((v as u64) << 1) ^ ((v >> 63) as u64);
    let mut out = Vec::new();
    loop {
        if u < 128 {
            out.push(u as u8);
            return out;
        }
        out.push(128 + (u % 128) as u8);
        u /= 128;
    }
}

#[test]
fn test_decode() {
    let input: &[u8] = &[0b1000_0010, 0b0000_0001];
    let mut cursor = Cursor::new(input);
    let expected_output = 65;
    assert_eq!(Ok(expected_output), cursor.get_signed_varint());
    assert_eq!(0, cursor.remaining());
}

#[test]
fn test_decode_minus_one() {
    let input: &[u8] = &[0x01];
    let mut cursor = Cursor::new(input);
    let expected_output = -1;
    assert_eq!(Ok(expected_output), cursor.get_signed_varint());
    assert_eq!(0, cursor.remaining());
}

#[test]
fn test_decode_zero() {
    let input: &[u8] = &[0x00];
    let mut cursor = Cursor::new(input);
    assert_eq!(Ok(0), cursor.get_signed_varint());
    assert_eq!(0, cursor.remaining());
}

#[test]
fn test_decode_consumes_only_the_chain() {
    let input: &[u8] = &[0x82, 0x01, 0x99, 0x07];
    let mut cursor = Cursor::new(input);
    assert_eq!(Ok(65), cursor.get_signed_varint());
    assert_eq!(2, cursor.remaining());
}

#[test]
fn test_decode_empty_is_truncated() {
    let input: &[u8] = &[];
    let mut cursor = Cursor::new(input);
    assert_eq!(Err(ParseError::TruncatedInput), cursor.get_signed_varint());
    assert_eq!(0, cursor.remaining());
}

#[test]
fn test_decode_unterminated_is_truncated() {
    let input: &[u8] = &[0x80, 0x80, 0x80];
    let mut cursor = Cursor::new(input);
    assert_eq!(Err(ParseError::TruncatedInput), cursor.get_signed_varint());
    // the cursor does not move on failure
    assert_eq!(3, cursor.remaining());
}

#[test]
fn test_decode_ten_continuation_bytes_is_malformed() {
    let input: &[u8] = &[0x80; 10];
    let mut cursor = Cursor::new(input);
    assert_eq!(Err(ParseError::MalformedVarint), cursor.get_signed_varint());
}

#[test]
fn test_decode_overwide_tenth_chunk_is_malformed() {
    // nine continuation chunks, then a terminating chunk of two: the value
    // would need 65 bits
    let mut input = vec![0xFFu8; 9];
    input.push(0x02);
    let mut cursor = Cursor::new(&input);
    assert_eq!(Err(ParseError::MalformedVarint), cursor.get_signed_varint());
}

#[test]
fn test_round_trip_examples() {
    // encoding then decoding gives the value back and consumes exactly the
    // encoded bytes
    for v in [
        0i64,
        -1,
        1,
        65,
        -65,
        300,
        -300,
        127,
        128,
        -128,
        16383,
        16384,
        1_000_000_007,
        -1_000_000_007,
        i64::MAX,
        i64::MIN,
    ] {
        let mut bytes = encode_varint(v);
        let encoded_len = bytes.len();
        bytes.extend_from_slice(&[0xAB, 0xCD]);
        let mut cursor = Cursor::new(&bytes);
        assert_eq!(Ok(v), cursor.get_signed_varint(), "value {}", v);
        assert_eq!(bytes.len() - encoded_len, cursor.remaining(), "value {}", v);
    }
}

#[test]
fn test_known_encodings() {
    assert_eq!(vec![0x82, 0x01], encode_varint(65));
    assert_eq!(vec![0x01], encode_varint(-1));
    assert_eq!(vec![0x00], encode_varint(0));
    let mut cursor = Cursor::new(&[0xD8, 0x04]);
    assert_eq!(Ok(300), cursor.get_signed_varint());
}
