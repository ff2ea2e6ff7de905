use webbuf::{decode_base64, decode_hex, encode_base64, encode_hex};

#[test]
fn test_encode_base64() {
    let input = b"Hello, world!";
    let expected_output = "SGVsbG8sIHdvcmxkIQ==";
    let result = encode_base64(input);
    assert_eq!(result, expected_output);
}

#[test]
fn test_decode_base64_valid() {
    let input = "SGVsbG8sIHdvcmxkIQ==";
    let expected_output = "Hello, world!";
    let result = decode_base64(input).unwrap();
    assert_eq!(result, expected_output);
}

#[test]
fn test_decode_base64_invalid() {
    let input = "invalid_base64";
    let result = decode_base64(input);
    assert!(result.is_err());
    assert_eq!(result.err().unwrap(), "invalid base64");
}

#[test]
fn test_decode_base64_not_utf8() {
    // "/w==" decodes to the single byte 0xFF, which is not valid UTF-8
    let result = decode_base64("/w==");
    assert!(result.is_err());
    assert_eq!(result.err().unwrap(), "invalid UTF-8");
}

#[test]
fn test_encode_base64_empty() {
    let empty: [u8; 0] = [];
    assert_eq!(encode_base64(&empty), "");
}

#[test]
fn test_base64_round_trip() {
    // Decoding inverts encoding for every UTF-8 payload
    for s in ["", "a", "ab", "abc", "Hello, world!", "padded input..", "\u{00e9}\u{4e16}\u{754c}"] {
        let encoded = encode_base64(s.as_bytes());
        assert_eq!(decode_base64(&encoded).unwrap(), s);
    }
}

#[test]
fn test_encode_hex() {
    let input = b"Hello, world!";
    let expected_output = "48656c6c6f2c20776f726c6421";
    let result = encode_hex(input);
    assert_eq!(result, expected_output);
}

#[test]
fn test_decode_hex_valid() {
    let input = "48656c6c6f2c20776f726c6421";
    let expected_output = "Hello, world!";
    let result = decode_hex(input).unwrap();
    assert_eq!(result, expected_output);
}

#[test]
fn test_decode_hex_invalid() {
    let input = "zzzz";
    let result = decode_hex(input);
    assert!(result.is_err());
    assert_eq!(result.err().unwrap(), "invalid hex");
}

#[test]
fn test_decode_hex_odd_length() {
    let result = decode_hex("abc");
    assert!(result.is_err());
    assert_eq!(result.err().unwrap(), "invalid hex");
}

#[test]
fn test_decode_hex_uppercase() {
    // Both cases of hex digits are accepted
    assert_eq!(decode_hex("48454C4C4F").unwrap(), "HELLO");
}

#[test]
fn test_decode_hex_not_utf8() {
    // 0xFF is not valid UTF-8
    let result = decode_hex("ff");
    assert!(result.is_err());
    assert_eq!(result.err().unwrap(), "invalid UTF-8");
}
