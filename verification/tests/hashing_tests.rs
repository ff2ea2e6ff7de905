use webbuf::{double_ripemd160_hash, ripemd160_hash};

use hex::{decode, encode};

#[test]
fn test_hash() {
    let pub_key_hex = "03d03a42c710b7cf9085bd3115338f72b86f2d77859b6afe6d33b13ea8957a9722";
    let expected_pkh_hex = "5a95f9ebad92d7d0c145d835af4cecd73afd987e";

    let pub_key = decode(pub_key_hex).expect("Decoding failed");
    let expected_pkh = decode(expected_pkh_hex).expect("Decoding failed");

    let pkh = ripemd160_hash(&pub_key).unwrap();
    let pkh_hex = encode(&pkh);
    let expected_pkh_hex = encode(&expected_pkh);

    assert_eq!(pkh_hex, expected_pkh_hex);
}

#[test]
fn test_double_hash() {
    let pub_key_hex = "0341ee98513da8509fea0c89b81aca409e56f5aaa3076fb78233850ad0e54e2628";
    let expected_pkh_hex = "604c8206367d357d6a58d98d402bc49785da34c3";

    let pub_key = decode(pub_key_hex).expect("Decoding failed");
    let expected_pkh = decode(expected_pkh_hex).expect("Decoding failed");

    let pkh = double_ripemd160_hash(&pub_key).unwrap();
    let pkh_hex = encode(&pkh);
    let expected_pkh_hex = encode(&expected_pkh);

    assert_eq!(pkh_hex, expected_pkh_hex);
}

#[test]
fn test_hash_empty_input() {
    // The well-known RIPEMD-160 digest of the empty message
    let digest = ripemd160_hash(&[]).unwrap();
    assert_eq!(encode(&digest), "9c1185a5c5e9fc54612808977ee8f548b2258d31");
}

#[test]
fn test_double_hash_matches_two_single_hashes() {
    let data = b"double hashing test";
    let once = ripemd160_hash(data).unwrap();
    let twice = ripemd160_hash(&once).unwrap();
    assert_eq!(double_ripemd160_hash(data).unwrap(), twice);
}
