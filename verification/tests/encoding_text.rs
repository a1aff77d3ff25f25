//! Tests of the textual encodings.

use citadel::cli::EncodedBytes;
use citadel::encoding::{
    decode_base64, decode_base64url, decode_hex, encode_base64, encode_base64url, to_hex,
    u64_to_dec,
};
use citadel::errors::InternalError;

#[test]
fn hex_known_vectors() {
    assert_eq!(to_hex(&[]), "");
    assert_eq!(to_hex(&[0x00, 0x01, 0xfe, 0xff]), "0001feff");
    assert_eq!(to_hex(&[0xde, 0xad, 0xbe, 0xef]), "deadbeef");
}

#[test]
fn hex_decode_round_trip_and_rejects() {
    assert_eq!(decode_hex(b"deadbeef"), Some(vec![0xde, 0xad, 0xbe, 0xef]));
    assert_eq!(decode_hex(b"DEADBEEF"), Some(vec![0xde, 0xad, 0xbe, 0xef]));
    assert_eq!(decode_hex(b""), Some(vec![]));
    assert_eq!(decode_hex(b"abc"), None);
    assert_eq!(decode_hex(b"zz"), None);
}

#[test]
fn encoded_bytes_accepts_prefixed_hex() {
    let v = EncodedBytes::decode(b"0x0a0b").expect("prefixed hex decodes");
    assert_eq!(v.0, vec![0x0a, 0x0b]);
    let v = EncodedBytes::decode(b"0a0b").expect("bare hex decodes");
    assert_eq!(v.0, vec![0x0a, 0x0b]);
    assert_eq!(
        EncodedBytes::decode(b"0xq").unwrap_err(),
        InternalError::InvalidInput
    );
}

#[test]
fn base64_known_vectors() {
    assert_eq!(encode_base64(b""), b"".to_vec());
    assert_eq!(encode_base64(b"f"), b"Zg==".to_vec());
    assert_eq!(encode_base64(b"fo"), b"Zm8=".to_vec());
    assert_eq!(encode_base64(b"foo"), b"Zm9v".to_vec());
    assert_eq!(encode_base64(b"foob"), b"Zm9vYg==".to_vec());
    assert_eq!(encode_base64(b"fooba"), b"Zm9vYmE=".to_vec());
    assert_eq!(encode_base64(b"foobar"), b"Zm9vYmFy".to_vec());
}

#[test]
fn base64_decode_round_trip_and_rejects() {
    for data in [
        b"".to_vec(),
        b"f".to_vec(),
        b"fo".to_vec(),
        b"foo".to_vec(),
        vec![0u8, 255, 128, 7, 9],
    ] {
        let enc = encode_base64(&data);
        assert_eq!(decode_base64(&enc), Some(data));
    }
    assert_eq!(decode_base64(b"Zm9"), None); // not a multiple of four
    assert_eq!(decode_base64(b"Zm9v Zg=="), None); // stray byte
    assert_eq!(decode_base64(b"Zh=="), None); // non-canonical low bits
    assert_eq!(decode_base64(b"Zg==Zg=="), None); // padding not final
}

#[test]
fn base64url_known_vectors_and_round_trip() {
    // The URL-safe digits 62 and 63 replace plus and slash, no padding.
    assert_eq!(encode_base64url(&[0xfb, 0xff]), b"-_8".to_vec());
    for data in [
        b"".to_vec(),
        b"f".to_vec(),
        b"fo".to_vec(),
        b"foo".to_vec(),
        vec![251u8, 255, 190, 0, 1],
    ] {
        let enc = encode_base64url(&data);
        assert_eq!(decode_base64url(&enc), Some(data));
    }
    assert_eq!(decode_base64url(b"A"), None); // impossible length
    assert_eq!(decode_base64url(b"Zh"), None); // non-canonical low bits
    assert_eq!(decode_base64url(b"Zm+v"), None); // standard-only digit
}

#[test]
fn decimal_rendering() {
    assert_eq!(u64_to_dec(0), "0");
    assert_eq!(u64_to_dec(7), "7");
    assert_eq!(u64_to_dec(1203), "1203");
    assert_eq!(u64_to_dec(u64::MAX), "18446744073709551615");
}
