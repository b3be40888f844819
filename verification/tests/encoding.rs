//! Base64.

use rs_sc::encoding::{decode_base64, encodable, encode_base64};

#[test]
fn base64_is_the_standard_alphabet_with_padding() {
    assert_eq!(encode_base64(b""), "");
    assert_eq!(encode_base64(b"f"), "Zg==");
    assert_eq!(encode_base64(b"fo"), "Zm8=");
    assert_eq!(encode_base64(b"foo"), "Zm9v");
    assert_eq!(encode_base64(&[0xFB, 0xFF, 0xBF]), "+/+/");
}

#[test]
fn decoding_gives_back_what_was_encoded() {
    for n in 0..70usize {
        let bytes: Vec<u8> = (0..n).map(|i| (i * 37 + n) as u8).collect();
        let text = encode_base64(&bytes);
        assert_eq!(text.len(), (n + 2) / 3 * 4);
        assert_eq!(text.trim(), text);
        assert_eq!(decode_base64(&text).unwrap(), bytes);
    }
}

#[test]
fn texts_that_encode_nothing_are_refused() {
    for text in ["Zg", "Zg=", "Zh==", "Zm9v=", "Z", "====", "Zm 9v", "Zg==Zg==", "中文"] {
        let refusal = decode_base64(text).unwrap_err();
        assert!(!refusal.is_empty(), "{}", text);
        assert_eq!(decode_base64(text).unwrap_err(), refusal);
    }
}

#[test]
fn sizes_that_fit_in_memory_are_encodable() {
    assert!(encodable(0));
    assert!(encodable(100_000_000));
    assert!(!encodable(usize::MAX));
}
