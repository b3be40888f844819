//! Cropping and encoding.

use rs_sc::capture::{crop_in_range, crop_rgba, encode_png, png_result};
use rs_sc::error::AppError;

fn picture(w: u32, h: u32) -> Vec<u8> {
    (0..w * h * 4).map(|i| (i % 251) as u8).collect()
}

#[test]
fn crop_takes_the_rectangle() {
    let rgba = picture(5, 4);
    let out = crop_rgba(&rgba, 5, 1, 2, 3, 2);
    assert_eq!(out.len(), 3 * 2 * 4);
    for r in 0..2usize {
        for c in 0..3usize {
            for k in 0..4usize {
                assert_eq!(out[(r * 3 + c) * 4 + k], rgba[((2 + r) * 5 + 1 + c) * 4 + k]);
            }
        }
    }
    assert_eq!(crop_rgba(&rgba, 5, 0, 0, 5, 4), rgba);
}

#[test]
fn crop_leaves_out_rows_past_the_end() {
    let rgba = picture(2, 2);
    assert_eq!(crop_rgba(&rgba, 2, 0, 1, 2, 3), rgba[8..].to_vec());
    assert!(crop_rgba(&rgba, 2, 0, 0, 0, 2).is_empty());
}

#[test]
fn crop_range_is_that_of_32_bits() {
    assert!(crop_in_range(1920, 0, 0, 1920, 1080));
    assert!(!crop_in_range(1920, 0, u32::MAX, 1, 1));
    assert!(!crop_in_range(1, 0, 0, 65536, 65536));
    assert!(!crop_in_range(u32::MAX, 0, 1, 1, 1));
    assert!(crop_in_range(u32::MAX, u32::MAX, u32::MAX, 1, 0));
}

fn pixels(png: &[u8]) -> (u32, u32, Vec<u8>) {
    let decoder = image::codecs::png::PngDecoder::new(std::io::Cursor::new(png)).unwrap();
    match image::DynamicImage::from_decoder(decoder).unwrap() {
        image::DynamicImage::ImageRgba8(back) => (back.width(), back.height(), back.into_raw()),
        _ => unreachable!(),
    }
}

#[test]
fn png_holds_the_pixels() {
    for (w, h) in [(1, 1), (7, 3), (1, 300), (300, 1), (64, 64)] {
        let rgba = picture(w, h);
        let png = encode_png(&rgba, w, h).unwrap();
        assert_eq!(&png[1..4], b"PNG");
        assert_eq!(pixels(&png), (w, h, rgba.clone()));
        assert_eq!(encode_png(&rgba, w, h).unwrap(), png);
    }
}

#[test]
fn bytes_past_the_picture_are_not_encoded() {
    let mut rgba = picture(4, 2);
    let png = encode_png(&rgba, 4, 2).unwrap();
    rgba.extend_from_slice(&[1, 2, 3]);
    assert_eq!(pixels(&encode_png(&rgba, 4, 2).unwrap()), pixels(&png));
}

#[test]
fn png_needs_enough_bytes() {
    match encode_png(&[0; 15], 2, 2) {
        Err(AppError::Capture(m)) => assert_eq!(m, "invalid RGBA dimensions for PNG"),
        _ => unreachable!(),
    }
}

#[test]
fn encoder_answers_become_results() {
    assert_eq!(png_result(Some(Ok(vec![1, 2]))).unwrap(), vec![1, 2]);
    match png_result(Some(Err("broken".to_string()))) {
        Err(AppError::Capture(m)) => assert_eq!(m, "PNG encode error: broken"),
        _ => unreachable!(),
    }
    assert!(png_result(None).is_err());
}

#[test]
fn empty_picture_is_an_encoder_error() {
    for (w, h) in [(0, 0), (0, 5), (5, 0)] {
        match encode_png(&[], w, h) {
            Err(AppError::Capture(m)) => assert!(m.starts_with("PNG encode error: "), "{}", m),
            _ => unreachable!(),
        }
    }
}

#[test]
fn errors_print_with_their_kind() {
    assert_eq!(AppError::Capture("a".to_string()).message(), "capture error: a");
    assert_eq!(AppError::Image("b".to_string()).message(), "image error: b");
    assert_eq!(AppError::Ai("c".to_string()).message(), "AI error: c");
    assert_eq!(AppError::Tauri("d".to_string()).message(), "Tauri error: d");
}
