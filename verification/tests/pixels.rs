//! Pixel arithmetic.

use rs_sc::pixels::{blit_pixels, darken_pixels, dim_levels, draw_border, rgba_to_softbuffer};

#[test]
fn alpha_is_dropped_and_channels_are_packed() {
    assert_eq!(rgba_to_softbuffer(&[1, 2, 3, 4, 255, 0, 16, 9]), vec![0x0001_0203, 0x00FF_0010]);
    assert_eq!(rgba_to_softbuffer(&[1, 2, 3, 4, 5]), vec![0x0001_0203]);
    assert!(rgba_to_softbuffer(&[]).is_empty());
}

#[test]
fn dimming_is_to_fifty_five_percent() {
    let levels = dim_levels();
    assert_eq!(levels.len(), 256);
    for c in 0u32..256 {
        assert_eq!(levels[c as usize] as u32, (c as f32 * 0.55) as u32);
        assert!(levels[c as usize] as u32 <= c);
    }
    assert_eq!(darken_pixels(&[0x00FF_8010, 0], &levels), vec![0x008C_4608, 0]);
}

#[test]
fn blit_copies_a_rectangle_between_strides() {
    let src: Vec<u32> = (0..12).collect();
    let mut dst = vec![100u32; 9];
    blit_pixels(&mut dst, 3, &src, 4, 1, 1, 0, 1, 2, 2);
    assert_eq!(dst, vec![100, 100, 100, 5, 6, 100, 9, 10, 100]);
}

#[test]
fn blit_skips_rows_outside_a_buffer() {
    let src: Vec<u32> = (0..4).collect();
    let mut dst = vec![7u32; 4];
    blit_pixels(&mut dst, 2, &src, 2, 0, 1, 0, 0, 2, 2);
    assert_eq!(dst, vec![2, 3, 7, 7]);
}

#[test]
fn border_is_drawn_inside_the_rectangle() {
    let mut buf = vec![0u32; 36];
    draw_border(&mut buf, 6, 6, 1, 1, 4, 4, 9, 1);
    for r in 0..6usize {
        for c in 0..6usize {
            let inside = (1..5).contains(&r) && (1..5).contains(&c);
            let edge = inside && (r == 1 || r == 4 || c == 1 || c == 4);
            assert_eq!(buf[r * 6 + c], if edge { 9 } else { 0 }, "{} {}", r, c);
        }
    }
    draw_border(&mut buf, 6, 6, 1, 1, 4, 4, 8, 2);
    assert_eq!(buf.iter().filter(|&&p| p == 8).count(), 16);
}

#[test]
fn border_is_cut_off_at_the_buffer() {
    let mut buf = vec![0u32; 9];
    draw_border(&mut buf, 3, 3, 1, 1, 50, 50, 5, 1);
    assert_eq!(buf, vec![0, 0, 0, 0, 5, 5, 0, 5, 5]);
}
