use rmbg::error::ResizeError;
use rmbg::raster::{Mask, RgbaImage};
use rmbg::resize::{resize_mask, resize_rgba};

fn opaque_image(width: u32, height: u32) -> RgbaImage {
    let mut data = Vec::new();
    for i in 0..(width * height) {
        data.push((i * 37 % 256) as u8);
        data.push((i * 91 % 256) as u8);
        data.push((255 - i * 13 % 256) as u8);
        data.push(255);
    }
    RgbaImage::from_raw(width, height, data).unwrap()
}

#[test]
fn resize_to_same_size_returns_an_opaque_image_unchanged() {
    let image = opaque_image(7, 5);
    let out = resize_rgba(&image, 7, 5).unwrap();
    assert_eq!(out, image);
}

#[test]
fn resize_to_same_size_clears_the_colour_of_a_transparent_pixel() {
    let image = RgbaImage::from_raw(1, 1, vec![10, 20, 30, 0]).unwrap();
    let out = resize_rgba(&image, 1, 1).unwrap();
    assert_eq!(out.as_raw(), &vec![0, 0, 0, 0]);
}

#[test]
fn resize_to_same_size_rounds_colour_through_alpha() {
    // 100 * 128 / 255 rounds to 50, and 50 * 255 / 128 back to 100;
    // 25 * 128 / 255 rounds to 13, and 13 * 255 / 128 to 26.
    let image = RgbaImage::from_raw(1, 1, vec![100, 50, 25, 128]).unwrap();
    let out = resize_rgba(&image, 1, 1).unwrap();
    assert_eq!(out.as_raw(), &vec![100, 50, 26, 128]);
}

#[test]
fn resize_to_same_size_clips_nothing_at_low_alpha() {
    // 200 * 1 / 255 rounds to 1, and 1 * 255 / 1 is 255.
    let image = RgbaImage::from_raw(1, 1, vec![200, 100, 0, 1]).unwrap();
    let out = resize_rgba(&image, 1, 1).unwrap();
    assert_eq!(out.as_raw(), &vec![255, 0, 0, 1]);
}

#[test]
fn resize_gives_the_target_dimensions() {
    let image = opaque_image(2, 2);
    let out = resize_rgba(&image, 4, 3).unwrap();
    assert_eq!(out.width(), 4);
    assert_eq!(out.height(), 3);
    assert_eq!(out.as_raw().len(), 48);
    let out = resize_rgba(&image, 1, 1).unwrap();
    assert_eq!(out.width(), 1);
    assert_eq!(out.height(), 1);
    assert_eq!(out.as_raw().len(), 4);
}

#[test]
fn resize_keeps_a_uniform_opaque_colour() {
    let mut data = Vec::new();
    for _ in 0..9 {
        data.extend_from_slice(&[255, 0, 128, 255]);
    }
    let image = RgbaImage::from_raw(3, 3, data).unwrap();
    let out = resize_rgba(&image, 8, 5).unwrap();
    for y in 0..5 {
        for x in 0..8 {
            assert_eq!(out.get_pixel(x, y).unwrap(), [255, 0, 128, 255]);
        }
    }
}

#[test]
fn resize_is_deterministic() {
    let image = opaque_image(5, 4);
    let first = resize_rgba(&image, 9, 7).unwrap();
    let second = resize_rgba(&image, 9, 7).unwrap();
    assert_eq!(first, second);
}

#[test]
fn resize_leaves_its_input_as_it_was() {
    let image = opaque_image(3, 3);
    let before = image.clone();
    let _ = resize_rgba(&image, 6, 6).unwrap();
    assert_eq!(image, before);
}

#[test]
fn resize_rejects_a_zero_target() {
    let image = opaque_image(2, 2);
    assert_eq!(resize_rgba(&image, 0, 5), Err(ResizeError::ZeroTarget));
    assert_eq!(resize_rgba(&image, 5, 0), Err(ResizeError::ZeroTarget));
    assert_eq!(resize_rgba(&image, 0, 0), Err(ResizeError::ZeroTarget));
}

#[test]
fn resize_rejects_a_target_beyond_any_allocation() {
    let image = opaque_image(2, 2);
    assert_eq!(resize_rgba(&image, u32::MAX, u32::MAX), Err(ResizeError::TooLarge));
}

#[test]
fn resize_of_an_empty_image_gives_transparent_black() {
    let image = RgbaImage::from_raw(0, 0, Vec::new()).unwrap();
    let out = resize_rgba(&image, 2, 2).unwrap();
    assert_eq!(out.as_raw(), &vec![0; 16]);
}

#[test]
fn resize_mask_to_same_size_returns_the_mask_unchanged() {
    let mask = Mask::from_raw(3, 2, vec![0, 50, 100, 150, 200, 255]).unwrap();
    let out = resize_mask(&mask, 3, 2).unwrap();
    assert_eq!(out, mask);
}

#[test]
fn resize_mask_gives_the_target_dimensions() {
    let mask = Mask::from_raw(2, 2, vec![0, 0, 255, 255]).unwrap();
    let out = resize_mask(&mask, 4, 6).unwrap();
    assert_eq!(out.width(), 4);
    assert_eq!(out.height(), 6);
    assert_eq!(out.as_raw().len(), 24);
    assert!(out.get(0, 0).unwrap() < out.get(0, 5).unwrap());
    assert_eq!(resize_mask(&mask, 0, 1), Err(ResizeError::ZeroTarget));
    assert_eq!(resize_mask(&mask, u32::MAX, u32::MAX), Err(ResizeError::TooLarge));
}

fn round_trip(color: u8, alpha: u8) -> u8 {
    let t = u32::from(color) * u32::from(alpha) + 128;
    let weighted = (t / 256 + t) / 256;
    if alpha == 0 {
        return 0;
    }
    let reciprocal = (130560 / u32::from(alpha) + 1) / 2;
    ((weighted * reciprocal + 128) / 256).min(255) as u8
}

#[test]
fn resize_to_same_size_rounds_every_colour_and_alpha_alike() {
    let mut data = Vec::with_capacity(4 * 256 * 256);
    for alpha in 0..=255u8 {
        for color in 0..=255u8 {
            data.extend_from_slice(&[color, 255 - color, color / 2, alpha]);
        }
    }
    let image = RgbaImage::from_raw(256, 256, data).unwrap();
    let out = resize_rgba(&image, 256, 256).unwrap();
    for alpha in 0..=255u8 {
        for color in 0..=255u8 {
            let expected = [
                round_trip(color, alpha),
                round_trip(255 - color, alpha),
                round_trip(color / 2, alpha),
                alpha,
            ];
            assert_eq!(out.get_pixel(u32::from(color), u32::from(alpha)).unwrap(), expected);
        }
    }
}

#[test]
fn resize_to_same_size_keeps_transparent_black() {
    let image = RgbaImage::from_raw(2, 1, vec![0, 0, 0, 0, 9, 9, 9, 255]).unwrap();
    let out = resize_rgba(&image, 2, 1).unwrap();
    assert_eq!(out, image);
}

#[test]
fn resize_keeps_a_channel_of_zeros_at_zero() {
    let mut data = Vec::new();
    for i in 0..35u32 {
        data.extend_from_slice(&[(i * 7) as u8, 0, (255 - i * 6) as u8, (100 + i * 4) as u8]);
    }
    let image = RgbaImage::from_raw(7, 5, data).unwrap();
    for (width, height) in [(3u32, 2u32), (7, 5), (16, 9), (1, 1), (7, 11)] {
        let out = resize_rgba(&image, width, height).unwrap();
        assert!(out.as_raw().chunks(4).all(|pixel| pixel[1] == 0));
    }
}

#[test]
fn resize_mask_keeps_a_blank_mask_blank() {
    let mask = Mask::from_raw(6, 4, vec![0; 24]).unwrap();
    for (width, height) in [(2u32, 2u32), (6, 4), (13, 9), (1, 7)] {
        let out = resize_mask(&mask, width, height).unwrap();
        assert!(out.as_raw().iter().all(|&level| level == 0));
    }
}
