use rmbg::composite::apply_mask;
use rmbg::error::CompositeError;
use rmbg::raster::{Mask, RgbaImage};

#[test]
fn mask_level_becomes_the_alpha_of_the_pixel() {
    let image = RgbaImage::from_raw(1, 1, vec![10, 20, 30, 255]).unwrap();
    let mask = Mask::from_raw(1, 1, vec![200]).unwrap();
    let out = apply_mask(&image, &mask).unwrap();
    assert_eq!(out.get_pixel(0, 0).unwrap(), [10, 20, 30, 200]);
}

#[test]
fn every_pixel_keeps_its_colour_and_takes_its_own_level() {
    let image = RgbaImage::from_raw(
        2,
        2,
        vec![1, 2, 3, 4, 5, 6, 7, 8, 9, 10, 11, 12, 13, 14, 15, 16],
    )
    .unwrap();
    let mask = Mask::from_raw(2, 2, vec![0, 100, 200, 255]).unwrap();
    let out = apply_mask(&image, &mask).unwrap();
    assert_eq!(out.width(), 2);
    assert_eq!(out.height(), 2);
    assert_eq!(
        out.as_raw(),
        &vec![1, 2, 3, 0, 5, 6, 7, 100, 9, 10, 11, 200, 13, 14, 15, 255]
    );
}

#[test]
fn a_mask_of_another_size_is_rejected() {
    let image = RgbaImage::from_raw(2, 1, vec![0; 8]).unwrap();
    let tall = Mask::from_raw(1, 2, vec![0; 2]).unwrap();
    let wide = Mask::from_raw(3, 1, vec![0; 3]).unwrap();
    assert_eq!(apply_mask(&image, &tall), Err(CompositeError::DimensionMismatch));
    assert_eq!(apply_mask(&image, &wide), Err(CompositeError::DimensionMismatch));
}

#[test]
fn compositing_leaves_its_inputs_as_they_were() {
    let image = RgbaImage::from_raw(1, 1, vec![10, 20, 30, 40]).unwrap();
    let mask = Mask::from_raw(1, 1, vec![99]).unwrap();
    let _ = apply_mask(&image, &mask).unwrap();
    assert_eq!(image.as_raw(), &vec![10, 20, 30, 40]);
    assert_eq!(mask.as_raw(), &vec![99]);
}
