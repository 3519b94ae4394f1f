use rmbg::raster::{Mask, RgbaImage};

#[test]
fn image_from_raw_takes_exact_length() {
    assert!(RgbaImage::from_raw(2, 3, vec![0; 24]).is_some());
    assert!(RgbaImage::from_raw(2, 3, vec![0; 23]).is_none());
    assert!(RgbaImage::from_raw(2, 3, vec![0; 25]).is_none());
    assert!(RgbaImage::from_raw(0, 7, Vec::new()).is_some());
    assert!(RgbaImage::from_raw(0, 7, vec![0; 4]).is_none());
}

#[test]
fn image_getters_return_what_was_given() {
    let data: Vec<u8> = (0u8..24).collect();
    let image = RgbaImage::from_raw(3, 2, data.clone()).unwrap();
    assert_eq!(image.width(), 3);
    assert_eq!(image.height(), 2);
    assert_eq!(image.as_raw(), &data);
    assert_eq!(image.get_pixel(0, 0).unwrap(), [0, 1, 2, 3]);
    assert_eq!(image.get_pixel(2, 0).unwrap(), [8, 9, 10, 11]);
    assert_eq!(image.get_pixel(0, 1).unwrap(), [12, 13, 14, 15]);
    assert_eq!(image.get_pixel(2, 1).unwrap(), [20, 21, 22, 23]);
    assert_eq!(image.get_pixel(3, 0), None);
    assert_eq!(image.get_pixel(0, 2), None);
    assert_eq!(image.clone(), image);
    assert_eq!(image.into_raw(), data);
}

#[test]
fn mask_from_raw_takes_exact_length() {
    assert!(Mask::from_raw(2, 3, vec![0; 6]).is_some());
    assert!(Mask::from_raw(2, 3, vec![0; 5]).is_none());
    assert!(Mask::from_raw(2, 3, vec![0; 24]).is_none());
}

#[test]
fn mask_getters_return_what_was_given() {
    let mask = Mask::from_raw(3, 2, vec![1, 2, 3, 4, 5, 6]).unwrap();
    assert_eq!(mask.width(), 3);
    assert_eq!(mask.height(), 2);
    assert_eq!(mask.get(0, 0).unwrap(), 1);
    assert_eq!(mask.get(2, 0).unwrap(), 3);
    assert_eq!(mask.get(1, 1).unwrap(), 5);
    assert_eq!(mask.get(3, 1), None);
    assert_eq!(mask.get(1, 2), None);
    assert_eq!(mask.as_raw(), &vec![1, 2, 3, 4, 5, 6]);
}

#[test]
fn mask_to_rgba_replicates_each_level_and_is_opaque() {
    let mask = Mask::from_raw(2, 1, vec![7, 200]).unwrap();
    let image = mask.to_rgba();
    assert_eq!(image.width(), 2);
    assert_eq!(image.height(), 1);
    assert_eq!(image.as_raw(), &vec![7, 7, 7, 255, 200, 200, 200, 255]);
}

#[test]
fn mask_from_red_takes_the_first_byte_of_each_pixel() {
    let image = RgbaImage::from_raw(2, 1, vec![1, 2, 3, 4, 5, 6, 7, 8]).unwrap();
    let mask = Mask::from_red(&image);
    assert_eq!(mask.width(), 2);
    assert_eq!(mask.height(), 1);
    assert_eq!(mask.as_raw(), &vec![1, 5]);
}
