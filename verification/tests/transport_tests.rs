use base64::engine::general_purpose::STANDARD;
use base64::Engine;
use rmbg::error::EncodeError;
use rmbg::raster::RgbaImage;
use rmbg::transport::{base64_encode, encode_png, to_png_base64};

fn sample_image() -> RgbaImage {
    let mut data = Vec::new();
    for i in 0..12u8 {
        data.extend_from_slice(&[i * 20, 255 - i * 20, i, 17 * i]);
    }
    RgbaImage::from_raw(4, 3, data).unwrap()
}

#[test]
fn base64_encode_follows_the_standard_alphabet() {
    assert_eq!(base64_encode(&Vec::new()).unwrap(), "");
    assert_eq!(base64_encode(&b"f".to_vec()).unwrap(), "Zg==");
    assert_eq!(base64_encode(&b"fo".to_vec()).unwrap(), "Zm8=");
    assert_eq!(base64_encode(&b"foo".to_vec()).unwrap(), "Zm9v");
    assert_eq!(base64_encode(&b"foob".to_vec()).unwrap(), "Zm9vYg==");
    assert_eq!(base64_encode(&b"fooba".to_vec()).unwrap(), "Zm9vYmE=");
    assert_eq!(base64_encode(&b"foobar".to_vec()).unwrap(), "Zm9vYmFy");
    assert_eq!(base64_encode(&vec![0xfb, 0xff, 0xbe]).unwrap(), "+/++");
    assert_eq!(base64_encode(&vec![0, 0, 0]).unwrap(), "AAAA");
    assert_eq!(base64_encode(&vec![255]).unwrap(), "/w==");
}

#[test]
fn base64_encode_has_four_characters_for_three_bytes() {
    for len in 0..50usize {
        let bytes: Vec<u8> = (0..len).map(|i| (i * 37) as u8).collect();
        let text = base64_encode(&bytes).unwrap();
        assert_eq!(text.len(), 4 * ((len + 2) / 3));
        assert_eq!(STANDARD.decode(&text).unwrap(), bytes);
    }
}

#[test]
fn encode_png_writes_a_file_that_reads_back_as_the_image() {
    let image = sample_image();
    let file = encode_png(&image).unwrap();
    assert_eq!(&file[..8], &[137, 80, 78, 71, 13, 10, 26, 10]);
    let read = image::load_from_memory(&file).unwrap();
    assert_eq!(read.width(), 4);
    assert_eq!(read.height(), 3);
    assert_eq!(&read.to_rgba8().into_raw(), image.as_raw());
}

#[test]
fn encode_png_is_a_function_of_the_image() {
    let first = encode_png(&sample_image()).unwrap();
    let second = encode_png(&sample_image()).unwrap();
    assert_eq!(first, second);
}

#[test]
fn encode_png_refuses_an_image_without_pixels() {
    let empty = RgbaImage::from_raw(0, 0, Vec::new()).unwrap();
    assert_eq!(encode_png(&empty), Err(EncodeError::Codec));
    let flat = RgbaImage::from_raw(5, 0, Vec::new()).unwrap();
    assert_eq!(encode_png(&flat), Err(EncodeError::Codec));
    assert_eq!(to_png_base64(&flat), Err(EncodeError::Codec));
}

#[test]
fn to_png_base64_is_the_text_of_the_file() {
    let image = sample_image();
    let text = to_png_base64(&image).unwrap();
    let file = encode_png(&image).unwrap();
    assert_eq!(text, base64_encode(&file).unwrap());
    let read = image::load_from_memory(&STANDARD.decode(&text).unwrap()).unwrap();
    assert_eq!(&read.to_rgba8().into_raw(), image.as_raw());
}

#[test]
fn encode_png_writes_every_image_that_has_pixels() {
    for (width, height) in [(1u32, 1u32), (1, 300), (300, 1), (17, 9)] {
        let data: Vec<u8> = (0..4 * width * height).map(|i| (i * 31 % 256) as u8).collect();
        let image = RgbaImage::from_raw(width, height, data).unwrap();
        let file = encode_png(&image).unwrap();
        let read = image::load_from_memory(&file).unwrap();
        assert_eq!(read.width(), width);
        assert_eq!(read.height(), height);
        assert_eq!(&read.to_rgba8().into_raw(), image.as_raw());
        assert!(to_png_base64(&image).is_ok());
    }
}

#[test]
fn to_png_base64_refuses_only_an_image_without_pixels() {
    let narrow = RgbaImage::from_raw(0, 4, Vec::new()).unwrap();
    assert_eq!(to_png_base64(&narrow), Err(EncodeError::Codec));
    let pixel = RgbaImage::from_raw(1, 1, vec![1, 2, 3, 4]).unwrap();
    assert!(to_png_base64(&pixel).is_ok());
}
