//! Encoding a result for transport to a user interface: the image as a PNG
//! file, the file as base64 text.
//!
//! The file is written by the `image` crate and the text by the `base64`
//! crate; this module states what the text is and proves what the two steps
//! give together.

use crate::error::EncodeError;
use crate::raster::{rgba_len, RgbaImage};
use base64::engine::general_purpose::STANDARD;
use base64::Engine;
use image::{DynamicImage, ImageBuffer, ImageError, ImageFormat, Rgba};
use std::io::Cursor;
use vstd::prelude::*;

verus! {

/// The error of the `image` crate.
#[verifier::external_type_specification]
#[verifier::external_body]
pub struct ExImageError(ImageError);

/// The character of a six-bit value in the standard base64 alphabet.
pub open spec fn base64_digit(value: int) -> char {
    if value < 26 {
        (65 + value) as char
    } else if value < 52 {
        (97 + value - 26) as char
    } else if value < 62 {
        (48 + value - 52) as char
    } else if value == 62 {
        '+'
    } else {
        '/'
    }
}

/// Byte `i` of `bytes`; 0 beyond the end.
pub open spec fn byte_or_zero(bytes: Seq<u8>, i: int) -> int {
    if i < bytes.len() {
        bytes[i] as int
    } else {
        0
    }
}

/// Character `i` of the base64 text of `bytes`: each group of three bytes
/// gives four characters of six bits each, and `=` stands where a group has
/// no byte to give.
pub open spec fn base64_char(bytes: Seq<u8>, i: int) -> char {
    let first = 3 * (i / 4);
    let b0 = byte_or_zero(bytes, first);
    let b1 = byte_or_zero(bytes, first + 1);
    let b2 = byte_or_zero(bytes, first + 2);
    if i % 4 == 0 {
        base64_digit(b0 / 4)
    } else if i % 4 == 1 {
        base64_digit((b0 % 4) * 16 + b1 / 16)
    } else if i % 4 == 2 {
        if first + 1 < bytes.len() {
            base64_digit((b1 % 16) * 4 + b2 / 64)
        } else {
            '='
        }
    } else {
        if first + 2 < bytes.len() {
            base64_digit(b2 % 64)
        } else {
            '='
        }
    }
}

/// Number of characters of the base64 text of `len` bytes.
pub open spec fn base64_len(len: nat) -> nat {
    4 * ((len + 2) / 3)
}

/// The base64 text of `bytes`, in the standard alphabet, padded.
pub open spec fn base64_text(bytes: Seq<u8>) -> Seq<char> {
    Seq::new(base64_len(bytes.len()), |i: int| base64_char(bytes, i))
}

/// The PNG file that the codec writes for a `width * height` RGBA image.
pub uninterp spec fn png_file(width: u32, height: u32, pixels: Seq<u8>) -> Seq<u8>;

/// `DynamicImage::write_to` of `image`, for an RGBA image over `data` and
/// the PNG format, into memory. The codec refuses an image of no width or
/// no height and writes every other: eight-bit RGBA is a colour type that
/// PNG has, the buffer has the length that the header announces, and
/// writing into memory does not fail. The file that it writes is a function
/// of the image. The image buffer takes `data` because it holds four bytes
/// for each pixel.
#[verifier::external_body]
fn write_png(width: u32, height: u32, data: Vec<u8>) -> (r: Result<Vec<u8>, ImageError>)
    requires
        data@.len() == rgba_len(width, height),
    ensures
        width == 0 || height == 0 ==> r is Err,
        width != 0 && height != 0 ==> r is Ok,
        r matches Ok(file) ==> file@ == png_file(width, height, data@),
{
    let buffer = ImageBuffer::<Rgba<u8>, Vec<u8>>::from_raw(width, height, data).unwrap();
    let mut file: Vec<u8> = Vec::new();
    DynamicImage::ImageRgba8(buffer).write_to(&mut Cursor::new(&mut file), ImageFormat::Png)?;
    Ok(file)
}

/// `Engine::encode` of `base64`, with the engine `STANDARD`: the standard
/// alphabet of RFC 4648, with padding. The bound on the length keeps the
/// text within what a string may hold.
#[verifier::external_body]
fn encode_standard(bytes: &Vec<u8>) -> (text: String)
    requires
        base64_len(bytes@.len()) <= isize::MAX,
    ensures
        text@ == base64_text(bytes@),
{
    STANDARD.encode(bytes)
}

/// The base64 text of `bytes`.
pub fn base64_encode(bytes: &Vec<u8>) -> (r: Result<String, EncodeError>)
    ensures
        r is Ok <==> base64_len(bytes@.len()) <= isize::MAX,
        r matches Ok(text) ==> text@ == base64_text(bytes@),
        r matches Err(e) ==> e == EncodeError::TooLong,
{
    let groups: u128 = (bytes.len() as u128 + 2) / 3;
    if 4 * groups <= isize::MAX as u128 {
        Ok(encode_standard(bytes))
    } else {
        Err(EncodeError::TooLong)
    }
}

/// The PNG file of `image`. An image of no width or no height has none;
/// every other image has one.
pub fn encode_png(image: &RgbaImage) -> (r: Result<Vec<u8>, EncodeError>)
    ensures
        r is Ok <==> image.width() > 0 && image.height() > 0,
        r matches Ok(file) ==> file@ == png_file(image.width(), image.height(), image@),
        r matches Err(e) ==> e == EncodeError::Codec,
{
    let data = image.as_raw().clone();
    assert(data@ =~= image@);
    match write_png(image.width(), image.height(), data) {
        Ok(file) => Ok(file),
        Err(_) => Err(EncodeError::Codec),
    }
}

/// Whether the base64 text of the PNG file of an image fits in memory.
pub open spec fn text_fits(width: u32, height: u32, pixels: Seq<u8>) -> bool {
    base64_len(png_file(width, height, pixels).len()) <= isize::MAX
}

/// The PNG file of `image` as base64 text.
///
/// Every image that has pixels gets its text, unless the text is too long
/// for memory: that is `TooLong`. An image of no width or no height has no
/// file: that is `Codec`.
pub fn to_png_base64(image: &RgbaImage) -> (r: Result<String, EncodeError>)
    ensures
        r is Ok <==> image.width() > 0 && image.height() > 0 && text_fits(
            image.width(),
            image.height(),
            image@,
        ),
        r matches Ok(text) ==> text@ == base64_text(
            png_file(image.width(), image.height(), image@),
        ),
        r matches Err(e) ==> e == (if image.width() == 0 || image.height() == 0 {
            EncodeError::Codec
        } else {
            EncodeError::TooLong
        }),
{
    match encode_png(image) {
        Ok(file) => base64_encode(&file),
        Err(e) => Err(e),
    }
}

} // verus!
