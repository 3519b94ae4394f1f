//! Resizing of RGBA images with alpha-aware resampling.
//!
//! Colour is multiplied by alpha before the image is resampled and divided
//! by alpha afterwards, so that the colour of transparent pixels does not
//! bleed into their neighbours. The three steps are done by the
//! `fast_image_resize` crate; this module states what each of them returns
//! and proves what the whole resize returns.

use crate::error::ResizeError;
use crate::raster::{
    area, gray_len, gray_to_rgba, lemma_area_bound, red_channel, rgba_len, Mask, RgbaImage,
};
use fast_image_resize::images::Image;
use fast_image_resize::{MulDiv, PixelType, ResizeOptions, Resizer};
use vstd::prelude::*;

verus! {

/// A colour byte scaled by `alpha / 255`, rounded to the nearest byte.
pub open spec fn mul_by_alpha(color: u8, alpha: u8) -> u8 {
    let t = color as int * alpha as int + 128;
    ((t / 256 + t) / 256) as u8
}

/// `255 / alpha` as a fixed-point number with eight fractional bits,
/// rounded to nearest; 0 for a fully transparent pixel.
pub open spec fn alpha_reciprocal(alpha: u8) -> int {
    if alpha == 0 {
        0
    } else {
        (130560int / (alpha as int) + 1) / 2
    }
}

/// A premultiplied colour byte scaled back by `255 / alpha`, rounded and
/// clipped to a byte. Where `alpha` is 0 the result is 0.
pub open spec fn div_by_alpha(color: u8, alpha: u8) -> u8 {
    let q = (color as int * alpha_reciprocal(alpha) + 128) / 256;
    if q > 255 {
        255u8
    } else {
        q as u8
    }
}

/// The alpha byte of the pixel that byte `i` of an RGBA buffer belongs to.
pub open spec fn alpha_at(pixels: Seq<u8>, i: int) -> u8 {
    pixels[i - i % 4 + 3]
}

/// An RGBA buffer with every colour byte multiplied by its pixel's alpha.
pub open spec fn premultiplied(pixels: Seq<u8>) -> Seq<u8> {
    Seq::new(
        pixels.len(),
        |i: int|
            if i % 4 == 3 {
                pixels[i]
            } else {
                mul_by_alpha(pixels[i], alpha_at(pixels, i))
            },
    )
}

/// An RGBA buffer with every colour byte divided by its pixel's alpha.
pub open spec fn unpremultiplied(pixels: Seq<u8>) -> Seq<u8> {
    Seq::new(
        pixels.len(),
        |i: int|
            if i % 4 == 3 {
                pixels[i]
            } else {
                div_by_alpha(pixels[i], alpha_at(pixels, i))
            },
    )
}

/// What the resizer's Lanczos convolution makes of a `width * height`
/// RGBA buffer when it resamples it to `target_width * target_height`
/// pixels of another size, all four channels treated alike.
pub uninterp spec fn convolved(
    width: u32,
    height: u32,
    pixels: Seq<u8>,
    target_width: u32,
    target_height: u32,
) -> Seq<u8>;

/// A `width * height` RGBA buffer resampled to `target_width *
/// target_height` pixels: the buffer itself where the size stays, its
/// convolution otherwise.
pub open spec fn resampled(
    width: u32,
    height: u32,
    pixels: Seq<u8>,
    target_width: u32,
    target_height: u32,
) -> Seq<u8> {
    if width == target_width && height == target_height {
        pixels
    } else {
        convolved(width, height, pixels, target_width, target_height)
    }
}

/// The pixels of a resized image: premultiplied, resampled, divided.
pub open spec fn resized(
    width: u32,
    height: u32,
    pixels: Seq<u8>,
    target_width: u32,
    target_height: u32,
) -> Seq<u8> {
    unpremultiplied(
        resampled(width, height, premultiplied(pixels), target_width, target_height),
    )
}

/// Whether every level of a mask is 0.
pub open spec fn is_blank(levels: Seq<u8>) -> bool {
    forall|i: int| 0 <= i < levels.len() ==> #[trigger] levels[i] == 0
}

/// The levels of a resized mask: the red channel of the gray image,
/// resized.
pub open spec fn resized_mask(
    width: u32,
    height: u32,
    levels: Seq<u8>,
    target_width: u32,
    target_height: u32,
) -> Seq<u8> {
    red_channel(resized(width, height, gray_to_rgba(levels), target_width, target_height))
}

/// Whether every colour byte of `pixels` comes back unchanged when it is
/// multiplied by its pixel's alpha and then divided by it.
pub open spec fn survives_alpha(pixels: Seq<u8>) -> bool {
    forall|i: int|
        0 <= i < pixels.len() && i % 4 != 3 ==> div_by_alpha(
            mul_by_alpha(#[trigger] pixels[i], alpha_at(pixels, i)),
            alpha_at(pixels, i),
        ) == pixels[i]
}

/// Whether every pixel of `pixels` is opaque.
pub open spec fn is_opaque(pixels: Seq<u8>) -> bool {
    forall|i: int| 0 <= i < pixels.len() && i % 4 == 3 ==> #[trigger] pixels[i] == 255
}

/// Colour multiplied by an alpha of 255 and divided by it is the colour
/// itself.
pub proof fn lemma_opaque_byte(color: u8)
    ensures
        mul_by_alpha(color, 255) == color,
        div_by_alpha(color, 255) == color,
{
}

/// Multiplying a buffer of whole pixels by alpha and dividing it again
/// gives the buffer back exactly where every colour byte survives.
pub proof fn lemma_alpha_round_trip(pixels: Seq<u8>)
    requires
        pixels.len() % 4 == 0,
    ensures
        unpremultiplied(premultiplied(pixels)) == pixels <==> survives_alpha(pixels),
{
    let there = premultiplied(pixels);
    let back = unpremultiplied(there);
    assert forall|i: int| 0 <= i < pixels.len() implies alpha_at(there, i) == alpha_at(pixels, i) by {
        let a = i - i % 4 + 3;
        assert(0 <= a < pixels.len() && a % 4 == 3);
    }
    if survives_alpha(pixels) {
        assert(back =~= pixels);
    }
    if back == pixels {
        assert forall|i: int| 0 <= i < pixels.len() && i % 4 != 3 implies div_by_alpha(
            mul_by_alpha(#[trigger] pixels[i], alpha_at(pixels, i)),
            alpha_at(pixels, i),
        ) == pixels[i] by {
            assert(back[i] == div_by_alpha(there[i], alpha_at(there, i)));
        }
    }
}

/// An opaque image survives: its colour is unchanged by alpha.
pub proof fn lemma_opaque_survives(pixels: Seq<u8>)
    requires
        pixels.len() % 4 == 0,
        is_opaque(pixels),
    ensures
        survives_alpha(pixels),
        premultiplied(pixels) == pixels,
        unpremultiplied(pixels) == pixels,
{
    assert forall|i: int| 0 <= i < pixels.len() implies alpha_at(pixels, i) == 255 by {
        let a = i - i % 4 + 3;
        assert(0 <= a < pixels.len() && a % 4 == 3);
        assert(pixels[a] == 255);
    }
    assert forall|i: int| 0 <= i < pixels.len() implies mul_by_alpha(pixels[i], 255) == pixels[i]
        && div_by_alpha(pixels[i], 255) == pixels[i] by {
        lemma_opaque_byte(pixels[i]);
    }
    assert(premultiplied(pixels) =~= pixels);
    assert(unpremultiplied(pixels) =~= pixels);
}

/// Resizing an image to the size it has gives the image back, pixel for
/// pixel, exactly where every colour byte survives its alpha; so it does
/// for every opaque image.
pub proof fn lemma_resize_to_same_size(width: u32, height: u32, pixels: Seq<u8>)
    requires
        pixels.len() == rgba_len(width, height),
    ensures
        resized(width, height, pixels, width, height) == pixels <==> survives_alpha(pixels),
        is_opaque(pixels) ==> resized(width, height, pixels, width, height) == pixels,
{
    lemma_alpha_round_trip(pixels);
    if is_opaque(pixels) {
        lemma_opaque_survives(pixels);
    }
}

/// A mask resized to the size it has is the mask itself.
pub proof fn lemma_resize_mask_to_same_size(width: u32, height: u32, levels: Seq<u8>)
    requires
        levels.len() == gray_len(width, height),
    ensures
        resized_mask(width, height, levels, width, height) == levels,
{
    let gray = gray_to_rgba(levels);
    assert(is_opaque(gray));
    lemma_resize_to_same_size(width, height, gray);
    assert(red_channel(gray) =~= levels);
}

/// Whether channel `channel` is 0 in every pixel of an RGBA buffer.
pub open spec fn channel_is_zero(pixels: Seq<u8>, channel: int) -> bool {
    forall|i: int| 0 <= i < pixels.len() && i % 4 == channel ==> #[trigger] pixels[i] == 0
}

/// Whether every channel that is 0 throughout `source` is 0 throughout
/// `target`.
pub open spec fn keeps_zero_channels(source: Seq<u8>, target: Seq<u8>) -> bool {
    forall|channel: int|
        0 <= channel < 4 && #[trigger] channel_is_zero(source, channel) ==> channel_is_zero(
            target,
            channel,
        )
}

/// Multiplying by alpha and dividing by alpha leave a channel of zeros as
/// it is.
pub proof fn lemma_alpha_keeps_zero_channels(pixels: Seq<u8>)
    ensures
        keeps_zero_channels(pixels, premultiplied(pixels)),
        keeps_zero_channels(pixels, unpremultiplied(pixels)),
{
    assert forall|alpha: u8| mul_by_alpha(0, alpha) == 0 && div_by_alpha(0, alpha) == 0 by {
        assert(0 * alpha_reciprocal(alpha) == 0);
    }
    assert forall|channel: int|
        0 <= channel < 4 && #[trigger] channel_is_zero(pixels, channel) implies channel_is_zero(
        premultiplied(pixels),
        channel,
    ) by {
        assert forall|i: int|
            0 <= i < pixels.len() && i % 4 == channel implies #[trigger] premultiplied(pixels)[i]
            == 0 by {
            assert(pixels[i] == 0);
        }
    }
    assert forall|channel: int|
        0 <= channel < 4 && #[trigger] channel_is_zero(pixels, channel) implies channel_is_zero(
        unpremultiplied(pixels),
        channel,
    ) by {
        assert forall|i: int|
            0 <= i < pixels.len() && i % 4 == channel implies #[trigger] unpremultiplied(
            pixels,
        )[i] == 0 by {
            assert(pixels[i] == 0);
        }
    }
}

/// Whether the buffers of a resize from images `width` pixels wide to
/// `target_width * target_height` pixels can be allocated: the target
/// buffer, and the intermediate buffer between the vertical and the
/// horizontal pass, each within `isize::MAX` bytes.
pub open spec fn resize_fits(width: u32, target_width: u32, target_height: u32) -> bool {
    &&& rgba_len(target_width, target_height) <= isize::MAX
    &&& rgba_len(width, target_height) + 4 <= isize::MAX
}

/// `MulDiv::multiply_alpha_inplace` of `fast_image_resize`, on a U8x4 image
/// over `data`. It leaves each alpha byte and replaces each colour byte `c`
/// of a pixel with alpha `a` by `(t + (t >> 8)) >> 8`, where `t` is
/// `c * a + 128`; each of the crate's CPU back ends computes that value.
/// Neither call fails: the buffer holds four bytes for each pixel, and
/// U8x4 is a pixel type that has alpha.
#[verifier::external_body]
fn multiply_alpha(width: u32, height: u32, data: Vec<u8>) -> (out: Vec<u8>)
    requires
        data@.len() == rgba_len(width, height),
    ensures
        out@ == premultiplied(data@),
{
    let mut image = Image::from_vec_u8(width, height, data, PixelType::U8x4).unwrap();
    MulDiv::default().multiply_alpha_inplace(&mut image).unwrap();
    image.into_vec()
}

/// `MulDiv::divide_alpha_inplace` of `fast_image_resize`, on a U8x4 image
/// over `data`. It leaves each alpha byte and replaces each colour byte `c`
/// of a pixel with alpha `a` by `min(255, (c * r + 128) >> 8)`, where `r`
/// is `((130560 / a) + 1) >> 1`, and by 0 where `a` is 0; each of the
/// crate's CPU back ends computes that value. Neither call fails: the
/// buffer holds four bytes for each pixel, and U8x4 is a pixel type that
/// has alpha.
#[verifier::external_body]
fn divide_alpha(width: u32, height: u32, data: Vec<u8>) -> (out: Vec<u8>)
    requires
        data@.len() == rgba_len(width, height),
    ensures
        out@ == unpremultiplied(data@),
{
    let mut image = Image::from_vec_u8(width, height, data, PixelType::U8x4).unwrap();
    MulDiv::default().divide_alpha_inplace(&mut image).unwrap();
    image.into_vec()
}

/// `Resizer::resize` of `fast_image_resize`, from a U8x4 image over `data`
/// into a new U8x4 image of the target size, with the default algorithm
/// (convolution with a Lanczos filter of three lobes) and the resizer's own
/// alpha handling switched off. Where the two sizes are equal the resizer
/// copies the pixels; otherwise the target holds the convolution, which is
/// a function of the source pixels and the two sizes. The target buffer has
/// four bytes per pixel. No call fails: the source buffer holds four bytes
/// for each pixel, both images have the same pixel type, and nothing is
/// cropped. The bound on the sizes keeps the target buffer and the
/// resizer's intermediate buffer within what a vector may hold. A channel
/// that is 0 in every source pixel is 0 in every target pixel: each target
/// byte is a weighted sum of source bytes of its own channel, plus a
/// rounding term of half a unit, cut off to whole units.
#[verifier::external_body]
fn resample(
    width: u32,
    height: u32,
    data: Vec<u8>,
    target_width: u32,
    target_height: u32,
) -> (out: Vec<u8>)
    requires
        data@.len() == rgba_len(width, height),
        resize_fits(width, target_width, target_height),
    ensures
        out@ == resampled(width, height, data@, target_width, target_height),
        !(width == target_width && height == target_height) ==> out@ == convolved(
            width,
            height,
            data@,
            target_width,
            target_height,
        ),
        out@.len() == rgba_len(target_width, target_height),
        keeps_zero_channels(data@, out@),
{
    let source = Image::from_vec_u8(width, height, data, PixelType::U8x4).unwrap();
    let mut target = Image::new(target_width, target_height, PixelType::U8x4);
    let options = ResizeOptions::new().use_alpha(false);
    Resizer::new().resize(&source, &mut target, &options).unwrap();
    target.into_vec()
}

/// Whether the buffers of a resize can be allocated.
fn fits(width: u32, target_width: u32, target_height: u32) -> (ok: bool)
    ensures
        ok == resize_fits(width, target_width, target_height),
{
    proof {
        lemma_area_bound(target_width, target_height);
        lemma_area_bound(width, target_height);
    }
    let limit = isize::MAX as u128;
    4 * area(target_width, target_height) <= limit && 4 * area(width, target_height) + 4 <= limit
}

/// Resizes `image` to `target_width * target_height` pixels.
///
/// Colour is premultiplied by alpha, the premultiplied image is resampled
/// with a Lanczos filter, and the result is divided by its alpha again; a
/// pixel whose alpha comes out as 0 has colour 0.
pub fn resize_rgba(image: &RgbaImage, target_width: u32, target_height: u32) -> (r: Result<
    RgbaImage,
    ResizeError,
>)
    ensures
        target_width == 0 || target_height == 0 ==> r == Err::<RgbaImage, ResizeError>(
            ResizeError::ZeroTarget,
        ),
        target_width > 0 && target_height > 0 && !resize_fits(
            image.width(),
            target_width,
            target_height,
        ) ==> r == Err::<RgbaImage, ResizeError>(ResizeError::TooLarge),
        target_width > 0 && target_height > 0 && resize_fits(
            image.width(),
            target_width,
            target_height,
        ) ==> r is Ok,
        r matches Ok(out) ==> {
            &&& out.width() == target_width
            &&& out.height() == target_height
            &&& out@ == resized(image.width(), image.height(), image@, target_width, target_height)
            &&& out@.len() == rgba_len(target_width, target_height)
            &&& target_width == image.width() && target_height == image.height()
                && survives_alpha(image@) ==> out@ == image@
            &&& keeps_zero_channels(image@, out@)
        },
{
    if target_width == 0 || target_height == 0 {
        return Err(ResizeError::ZeroTarget);
    }
    if !fits(image.width, target_width, target_height) {
        return Err(ResizeError::TooLarge);
    }
    proof {
        use_type_invariant(image);
        lemma_resize_to_same_size(image.width, image.height, image.data@);
    }
    let source = image.data.clone();
    assert(source@ =~= image.data@);
    let weighted = multiply_alpha(image.width, image.height, source);
    let scaled = resample(image.width, image.height, weighted, target_width, target_height);
    proof {
        lemma_alpha_keeps_zero_channels(image.data@);
        lemma_alpha_keeps_zero_channels(scaled@);
    }
    let data = divide_alpha(target_width, target_height, scaled);
    Ok(RgbaImage { width: target_width, height: target_height, data })
}

/// Resizes `mask` to `target_width * target_height` pixels, as an opaque
/// gray image.
pub fn resize_mask(mask: &Mask, target_width: u32, target_height: u32) -> (r: Result<
    Mask,
    ResizeError,
>)
    ensures
        target_width == 0 || target_height == 0 ==> r == Err::<Mask, ResizeError>(
            ResizeError::ZeroTarget,
        ),
        target_width > 0 && target_height > 0 && !resize_fits(
            mask.width(),
            target_width,
            target_height,
        ) ==> r == Err::<Mask, ResizeError>(ResizeError::TooLarge),
        target_width > 0 && target_height > 0 && resize_fits(
            mask.width(),
            target_width,
            target_height,
        ) ==> r is Ok,
        r matches Ok(out) ==> {
            &&& out.width() == target_width
            &&& out.height() == target_height
            &&& out@ == resized_mask(mask.width(), mask.height(), mask@, target_width, target_height)
            &&& out@.len() == gray_len(target_width, target_height)
            &&& target_width == mask.width() && target_height == mask.height() ==> out@ == mask@
            &&& is_blank(mask@) ==> is_blank(out@)
        },
{
    proof {
        use_type_invariant(mask);
        lemma_resize_mask_to_same_size(mask.width, mask.height, mask.data@);
    }
    let gray = mask.to_rgba();
    match resize_rgba(&gray, target_width, target_height) {
        Ok(image) => {
            let out = Mask::from_red(&image);
            proof {
                use_type_invariant(&out);
                if is_blank(mask@) {
                    assert(channel_is_zero(gray@, 0));
                    assert(channel_is_zero(image@, 0));
                    assert forall|i: int| 0 <= i < out@.len() implies #[trigger] out@[i] == 0 by {
                        assert(image@[4 * i] == 0);
                    }
                }
            }
            Ok(out)
        },
        Err(e) => Err(e),
    }
}

} // verus!
