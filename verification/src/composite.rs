//! Compositing a mask onto an image as its alpha channel.

use crate::error::CompositeError;
use crate::raster::{rgba_len, Mask, RgbaImage};
use vstd::prelude::*;

verus! {

/// An RGBA buffer with each alpha byte replaced by the level of its pixel.
pub open spec fn composited(pixels: Seq<u8>, levels: Seq<u8>) -> Seq<u8> {
    Seq::new(
        pixels.len(),
        |i: int|
            if i % 4 == 3 {
                levels[i / 4]
            } else {
                pixels[i]
            },
    )
}

/// Gives every pixel of `image` the level of `mask` at the same place as
/// its alpha. Colour is kept as it is: nothing is blended.
pub fn apply_mask(image: &RgbaImage, mask: &Mask) -> (r: Result<RgbaImage, CompositeError>)
    ensures
        r is Ok <==> mask.width() == image.width() && mask.height() == image.height(),
        r matches Err(e) ==> e == CompositeError::DimensionMismatch,
        r matches Ok(out) ==> {
            &&& out.width() == image.width()
            &&& out.height() == image.height()
            &&& out@ == composited(image@, mask@)
            &&& out@.len() == rgba_len(image.width(), image.height())
            &&& forall|x: u32, y: u32, c: int|
                x < image.width() && y < image.height() && 0 <= c < 3 ==> #[trigger] out.channel(
                    x,
                    y,
                    c,
                ) == image.channel(x, y, c)
            &&& forall|x: u32, y: u32|
                x < image.width() && y < image.height() ==> #[trigger] out.channel(x, y, 3)
                    == mask.level(x, y)
        },
{
    if mask.width() != image.width() || mask.height() != image.height() {
        return Err(CompositeError::DimensionMismatch);
    }
    let pixels = image.as_raw();
    let levels = mask.as_raw();
    let n = levels.len();
    let mut data: Vec<u8> = Vec::new();
    let mut p: usize = 0;
    while p < n
        invariant
            p <= n,
            n == levels.len(),
            pixels.len() == 4 * n,
            data@.len() == 4 * p,
            forall|k: int| 0 <= k < 4 * p ==> data@[k] == composited(pixels@, levels@)[k],
        decreases n - p,
    {
        data.push(pixels[4 * p]);
        data.push(pixels[4 * p + 1]);
        data.push(pixels[4 * p + 2]);
        data.push(levels[p]);
        p += 1;
    }
    assert(data@ =~= composited(pixels@, levels@));
    let out = RgbaImage { width: image.width(), height: image.height(), data };
    proof {
        assert forall|x: u32, y: u32, c: int|
            x < image.width() && y < image.height() && 0 <= c < 3 implies #[trigger] out.channel(
            x,
            y,
            c,
        ) == image.channel(x, y, c) by {
            crate::raster::lemma_pixel_index_bound(image.width(), image.height(), x, y);
        }
        assert forall|x: u32, y: u32| x < image.width() && y < image.height() implies #[trigger] out.channel(
            x,
            y,
            3,
        ) == mask.level(x, y) by {
            crate::raster::lemma_pixel_index_bound(image.width(), image.height(), x, y);
        }
    }
    Ok(out)
}

} // verus!
