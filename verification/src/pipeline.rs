//! One background-removal run, around an inference engine that the caller
//! drives.
//!
//! A run has two steps. `start` encodes the image and hands out the tensor
//! for the engine. `Pending::finish` takes what the engine answered and
//! gives the image with its background made transparent, or the failure of
//! the stage that failed. A run that fails gives no image.

use crate::composite::{apply_mask, composited};
use crate::error::{Error, ResizeError, ShapeError};
use crate::raster::{gray_len, rgba_len, RgbaImage};
use crate::resize::{
    is_blank, lemma_resize_mask_to_same_size, resize_fits, resize_mask, resized_mask,
};
use crate::tensor::{
    decoded, encoded, is_batched_map, max_score, min_score, postprocess_image, preprocess_image,
    ScoreMap, Tensor, FALLBACK_LEVEL, MODEL_CHANNELS, MODEL_HEIGHT, MODEL_WIDTH, SAMPLE_SCALE,
};
use vstd::prelude::*;

verus! {

/// What the inference engine answered.
#[derive(Debug)]
pub enum EngineReply {
    /// The output tensor: its shape, `[1, 1, height, width]` for a proper
    /// answer, and its scores, row by row.
    Output { shape: Vec<usize>, scores: Vec<i64> },
    /// The engine could not run the model.
    Failed,
}

/// A run that waits for the engine's answer. It keeps the image that the
/// mask will be composited onto.
#[derive(Debug)]
pub struct Pending {
    pub(crate) image: RgbaImage,
}

/// The pixels of an image with its background removed: the mask decoded
/// from `scores`, resized to the image's size, as the image's alpha.
pub open spec fn background_removed(
    width: u32,
    height: u32,
    pixels: Seq<u8>,
    scores: Seq<i64>,
) -> Seq<u8> {
    composited(pixels, resized_mask(MODEL_WIDTH, MODEL_HEIGHT, decoded(scores), width, height))
}

/// Whether the alpha of every pixel of an RGBA buffer is the fallback
/// level.
pub open spec fn is_transparent(pixels: Seq<u8>) -> bool {
    forall|i: int| 0 <= i < pixels.len() && i % 4 == 3 ==> #[trigger] pixels[i] == FALLBACK_LEVEL
}

/// Why an engine output of the given shape and length is no score map of
/// the model's resolution, if it is none.
pub open spec fn output_fault(shape: Seq<usize>, len: nat) -> Option<ShapeError> {
    if !is_batched_map(shape) {
        Some(ShapeError::WrongShape)
    } else if len != shape[2] as int * shape[3] as int {
        Some(ShapeError::WrongLength)
    } else if shape[2] != MODEL_HEIGHT || shape[3] != MODEL_WIDTH {
        Some(ShapeError::WrongShape)
    } else {
        None
    }
}

/// Why a mask of the model's resolution cannot be resized to `width *
/// height` pixels, if it cannot.
pub open spec fn upscale_fault(width: u32, height: u32) -> Option<ResizeError> {
    if width == 0 || height == 0 {
        Some(ResizeError::ZeroTarget)
    } else if !resize_fits(MODEL_WIDTH, width, height) {
        Some(ResizeError::TooLarge)
    } else {
        None
    }
}

/// Removing the background keeps every colour byte of the image and puts
/// a level of the resized mask, a value from 0 to 255, in place of each
/// alpha byte.
pub proof fn lemma_background_removed(
    width: u32,
    height: u32,
    pixels: Seq<u8>,
    scores: Seq<i64>,
    i: int,
)
    requires
        0 <= i < pixels.len(),
    ensures
        background_removed(width, height, pixels, scores).len() == pixels.len(),
        i % 4 != 3 ==> background_removed(width, height, pixels, scores)[i] == pixels[i],
        i % 4 == 3 ==> background_removed(width, height, pixels, scores)[i] == resized_mask(
            MODEL_WIDTH,
            MODEL_HEIGHT,
            decoded(scores),
            width,
            height,
        )[i / 4],
        0 <= background_removed(width, height, pixels, scores)[i] <= 255,
{
}

/// On an image of the model's resolution the mask is not resampled: the
/// alpha of each pixel is the level decoded from that pixel's score.
pub proof fn lemma_background_removed_at_model_size(pixels: Seq<u8>, scores: Seq<i64>)
    requires
        scores.len() == gray_len(MODEL_WIDTH, MODEL_HEIGHT),
    ensures
        background_removed(MODEL_WIDTH, MODEL_HEIGHT, pixels, scores) == composited(
            pixels,
            decoded(scores),
        ),
{
    lemma_resize_mask_to_same_size(MODEL_WIDTH, MODEL_HEIGHT, decoded(scores));
}

/// Decodes `scores` into a mask, resizes the mask to the size of `image`
/// and composites it onto `image` as its alpha channel.
pub fn remove_background(image: &RgbaImage, scores: &ScoreMap) -> (r: Result<RgbaImage, Error>)
    ensures
        scores.height() != MODEL_HEIGHT || scores.width() != MODEL_WIDTH ==> r == Err::<
            RgbaImage,
            Error,
        >(Error::Postprocess(ShapeError::WrongShape)),
        scores.height() == MODEL_HEIGHT && scores.width() == MODEL_WIDTH ==> match upscale_fault(
            image.width(),
            image.height(),
        ) {
            Some(e) => r == Err::<RgbaImage, Error>(Error::Resize(e)),
            None => r is Ok,
        },
        r matches Ok(out) ==> {
            &&& out.width() == image.width()
            &&& out.height() == image.height()
            &&& out@ == background_removed(image.width(), image.height(), image@, scores@)
            &&& out@.len() == rgba_len(image.width(), image.height())
            &&& forall|i: int| 0 <= i < out@.len() && i % 4 != 3 ==> #[trigger] out@[i] == image@[i]
            &&& min_score(scores@) == max_score(scores@) ==> is_transparent(out@)
        },
{
    let small = match postprocess_image(scores) {
        Ok(mask) => mask,
        Err(e) => {
            return Err(Error::Postprocess(e));
        },
    };
    let mask = match resize_mask(&small, image.width(), image.height()) {
        Ok(mask) => mask,
        Err(e) => {
            return Err(Error::Resize(e));
        },
    };
    match apply_mask(image, &mask) {
        Ok(out) => {
            proof {
                if min_score(scores@) == max_score(scores@) {
                    assert(is_blank(small@));
                    assert forall|i: int|
                        0 <= i < out@.len() && i % 4 == 3 implies #[trigger] out@[i]
                        == FALLBACK_LEVEL by {
                        assert(mask@[i / 4] == 0);
                    }
                }
            }
            Ok(out)
        },
        Err(e) => Err(Error::Composite(e)),
    }
}

/// Starts a run on `image`: encodes it as the model's input.
///
/// The caller runs the engine on the tensor, in the shape that
/// `Tensor::batched_shape` gives, and hands the answer to
/// `Pending::finish`.
pub fn start(image: RgbaImage) -> (r: Result<(Pending, Tensor), Error>)
    ensures
        resize_fits(image.width(), MODEL_WIDTH, MODEL_HEIGHT) ==> r is Ok,
        !resize_fits(image.width(), MODEL_WIDTH, MODEL_HEIGHT) ==> r == Err::<
            (Pending, Tensor),
            Error,
        >(Error::Resize(ResizeError::TooLarge)),
        r matches Ok((pending, tensor)) ==> {
            &&& pending.image()@ == image@
            &&& pending.image().width() == image.width()
            &&& pending.image().height() == image.height()
            &&& tensor.shape() == (MODEL_CHANNELS, MODEL_HEIGHT as usize, MODEL_WIDTH as usize)
            &&& tensor@ == encoded(image.width(), image.height(), image@)
            &&& tensor@.len() == 3 * gray_len(MODEL_WIDTH, MODEL_HEIGHT)
            &&& forall|i: int|
                0 <= i < tensor@.len() ==> -SAMPLE_SCALE <= 2 * #[trigger] tensor@[i]
                    <= SAMPLE_SCALE
        },
{
    match preprocess_image(&image) {
        Ok(tensor) => Ok((Pending { image }, tensor)),
        Err(e) => Err(e),
    }
}

impl Pending {
    /// The image of this run.
    pub open(crate) spec fn spec_image(&self) -> &RgbaImage {
        &self.image
    }

    /// The image of this run.
    #[verifier::when_used_as_spec(spec_image)]
    pub fn image(&self) -> (image: &RgbaImage)
        ensures
            image == self.image(),
    {
        &self.image
    }

    /// Finishes the run with the engine's answer.
    ///
    /// The result has the size of the run's image and its colour; its alpha
    /// is the mask decoded from the answer, which is the fallback level
    /// everywhere where all scores are equal. The run fails with `Inference`
    /// where the engine failed, with `Postprocess` where its output is no
    /// score map of the model's resolution, and with `Resize` where the
    /// mask cannot be resized to the image's size.
    pub fn finish(self, reply: EngineReply) -> (r: Result<RgbaImage, Error>)
        ensures
            match reply {
                EngineReply::Failed => r == Err::<RgbaImage, Error>(Error::Inference),
                EngineReply::Output { shape, scores } => match output_fault(
                    shape@,
                    scores@.len(),
                ) {
                    Some(e) => r == Err::<RgbaImage, Error>(Error::Postprocess(e)),
                    None => match upscale_fault(self.image().width(), self.image().height()) {
                        Some(e) => r == Err::<RgbaImage, Error>(Error::Resize(e)),
                        None => r matches Ok(out) && out@ == background_removed(
                            self.image().width(),
                            self.image().height(),
                            self.image()@,
                            scores@,
                        ) && (min_score(scores@) == max_score(scores@) ==> is_transparent(out@)),
                    },
                },
            },
            r matches Ok(out) ==> {
                &&& out.width() == self.image().width()
                &&& out.height() == self.image().height()
                &&& out@.len() == rgba_len(self.image().width(), self.image().height())
                &&& forall|i: int|
                    0 <= i < out@.len() && i % 4 != 3 ==> #[trigger] out@[i] == self.image()@[i]
            },
    {
        match reply {
            EngineReply::Failed => Err(Error::Inference),
            EngineReply::Output { shape, scores } => {
                match ScoreMap::from_batched(&shape, scores) {
                    Ok(map) => remove_background(&self.image, &map),
                    Err(e) => Err(Error::Postprocess(e)),
                }
            },
        }
    }
}

} // verus!
