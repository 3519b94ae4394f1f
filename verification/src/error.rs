//! Failures of the conversion stages.

use vstd::prelude::*;

verus! {

/// Why an image could not be resized.
#[derive(Clone, Copy, Debug, PartialEq, Eq)]
pub enum ResizeError {
    /// The target width or height is zero.
    ZeroTarget,
    /// A pixel buffer that the resize needs cannot be allocated: its size
    /// is beyond what an allocation may hold.
    TooLarge,
}

/// Why a tensor could not be read as the model's output.
#[derive(Clone, Copy, Debug, PartialEq, Eq)]
pub enum ShapeError {
    /// The shape has the wrong number of axes or the wrong extents.
    WrongShape,
    /// The buffer's length is not the product of the extents.
    WrongLength,
}

/// Why a mask could not be composited onto an image.
#[derive(Clone, Copy, Debug, PartialEq, Eq)]
pub enum CompositeError {
    /// The mask and the image differ in width or height.
    DimensionMismatch,
}

/// Why an image could not be encoded for transport.
#[derive(Clone, Copy, Debug, PartialEq, Eq)]
pub enum EncodeError {
    /// The image codec could not write the file.
    Codec,
    /// The file is too long for its text to fit in memory.
    TooLong,
}

/// The failure of one background-removal run, tagged with the stage that
/// failed.
#[derive(Clone, Copy, Debug, PartialEq, Eq)]
pub enum Error {
    /// An image or a mask could not be resized.
    Resize(ResizeError),
    /// The input tensor could not be laid out.
    Preprocess(ShapeError),
    /// The inference engine reported a failure.
    Inference,
    /// The engine's output is not a score map of the model's resolution.
    Postprocess(ShapeError),
    /// The mask does not fit the image.
    Composite(CompositeError),
}

} // verus!
