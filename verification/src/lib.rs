//! Background removal for raster images: the conversion between images and
//! the tensors of a single-channel saliency model.
//!
//! The crate resizes RGBA images with correct alpha handling, lays an image
//! out as the model's input tensor, turns the model's raw scores into a
//! mask, and composites that mask onto the image as its alpha channel.
//! All arithmetic is done on integers: a tensor sample or a score is a
//! fixed-point number, and running the model itself is left to the caller.
//! A result can be encoded for transport as the base64 text of a PNG file.

pub mod composite;
pub mod error;
pub mod pipeline;
pub mod raster;
pub mod resize;
pub mod tensor;
pub mod transport;

