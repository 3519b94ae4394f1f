//! The model's tensors: the input that an image is encoded into and the
//! scores that a mask is decoded from.
//!
//! Tensors hold fixed-point numbers. A sample `n` of the input stands for
//! the number `n / 510`; a score stands for itself in whatever unit the
//! caller chose, since decoding depends only on the scores' ratios.

use crate::error::{Error, ShapeError};
use crate::raster::{gray_len, Mask, RgbaImage};
use crate::resize::{resize_fits, resize_rgba, resized};
use vstd::arithmetic::div_mod::{
    lemma_div_multiples_vanish_quotient, lemma_fundamental_div_mod_converse,
};
use vstd::prelude::*;

verus! {

/// Width of the model's input and output, in pixels.
pub const MODEL_WIDTH: u32 = 1024;

/// Height of the model's input and output, in pixels.
pub const MODEL_HEIGHT: u32 = 1024;

/// Number of planes of the model's input: red, green, blue.
pub const MODEL_CHANNELS: usize = 3;

/// The denominator of an input sample: a sample `n` stands for
/// `n / SAMPLE_SCALE`.
pub const SAMPLE_SCALE: i16 = 510;

/// The level of every pixel of a mask decoded from constant scores.
pub const FALLBACK_LEVEL: u8 = 0;

/// Whether `len` is the number of elements of a tensor with the given
/// extents.
fn extents_match(a: usize, b: usize, c: usize, len: usize) -> (ok: bool)
    ensures
        ok == (a as int * b as int * c as int == len as int),
{
    if a == 0 || b == 0 || c == 0 {
        assert(a as int * b as int * c as int == 0) by (nonlinear_arith)
            requires
                a == 0 || b == 0 || c == 0,
        ;
        return len == 0;
    }
    match a.checked_mul(b) {
        None => {
            assert(a as int * b as int * c as int >= a as int * b as int) by (nonlinear_arith)
                requires
                    a > 0,
                    b > 0,
                    c > 0,
            ;
            false
        },
        Some(ab) => match ab.checked_mul(c) {
            None => false,
            Some(abc) => abc == len,
        },
    }
}

/// The model's input: `channels` planes of `height * width` samples, one
/// plane after the other, each plane row by row.
///
/// The buffer always holds exactly `channels * height * width` samples.
#[derive(Debug, PartialEq, Eq)]
pub struct Tensor {
    pub(crate) channels: usize,
    pub(crate) height: usize,
    pub(crate) width: usize,
    pub(crate) data: Vec<i16>,
}

impl View for Tensor {
    type V = Seq<i16>;

    /// The samples, plane by plane.
    open(crate) spec fn view(&self) -> Seq<i16> {
        self.data@
    }
}

impl Tensor {
    /// The buffer holds exactly as many elements as the extents ask for.
    #[verifier::type_invariant]
    pub open(crate) spec fn wf(&self) -> bool {
        self.data@.len() == self.channels as int * self.height as int * self.width as int
    }

    /// The extents: channels, height, width.
    pub open(crate) spec fn spec_shape(&self) -> (usize, usize, usize) {
        (self.channels, self.height, self.width)
    }

    /// A tensor of the given extents (channels, height, width) over `data`,
    /// if `data` holds exactly as many samples as the extents ask for.
    pub fn from_shape_vec(shape: (usize, usize, usize), data: Vec<i16>) -> (r: Result<
        Tensor,
        ShapeError,
    >)
        ensures
            r is Ok <==> data@.len() == shape.0 as int * shape.1 as int * shape.2 as int,
            r matches Ok(tensor) ==> tensor.shape() == shape && tensor@ == data@,
            r matches Err(e) ==> e == ShapeError::WrongLength,
    {
        if extents_match(shape.0, shape.1, shape.2, data.len()) {
            Ok(Tensor { channels: shape.0, height: shape.1, width: shape.2, data })
        } else {
            Err(ShapeError::WrongLength)
        }
    }

    /// The extents: channels, height, width.
    #[verifier::when_used_as_spec(spec_shape)]
    pub fn shape(&self) -> (shape: (usize, usize, usize))
        ensures
            shape == self.shape(),
    {
        (self.channels, self.height, self.width)
    }

    /// The shape that an inference engine takes this tensor in: a batch
    /// axis of one, then channels, height and width.
    pub fn batched_shape(&self) -> (shape: Vec<usize>)
        ensures
            shape@ == seq![1usize, self.shape().0, self.shape().1, self.shape().2],
    {
        let mut shape: Vec<usize> = Vec::new();
        shape.push(1);
        shape.push(self.channels);
        shape.push(self.height);
        shape.push(self.width);
        assert(shape@ =~= seq![1usize, self.channels, self.height, self.width]);
        shape
    }

    /// The samples, plane by plane.
    pub fn as_raw(&self) -> (data: &Vec<i16>)
        ensures
            data@ == self@,
            data@.len() == self.shape().0 as int * self.shape().1 as int * self.shape().2 as int,
    {
        proof {
            use_type_invariant(self);
        }
        &self.data
    }
}

/// The model's output: `height * width` raw scores, row by row. A higher
/// score means more confidence that the pixel belongs to the foreground.
///
/// The buffer always holds exactly `height * width` scores.
#[derive(Debug, PartialEq, Eq)]
pub struct ScoreMap {
    pub(crate) height: usize,
    pub(crate) width: usize,
    pub(crate) data: Vec<i64>,
}

impl View for ScoreMap {
    type V = Seq<i64>;

    /// The scores, row by row.
    open(crate) spec fn view(&self) -> Seq<i64> {
        self.data@
    }
}

/// Whether `shape` is that of one single-channel map of a batch of one:
/// two unit axes, then height and width.
pub open spec fn is_batched_map(shape: Seq<usize>) -> bool {
    shape.len() == 4 && shape[0] == 1 && shape[1] == 1
}

impl ScoreMap {
    /// The buffer holds exactly as many elements as the extents ask for.
    #[verifier::type_invariant]
    pub open(crate) spec fn wf(&self) -> bool {
        self.data@.len() == self.height as int * self.width as int
    }

    /// The height.
    pub open(crate) spec fn spec_height(&self) -> usize {
        self.height
    }

    /// The width.
    pub open(crate) spec fn spec_width(&self) -> usize {
        self.width
    }

    /// A score map of the given extents (height, width) over `data`, if
    /// `data` holds exactly `height * width` scores.
    pub fn from_shape_vec(shape: (usize, usize), data: Vec<i64>) -> (r: Result<
        ScoreMap,
        ShapeError,
    >)
        ensures
            r is Ok <==> data@.len() == shape.0 as int * shape.1 as int,
            r matches Ok(map) ==> map.height() == shape.0 && map.width() == shape.1 && map@
                == data@,
            r matches Err(e) ==> e == ShapeError::WrongLength,
    {
        if extents_match(1, shape.0, shape.1, data.len()) {
            assert(1 * shape.0 as int * shape.1 as int == shape.0 as int * shape.1 as int)
                by (nonlinear_arith);
            Ok(ScoreMap { height: shape.0, width: shape.1, data })
        } else {
            assert(1 * shape.0 as int * shape.1 as int == shape.0 as int * shape.1 as int)
                by (nonlinear_arith);
            Err(ShapeError::WrongLength)
        }
    }

    /// The score map inside the output of an inference engine: a tensor of
    /// shape `[1, 1, height, width]`, with the two unit axes stripped.
    pub fn from_batched(shape: &Vec<usize>, data: Vec<i64>) -> (r: Result<ScoreMap, ShapeError>)
        ensures
            !is_batched_map(shape@) ==> r == Err::<ScoreMap, ShapeError>(ShapeError::WrongShape),
            is_batched_map(shape@) && data@.len() != shape@[2] as int * shape@[3] as int ==> r
                == Err::<ScoreMap, ShapeError>(ShapeError::WrongLength),
            is_batched_map(shape@) && data@.len() == shape@[2] as int * shape@[3] as int ==> r
                is Ok,
            r matches Ok(map) ==> map.height() == shape@[2] && map.width() == shape@[3] && map@
                == data@,
    {
        if shape.len() != 4 || shape[0] != 1 || shape[1] != 1 {
            return Err(ShapeError::WrongShape);
        }
        ScoreMap::from_shape_vec((shape[2], shape[3]), data)
    }

    /// The height, in pixels.
    #[verifier::when_used_as_spec(spec_height)]
    pub fn height(&self) -> (h: usize)
        ensures
            h == self.height(),
    {
        self.height
    }

    /// The width, in pixels.
    #[verifier::when_used_as_spec(spec_width)]
    pub fn width(&self) -> (w: usize)
        ensures
            w == self.width(),
    {
        self.width
    }

    /// The scores, row by row.
    pub fn as_raw(&self) -> (data: &Vec<i64>)
        ensures
            data@ == self@,
            data@.len() == self.height() as int * self.width() as int,
    {
        proof {
            use_type_invariant(self);
        }
        &self.data
    }
}

/// The colour bytes of an RGBA buffer in planar order: every red byte, then
/// every green byte, then every blue byte. Alpha is dropped.
pub open spec fn planar_rgb_of(pixels: Seq<u8>) -> Seq<u8> {
    let n = pixels.len() as int / 4;
    Seq::new((3 * n) as nat, |i: int| pixels[4 * (i % n) + i / n])
}

/// In planar order, byte `pixel` of plane `channel` is the byte of that
/// channel in that pixel.
pub proof fn lemma_planar_layout(pixels: Seq<u8>, channel: int, pixel: int)
    requires
        0 <= channel < 3,
        0 <= pixel < pixels.len() / 4,
    ensures
        planar_rgb_of(pixels).len() == 3 * (pixels.len() / 4),
        planar_rgb_of(pixels)[channel * (pixels.len() as int / 4) + pixel] == pixels[4 * pixel
            + channel],
{
    let n = pixels.len() as int / 4;
    lemma_fundamental_div_mod_converse(channel * n + pixel, n, channel, pixel);
    assert(0 <= channel * n + pixel < 3 * n) by (nonlinear_arith)
        requires
            0 <= channel < 3,
            0 <= pixel < n,
    ;
}

/// The sample that stands for `byte / 255 - 1 / 2`, in units of
/// `1 / SAMPLE_SCALE`.
pub open spec fn normalized_sample(byte: u8) -> i16 {
    (2 * byte as int - 255) as i16
}

/// Every byte of a buffer as a normalized sample.
pub open spec fn normalized(bytes: Seq<u8>) -> Seq<i16> {
    Seq::new(bytes.len(), |i: int| normalized_sample(bytes[i]))
}

/// The samples of the input tensor of an image: the image resized to the
/// model's resolution, laid out in planes, normalized.
pub open spec fn encoded(width: u32, height: u32, pixels: Seq<u8>) -> Seq<i16> {
    normalized(planar_rgb_of(resized(width, height, pixels, MODEL_WIDTH, MODEL_HEIGHT)))
}

/// Rearranges the interleaved pixels of `image` into planes: all red
/// bytes, then all green bytes, then all blue bytes.
pub fn planar_rgb(image: &RgbaImage) -> (planes: Vec<u8>)
    ensures
        planes@ == planar_rgb_of(image@),
        planes@.len() == 3 * (image@.len() / 4),
{
    let n = image.as_raw().len() / 4;
    let data = image.as_raw();
    let mut planes: Vec<u8> = Vec::new();
    let mut c: usize = 0;
    while c < 3
        invariant
            c <= 3,
            n == data.len() / 4,
            data@ == image@,
            planes@.len() == c * n,
            forall|k: int|
                0 <= k < c * n ==> planes@[k] == data@[4 * (k % (n as int)) + k / (n as int)],
        decreases 3 - c,
    {
        let mut p: usize = 0;
        while p < n
            invariant
                p <= n,
                c < 3,
                n == data.len() / 4,
                planes@.len() == c * n + p,
                forall|k: int|
                    0 <= k < c * n + p ==> planes@[k] == data@[4 * (k % (n as int)) + k / (n
                        as int)],
            decreases n - p,
        {
            proof {
                lemma_fundamental_div_mod_converse(
                    c as int * n as int + p as int,
                    n as int,
                    c as int,
                    p as int,
                );
            }
            planes.push(data[4 * p + c]);
            p += 1;
        }
        assert((c + 1) * n == c * n + n) by (nonlinear_arith);
        c += 1;
    }
    assert(planes@ =~= planar_rgb_of(image@));
    planes
}

/// Normalizes samples that stand for `byte / 255`: subtracts the mean 1/2
/// and divides by the deviation 1, giving samples in units of
/// `1 / SAMPLE_SCALE`.
pub fn normalize_image(planes: &Vec<u8>) -> (samples: Vec<i16>)
    ensures
        samples@ == normalized(planes@),
        forall|i: int|
            0 <= i < samples@.len() ==> -SAMPLE_SCALE <= 2 * #[trigger] samples@[i]
                <= SAMPLE_SCALE,
{
    let n = planes.len();
    let mut samples: Vec<i16> = Vec::new();
    let mut i: usize = 0;
    while i < n
        invariant
            i <= n,
            n == planes.len(),
            samples@.len() == i,
            forall|k: int| 0 <= k < i ==> samples@[k] == normalized_sample(planes@[k]),
        decreases n - i,
    {
        let byte: i16 = planes[i] as i16;
        samples.push(2 * byte - 255);
        i += 1;
    }
    assert(samples@ =~= normalized(planes@));
    samples
}

/// Encodes `image` as the model's input: resized to the model's
/// resolution, alpha dropped, colour laid out in planes and normalized.
/// Every sample lies between -1/2 and 1/2.
pub fn preprocess_image(image: &RgbaImage) -> (r: Result<Tensor, Error>)
    ensures
        resize_fits(image.width(), MODEL_WIDTH, MODEL_HEIGHT) ==> r is Ok,
        !resize_fits(image.width(), MODEL_WIDTH, MODEL_HEIGHT) ==> r == Err::<Tensor, Error>(
            Error::Resize(crate::error::ResizeError::TooLarge),
        ),
        r matches Ok(tensor) ==> {
            &&& tensor.shape() == (MODEL_CHANNELS, MODEL_HEIGHT as usize, MODEL_WIDTH as usize)
            &&& tensor@ == encoded(image.width(), image.height(), image@)
            &&& tensor@.len() == 3 * gray_len(MODEL_WIDTH, MODEL_HEIGHT)
            &&& forall|i: int|
                0 <= i < tensor@.len() ==> -SAMPLE_SCALE <= 2 * #[trigger] tensor@[i]
                    <= SAMPLE_SCALE
        },
{
    let scaled = match resize_rgba(image, MODEL_WIDTH, MODEL_HEIGHT) {
        Ok(scaled) => scaled,
        Err(e) => {
            return Err(Error::Resize(e));
        },
    };
    let planes = planar_rgb(&scaled);
    let samples = normalize_image(&planes);
    let shape = (MODEL_CHANNELS, MODEL_HEIGHT as usize, MODEL_WIDTH as usize);
    assert(scaled@.len() == 4 * (1024 * 1024int));
    assert(samples@.len() == 3 * 1024 * 1024int);
    assert(shape.0 as int * shape.1 as int * shape.2 as int == 3 * 1024 * 1024int);
    match Tensor::from_shape_vec(shape, samples) {
        Ok(tensor) => Ok(tensor),
        Err(e) => Err(Error::Preprocess(e)),
    }
}

/// The least of the scores; 0 where there is none.
pub open spec fn min_score(scores: Seq<i64>) -> i64
    decreases scores.len(),
{
    if scores.len() == 0 {
        0
    } else if scores.len() == 1 {
        scores[0]
    } else {
        let rest = min_score(scores.drop_last());
        if scores.last() < rest {
            scores.last()
        } else {
            rest
        }
    }
}

/// The greatest of the scores; 0 where there is none.
pub open spec fn max_score(scores: Seq<i64>) -> i64
    decreases scores.len(),
{
    if scores.len() == 0 {
        0
    } else if scores.len() == 1 {
        scores[0]
    } else {
        let rest = max_score(scores.drop_last());
        if scores.last() > rest {
            scores.last()
        } else {
            rest
        }
    }
}

/// The least score is one of the scores, and none is below it; the
/// greatest score is one of the scores, and none is above it.
pub proof fn lemma_score_bounds(scores: Seq<i64>)
    requires
        scores.len() > 0,
    ensures
        scores.contains(min_score(scores)),
        scores.contains(max_score(scores)),
        forall|i: int|
            0 <= i < scores.len() ==> min_score(scores) <= #[trigger] scores[i] <= max_score(
                scores,
            ),
    decreases scores.len(),
{
    if scores.len() == 1 {
        assert(scores[0] == min_score(scores));
    } else {
        let rest = scores.drop_last();
        lemma_score_bounds(rest);
        let lo = choose|i: int| 0 <= i < rest.len() && rest[i] == min_score(rest);
        let hi = choose|i: int| 0 <= i < rest.len() && rest[i] == max_score(rest);
        assert(scores[lo] == rest[lo]);
        assert(scores[hi] == rest[hi]);
        assert(scores[scores.len() - 1] == scores.last());
        assert forall|i: int| 0 <= i < scores.len() implies min_score(scores) <= #[trigger] scores[i]
            <= max_score(scores) by {
            if i < rest.len() {
                assert(scores[i] == rest[i]);
            }
        }
    }
}

/// The level of a score between the least score `lo` and the greatest
/// score `hi`: `(score - lo) / (hi - lo) * 255`, with the fraction cut
/// off; the fallback level where all scores are equal.
pub open spec fn mask_level(score: i64, lo: i64, hi: i64) -> int {
    if hi == lo {
        FALLBACK_LEVEL as int
    } else {
        (255 * (score - lo)) / (hi - lo)
    }
}

/// A level is a byte: it lies between 0 and 255.
pub proof fn lemma_mask_level_is_byte(score: i64, lo: i64, hi: i64)
    requires
        lo <= score <= hi,
    ensures
        0 <= mask_level(score, lo, hi) <= 255,
        score == hi && lo < hi ==> mask_level(score, lo, hi) == 255,
        score == lo ==> mask_level(score, lo, hi) == 0,
{
    if hi != lo {
        let d = score - lo;
        let span = hi - lo;
        assert(0 <= (255 * d) / span <= 255) by (nonlinear_arith)
            requires
                0 <= d <= span,
                span > 0,
        ;
        assert(d == span ==> (255 * d) / span == 255) by (nonlinear_arith)
            requires
                span > 0,
        ;
        assert(d == 0 ==> (255 * d) / span == 0) by (nonlinear_arith)
            requires
                span > 0,
        ;
    }
}

/// The levels of the mask decoded from `scores`: each score normalized
/// between the least and the greatest of them.
pub open spec fn decoded(scores: Seq<i64>) -> Seq<u8> {
    Seq::new(
        scores.len(),
        |i: int| mask_level(scores[i], min_score(scores), max_score(scores)) as u8,
    )
}

/// Every level of a decoded mask is the level of its score, with nothing
/// lost in the byte: it lies between 0 and 255.
pub proof fn lemma_decoded_level(scores: Seq<i64>, i: int)
    requires
        0 <= i < scores.len(),
    ensures
        decoded(scores)[i] == mask_level(scores[i], min_score(scores), max_score(scores)),
        0 <= mask_level(scores[i], min_score(scores), max_score(scores)) <= 255,
{
    lemma_score_bounds(scores);
    lemma_mask_level_is_byte(scores[i], min_score(scores), max_score(scores));
}

/// Scores that are all equal decode to the fallback level everywhere.
pub proof fn lemma_constant_scores(scores: Seq<i64>, score: i64)
    requires
        forall|i: int| 0 <= i < scores.len() ==> scores[i] == score,
    ensures
        decoded(scores) == Seq::new(scores.len(), |i: int| FALLBACK_LEVEL),
        scores.len() > 0 ==> min_score(scores) == score && max_score(scores) == score,
{
    if scores.len() > 0 {
        lemma_score_bounds(scores);
        let lo = choose|i: int| 0 <= i < scores.len() && scores[i] == min_score(scores);
        let hi = choose|i: int| 0 <= i < scores.len() && scores[i] == max_score(scores);
        assert(scores[lo] == score && scores[hi] == score);
    }
    assert(decoded(scores) =~= Seq::new(scores.len(), |i: int| FALLBACK_LEVEL));
}

/// Where the scores differ, the least of them decodes to 0 and the
/// greatest to 255, and a higher score never decodes to a lower level.
pub proof fn lemma_decoded_order(scores: Seq<i64>, i: int, j: int)
    requires
        0 <= i < scores.len(),
        0 <= j < scores.len(),
        min_score(scores) < max_score(scores),
    ensures
        scores[i] == min_score(scores) ==> decoded(scores)[i] == 0,
        scores[i] == max_score(scores) ==> decoded(scores)[i] == 255,
        scores[i] <= scores[j] ==> decoded(scores)[i] <= decoded(scores)[j],
{
    let lo = min_score(scores);
    let hi = max_score(scores);
    lemma_decoded_level(scores, i);
    lemma_decoded_level(scores, j);
    lemma_score_bounds(scores);
    lemma_mask_level_is_byte(scores[i], lo, hi);
    if scores[i] <= scores[j] {
        let a = scores[i] - lo;
        let b = scores[j] - lo;
        let span = hi - lo;
        assert((255 * a) / span <= (255 * b) / span) by (nonlinear_arith)
            requires
                0 <= a <= b,
                span > 0,
        ;
    }
}

/// Decoding does not depend on the unit of the scores: scores multiplied
/// by a positive number decode to the same mask.
pub proof fn lemma_decoded_ignores_unit(scores: Seq<i64>, scaled: Seq<i64>, unit: int)
    requires
        unit > 0,
        scaled.len() == scores.len(),
        forall|i: int| 0 <= i < scores.len() ==> scaled[i] == unit * scores[i],
    ensures
        decoded(scaled) == decoded(scores),
{
    if scores.len() > 0 {
        let lo = min_score(scores);
        let hi = max_score(scores);
        lemma_score_bounds(scores);
        lemma_score_bounds(scaled);
        let at_lo = choose|i: int| 0 <= i < scores.len() && scores[i] == lo;
        let at_hi = choose|i: int| 0 <= i < scores.len() && scores[i] == hi;
        let scaled_lo = choose|i: int| 0 <= i < scaled.len() && scaled[i] == min_score(scaled);
        let scaled_hi = choose|i: int| 0 <= i < scaled.len() && scaled[i] == max_score(scaled);
        assert(scaled[at_lo] == unit * lo && scaled[at_hi] == unit * hi);
        assert(unit * scores[scaled_lo] >= unit * lo) by (nonlinear_arith)
            requires
                unit > 0,
                scores[scaled_lo] >= lo,
        ;
        assert(unit * scores[scaled_hi] <= unit * hi) by (nonlinear_arith)
            requires
                unit > 0,
                scores[scaled_hi] <= hi,
        ;
        assert(min_score(scaled) == unit * lo);
        assert(max_score(scaled) == unit * hi);
        assert forall|i: int| 0 <= i < scores.len() implies mask_level(
            scaled[i],
            min_score(scaled),
            max_score(scaled),
        ) == mask_level(scores[i], lo, hi) by {
            if hi != lo {
                let above = 255 * (scores[i] - lo);
                let span = hi - lo;
                lemma_div_multiples_vanish_quotient(unit, above, span);
                let score = scores[i];
                assert(unit * above == 255 * (unit * score - unit * lo)) by (nonlinear_arith)
                    requires
                        above == 255 * (score - lo),
                ;
                assert(unit * span == unit * hi - unit * lo) by (nonlinear_arith)
                    requires
                        span == hi - lo,
                ;
                assert(unit * hi != unit * lo) by (nonlinear_arith)
                    requires
                        unit > 0,
                        hi != lo,
                ;
            }
        }
    }
    assert(decoded(scaled) =~= decoded(scores));
}

/// Every sample of an encoded image lies between -1/2 and 1/2.
pub proof fn lemma_encoded_range(width: u32, height: u32, pixels: Seq<u8>, i: int)
    requires
        0 <= i < encoded(width, height, pixels).len(),
    ensures
        -SAMPLE_SCALE <= 2 * encoded(width, height, pixels)[i] <= SAMPLE_SCALE,
{
}

/// The least and the greatest of `scores`.
fn score_range(scores: &Vec<i64>) -> (range: (i64, i64))
    requires
        scores@.len() > 0,
    ensures
        range.0 == min_score(scores@),
        range.1 == max_score(scores@),
{
    let n = scores.len();
    let mut lo = scores[0];
    let mut hi = scores[0];
    let mut i: usize = 1;
    assert(scores@.take(1) =~= seq![scores@[0]]);
    while i < n
        invariant
            1 <= i <= n,
            n == scores.len(),
            lo == min_score(scores@.take(i as int)),
            hi == max_score(scores@.take(i as int)),
        decreases n - i,
    {
        let score = scores[i];
        proof {
            let next = scores@.take(i + 1);
            assert(next.drop_last() =~= scores@.take(i as int));
            assert(next.last() == score);
        }
        if score < lo {
            lo = score;
        }
        if score > hi {
            hi = score;
        }
        i += 1;
    }
    assert(scores@.take(n as int) =~= scores@);
    (lo, hi)
}

/// The level of one score between `lo` and `hi`.
fn level_of(score: i64, lo: i64, hi: i64) -> (level: u8)
    requires
        lo <= score <= hi,
    ensures
        level == mask_level(score, lo, hi),
{
    proof {
        lemma_mask_level_is_byte(score, lo, hi);
    }
    if hi == lo {
        FALLBACK_LEVEL
    } else {
        let above: u128 = (score as i128 - lo as i128) as u128;
        let span: u128 = (hi as i128 - lo as i128) as u128;
        ((255 * above) / span) as u8
    }
}

/// Decodes the model's scores into a mask of the model's resolution.
///
/// Each score is normalized between the least and the greatest score to a
/// level from 0 to 255. Where all scores are equal, every level is
/// `FALLBACK_LEVEL`.
pub fn postprocess_image(scores: &ScoreMap) -> (r: Result<Mask, ShapeError>)
    ensures
        r is Ok <==> scores.height() == MODEL_HEIGHT && scores.width() == MODEL_WIDTH,
        r matches Err(e) ==> e == ShapeError::WrongShape,
        r matches Ok(mask) ==> {
            &&& mask.width() == MODEL_WIDTH
            &&& mask.height() == MODEL_HEIGHT
            &&& mask@ == decoded(scores@)
            &&& mask@.len() == gray_len(MODEL_WIDTH, MODEL_HEIGHT)
            &&& min_score(scores@) == max_score(scores@) ==> forall|i: int|
                0 <= i < mask@.len() ==> #[trigger] mask@[i] == FALLBACK_LEVEL
        },
{
    if scores.height != MODEL_HEIGHT as usize || scores.width != MODEL_WIDTH as usize {
        return Err(ShapeError::WrongShape);
    }
    proof {
        use_type_invariant(scores);
        lemma_score_bounds(scores.data@);
    }
    assert(scores.data@.len() == 1024 * 1024int);
    let n = scores.data.len();
    let (lo, hi) = score_range(&scores.data);
    let mut levels: Vec<u8> = Vec::new();
    let mut i: usize = 0;
    while i < n
        invariant
            i <= n,
            n == scores.data.len(),
            lo == min_score(scores.data@),
            hi == max_score(scores.data@),
            forall|k: int| 0 <= k < n ==> lo <= #[trigger] scores.data@[k] <= hi,
            levels@.len() == i,
            forall|k: int| 0 <= k < i ==> levels@[k] == mask_level(scores.data@[k], lo, hi),
        decreases n - i,
    {
        levels.push(level_of(scores.data[i], lo, hi));
        i += 1;
    }
    assert(levels@ =~= decoded(scores.data@));
    Ok(Mask { width: MODEL_WIDTH, height: MODEL_HEIGHT, data: levels })
}

} // verus!
