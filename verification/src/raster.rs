//! Raster images held as plain byte buffers.

use vstd::prelude::*;

verus! {

/// Number of bytes in a buffer of `width * height` RGBA pixels.
pub open spec fn rgba_len(width: u32, height: u32) -> int {
    4 * (width as int * height as int)
}

/// Number of bytes in a buffer of `width * height` single-channel pixels.
pub open spec fn gray_len(width: u32, height: u32) -> int {
    width as int * height as int
}

/// Position of pixel `(x, y)` in a row-major buffer of the given width.
pub open spec fn pixel_index(width: u32, x: u32, y: u32) -> int {
    y as int * width as int + x as int
}

/// A pixel inside a `width * height` grid has an index below the grid's
/// area.
pub proof fn lemma_pixel_index_bound(width: u32, height: u32, x: u32, y: u32)
    requires
        x < width,
        y < height,
    ensures
        0 <= pixel_index(width, x, y) < gray_len(width, height),
{
    assert(y as int * width as int + width as int <= height as int * width as int)
        by (nonlinear_arith)
        requires
            y < height,
    ;
    assert(height as int * width as int == width as int * height as int) by (nonlinear_arith);
}

/// The area of a grid whose sides fit in 32 bits fits in 64 bits.
pub proof fn lemma_area_bound(width: u32, height: u32)
    ensures
        0 <= gray_len(width, height) <= 0xFFFF_FFFE_0000_0001,
{
    assert(0 <= width as int * height as int <= 0xFFFF_FFFF * 0xFFFF_FFFF) by (nonlinear_arith)
        requires
            0 <= width <= 0xFFFF_FFFF,
            0 <= height <= 0xFFFF_FFFF,
    ;
}

/// `width * height`, computed without overflow.
pub(crate) fn area(width: u32, height: u32) -> (n: u128)
    ensures
        n == gray_len(width, height),
{
    proof {
        lemma_area_bound(width, height);
    }
    (width as u128) * (height as u128)
}

/// An image of 8-bit RGBA pixels, rows from top to bottom, four bytes per
/// pixel in the order red, green, blue, alpha.
///
/// The buffer always holds exactly `4 * width * height` bytes.
#[derive(Debug, PartialEq, Eq)]
pub struct RgbaImage {
    pub(crate) width: u32,
    pub(crate) height: u32,
    pub(crate) data: Vec<u8>,
}

impl View for RgbaImage {
    type V = Seq<u8>;

    /// The pixel bytes, interleaved.
    open(crate) spec fn view(&self) -> Seq<u8> {
        self.data@
    }
}

impl RgbaImage {
    /// The buffer holds exactly as many elements as the extents ask for.
    #[verifier::type_invariant]
    pub open(crate) spec fn wf(&self) -> bool {
        self.data@.len() == rgba_len(self.width, self.height)
    }

    /// The width.
    pub open(crate) spec fn spec_width(&self) -> u32 {
        self.width
    }

    /// The height.
    pub open(crate) spec fn spec_height(&self) -> u32 {
        self.height
    }

    /// Byte `channel` of the pixel at `(x, y)`.
    pub open spec fn channel(&self, x: u32, y: u32, channel: int) -> u8 {
        self@[4 * pixel_index(self.width(), x, y) + channel]
    }

    /// An image over `data`, if `data` holds exactly `4 * width * height`
    /// bytes.
    pub fn from_raw(width: u32, height: u32, data: Vec<u8>) -> (r: Option<RgbaImage>)
        ensures
            r is Some <==> data@.len() == rgba_len(width, height),
            r matches Some(image) ==> image.width() == width && image.height() == height
                && image@ == data@ && image.wf(),
    {
        proof {
            lemma_area_bound(width, height);
        }
        if data.len() as u128 == 4 * area(width, height) {
            Some(RgbaImage { width, height, data })
        } else {
            None
        }
    }

    /// The width, in pixels.
    #[verifier::when_used_as_spec(spec_width)]
    pub fn width(&self) -> (w: u32)
        ensures
            w == self.width(),
    {
        self.width
    }

    /// The height, in pixels.
    #[verifier::when_used_as_spec(spec_height)]
    pub fn height(&self) -> (h: u32)
        ensures
            h == self.height(),
    {
        self.height
    }

    /// The pixel bytes.
    pub fn as_raw(&self) -> (data: &Vec<u8>)
        ensures
            data@ == self@,
            data@.len() == rgba_len(self.width(), self.height()),
    {
        proof {
            use_type_invariant(self);
        }
        &self.data
    }

    /// The pixel bytes, giving up the image.
    pub fn into_raw(self) -> (data: Vec<u8>)
        ensures
            data@ == self@,
            data@.len() == rgba_len(self.width(), self.height()),
    {
        proof {
            use_type_invariant(&self);
        }
        self.data
    }

    /// The four bytes of the pixel at `(x, y)`, if the image has such a
    /// pixel.
    pub fn get_pixel(&self, x: u32, y: u32) -> (pixel: Option<[u8; 4]>)
        ensures
            pixel is Some <==> x < self.width() && y < self.height(),
            pixel matches Some(bytes) ==> forall|c: int|
                0 <= c < 4 ==> bytes@[c] == #[trigger] self.channel(x, y, c),
    {
        if x >= self.width || y >= self.height {
            return None;
        }
        proof {
            use_type_invariant(self);
            lemma_pixel_index_bound(self.width, self.height, x, y);
            assert(0 <= y as int * self.width as int) by (nonlinear_arith);
            assert(self.data.len() == self.data@.len());
        }
        let at: usize = 4 * (y as usize * self.width as usize + x as usize);
        Some([self.data[at], self.data[at + 1], self.data[at + 2], self.data[at + 3]])
    }
}

impl Clone for RgbaImage {
    fn clone(&self) -> (copy: Self)
        ensures
            copy@ == self@,
            copy.width() == self.width(),
            copy.height() == self.height(),
            copy@.len() == rgba_len(self.width(), self.height()),
    {
        proof {
            use_type_invariant(self);
        }
        RgbaImage { width: self.width, height: self.height, data: self.data.clone() }
    }
}

/// A single-channel image of 8-bit levels, rows from top to bottom: the
/// confidence, from 0 to 255, that a pixel belongs to the foreground.
///
/// The buffer always holds exactly `width * height` bytes.
#[derive(Debug, PartialEq, Eq)]
pub struct Mask {
    pub(crate) width: u32,
    pub(crate) height: u32,
    pub(crate) data: Vec<u8>,
}

impl View for Mask {
    type V = Seq<u8>;

    /// The levels, row by row.
    open(crate) spec fn view(&self) -> Seq<u8> {
        self.data@
    }
}

/// The RGBA bytes of a gray image: each level three times, then an opaque
/// alpha.
pub open spec fn gray_to_rgba(levels: Seq<u8>) -> Seq<u8> {
    Seq::new(
        4 * levels.len(),
        |i: int|
            if i % 4 == 3 {
                255u8
            } else {
                levels[i / 4]
            },
    )
}

/// The red byte of every pixel of an RGBA buffer.
pub open spec fn red_channel(pixels: Seq<u8>) -> Seq<u8> {
    Seq::new(pixels.len() / 4, |i: int| pixels[4 * i])
}

impl Mask {
    /// The buffer holds exactly as many elements as the extents ask for.
    #[verifier::type_invariant]
    pub open(crate) spec fn wf(&self) -> bool {
        self.data@.len() == gray_len(self.width, self.height)
    }

    /// The width.
    pub open(crate) spec fn spec_width(&self) -> u32 {
        self.width
    }

    /// The height.
    pub open(crate) spec fn spec_height(&self) -> u32 {
        self.height
    }

    /// The level at `(x, y)`.
    pub open spec fn level(&self, x: u32, y: u32) -> u8 {
        self@[pixel_index(self.width(), x, y)]
    }

    /// A mask over `data`, if `data` holds exactly `width * height` bytes.
    pub fn from_raw(width: u32, height: u32, data: Vec<u8>) -> (r: Option<Mask>)
        ensures
            r is Some <==> data@.len() == gray_len(width, height),
            r matches Some(mask) ==> mask.width() == width && mask.height() == height && mask@
                == data@ && mask.wf(),
    {
        if data.len() as u128 == area(width, height) {
            Some(Mask { width, height, data })
        } else {
            None
        }
    }

    /// The width, in pixels.
    #[verifier::when_used_as_spec(spec_width)]
    pub fn width(&self) -> (w: u32)
        ensures
            w == self.width(),
    {
        self.width
    }

    /// The height, in pixels.
    #[verifier::when_used_as_spec(spec_height)]
    pub fn height(&self) -> (h: u32)
        ensures
            h == self.height(),
    {
        self.height
    }

    /// The levels.
    pub fn as_raw(&self) -> (data: &Vec<u8>)
        ensures
            data@ == self@,
            data@.len() == gray_len(self.width(), self.height()),
    {
        proof {
            use_type_invariant(self);
        }
        &self.data
    }

    /// The level at `(x, y)`, if the mask has such a pixel.
    pub fn get(&self, x: u32, y: u32) -> (level: Option<u8>)
        ensures
            level is Some <==> x < self.width() && y < self.height(),
            level matches Some(l) ==> l == self.level(x, y),
    {
        if x >= self.width || y >= self.height {
            return None;
        }
        proof {
            use_type_invariant(self);
            lemma_pixel_index_bound(self.width, self.height, x, y);
            assert(0 <= y as int * self.width as int) by (nonlinear_arith);
            assert(self.data.len() == self.data@.len());
        }
        Some(self.data[y as usize * self.width as usize + x as usize])
    }

    /// The mask as an opaque gray RGBA image of the same size.
    pub fn to_rgba(&self) -> (image: RgbaImage)
        ensures
            image.width() == self.width(),
            image.height() == self.height(),
            image@ == gray_to_rgba(self@),
            image@.len() == rgba_len(self.width(), self.height()),
    {
        proof {
            use_type_invariant(self);
        }
        let n = self.data.len();
        let mut out: Vec<u8> = Vec::new();
        let mut i: usize = 0;
        while i < n
            invariant
                i <= n,
                n == self.data@.len(),
                out@.len() == 4 * i,
                forall|k: int| 0 <= k < 4 * i ==> out@[k] == gray_to_rgba(self.data@)[k],
            decreases n - i,
        {
            let level = self.data[i];
            out.push(level);
            out.push(level);
            out.push(level);
            out.push(255);
            i += 1;
        }
        assert(out@ =~= gray_to_rgba(self.data@));
        RgbaImage { width: self.width, height: self.height, data: out }
    }

    /// The red channel of `image` as a mask of the same size.
    pub fn from_red(image: &RgbaImage) -> (mask: Mask)
        ensures
            mask.width() == image.width(),
            mask.height() == image.height(),
            mask@ == red_channel(image@),
            mask@.len() == gray_len(image.width(), image.height()),
    {
        proof {
            use_type_invariant(image);
        }
        let n = image.data.len() / 4;
        let mut out: Vec<u8> = Vec::new();
        let mut i: usize = 0;
        while i < n
            invariant
                i <= n,
                n == image.data.len() / 4,
                out@.len() == i,
                forall|k: int| 0 <= k < i ==> out@[k] == image.data@[4 * k],
            decreases n - i,
        {
            out.push(image.data[4 * i]);
            i += 1;
        }
        assert(out@ =~= red_channel(image.data@));
        Mask { width: image.width, height: image.height, data: out }
    }
}

} // verus!
