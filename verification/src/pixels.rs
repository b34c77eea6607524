//! An in-memory RGBA pixel buffer, the value the analysis works on, and
//! the one delegated pixel primitive: area-averaged resampling.

use vstd::prelude::*;
use vstd::arithmetic::div_mod::lemma_fundamental_div_mod_converse_div;
use vstd::arithmetic::div_mod::lemma_fundamental_div_mod_converse_mod;
use crate::geometry::Rectangle;

verus! {

/// One pixel, with its channels in storage order.
#[derive(Clone, Copy, Debug, PartialEq, Eq, Structural)]
pub struct Rgba8 {
    pub red: u8,
    pub green: u8,
    pub blue: u8,
    pub alpha: u8,
}

/// A decoded image: its size and its pixels in row-major order.
#[derive(Clone, Debug)]
pub struct PixelImage {
    pub width: u32,
    pub height: u32,
    pub pixels: Vec<Rgba8>,
}

/// The bytes of a pixel sequence, four channels per pixel, in storage order.
pub open spec fn flat_rgba(px: Seq<Rgba8>) -> Seq<u8>
    decreases px.len(),
{
    if px.len() == 0 {
        Seq::empty()
    } else {
        flat_rgba(px.drop_last())
            + seq![px.last().red, px.last().green, px.last().blue, px.last().alpha]
    }
}

/// The pixel sequence read back out of raw bytes, four channels per pixel.
pub open spec fn pixels_of_raw(raw: Seq<u8>) -> Seq<Rgba8> {
    Seq::new(
        (raw.len() / 4) as nat,
        |i: int|
            Rgba8 {
                red: raw[4 * i],
                green: raw[4 * i + 1],
                blue: raw[4 * i + 2],
                alpha: raw[4 * i + 3],
            },
    )
}

/// Flattening a pixel sequence yields four bytes per pixel.
pub proof fn lemma_flat_rgba_len(px: Seq<Rgba8>)
    ensures
        flat_rgba(px).len() == 4 * px.len(),
    decreases px.len(),
{
    if px.len() > 0 {
        lemma_flat_rgba_len(px.drop_last());
    }
}

/// The rectangle `r` read out of an image of width `img_width`: pixel `p`
/// of the result is the source pixel `r.width` pixels per output row to
/// the right and below the origin of `r`.
pub open spec fn crop_px(px: Seq<Rgba8>, img_width: u32, r: Rectangle) -> Seq<Rgba8> {
    Seq::new(
        (r.width * r.height) as nat,
        |p: int| px[(r.y + p / (r.width as int)) * img_width + r.x + p % (r.width as int)],
    )
}

impl PixelImage {
    /// The pixel vector holds exactly one pixel for every grid position.
    pub open spec fn wf(&self) -> bool {
        self.pixels@.len() == self.width * self.height
    }

    /// An image of the given size with every channel zero.
    pub fn new(width: u32, height: u32) -> (r: PixelImage)
        requires
            4 * (width * height) <= usize::MAX,
        ensures
            r.width == width,
            r.height == height,
            r.wf(),
            forall|i: int|
                0 <= i < r.pixels@.len() ==> r.pixels@[i] == (Rgba8 {
                    red: 0,
                    green: 0,
                    blue: 0,
                    alpha: 0,
                }),
    {
        Self::from_pixel(width, height, Rgba8 { red: 0, green: 0, blue: 0, alpha: 0 })
    }

    /// An image of the given size with every pixel equal to `pixel`.
    pub fn from_pixel(width: u32, height: u32, pixel: Rgba8) -> (r: PixelImage)
        requires
            4 * (width * height) <= usize::MAX,
        ensures
            r.width == width,
            r.height == height,
            r.wf(),
            forall|i: int| 0 <= i < r.pixels@.len() ==> r.pixels@[i] == pixel,
    {
        proof {
            assert((width as int) * (height as int) <= usize::MAX) by (nonlinear_arith)
                requires
                    4 * ((width as int) * (height as int)) <= usize::MAX,
            ;
        }
        let count: usize = (width as usize) * (height as usize);
        let mut pixels: Vec<Rgba8> = Vec::new();
        let mut i: usize = 0;
        while i < count
            invariant
                i <= count,
                pixels@.len() == i,
                forall|j: int| 0 <= j < i ==> pixels@[j] == pixel,
            decreases count - i,
        {
            pixels.push(pixel);
            i = i + 1;
        }
        PixelImage { width, height, pixels }
    }

    /// Rebuild an image from raw bytes, four channels per pixel in
    /// row-major order; rejects a byte count that does not match the size.
    pub fn from_raw(width: u32, height: u32, raw: Vec<u8>) -> (r: Option<PixelImage>)
        ensures
            match r {
                Some(img) => {
                    &&& raw@.len() == 4 * (width * height)
                    &&& img.width == width
                    &&& img.height == height
                    &&& img.wf()
                    &&& img.pixels@ == pixels_of_raw(raw@)
                },
                None => raw@.len() != 4 * (width * height),
            },
    {
        proof {
            assert((width as int) * (height as int) <= u64::MAX) by (nonlinear_arith)
                requires
                    width <= u32::MAX,
                    height <= u32::MAX,
            ;
        }
        let wh: u64 = (width as u64) * (height as u64);
        if raw.len() as u128 != 4 * (wh as u128) {
            return None;
        }
        proof {
            lemma_fundamental_div_mod_converse_div(raw@.len() as int, 4, wh as int, 0);
        }
        let count: usize = raw.len() / 4;
        let mut pixels: Vec<Rgba8> = Vec::new();
        let mut i: usize = 0;
        while i < count
            invariant
                i <= count,
                count == raw@.len() / 4,
                4 * count <= raw@.len(),
                raw@.len() <= usize::MAX,
                pixels@.len() == i,
                forall|j: int| 0 <= j < i ==> pixels@[j] == pixels_of_raw(raw@)[j],
            decreases count - i,
        {
            let px = Rgba8 {
                red: raw[4 * i],
                green: raw[4 * i + 1],
                blue: raw[4 * i + 2],
                alpha: raw[4 * i + 3],
            };
            pixels.push(px);
            i = i + 1;
        }
        assert(pixels@ =~= pixels_of_raw(raw@));
        Some(PixelImage { width, height, pixels })
    }

    /// The raw bytes of the image, four channels per pixel.
    pub fn to_raw(&self) -> (r: Vec<u8>)
        ensures
            r@ == flat_rgba(self.pixels@),
            r@.len() == 4 * self.pixels@.len(),
    {
        let mut raw: Vec<u8> = Vec::new();
        let n = self.pixels.len();
        let mut i: usize = 0;
        while i < n
            invariant
                i <= n,
                n == self.pixels@.len(),
                raw@ == flat_rgba(self.pixels@.subrange(0, i as int)),
                raw@.len() == 4 * i,
            decreases n - i,
        {
            proof {
                lemma_flat_rgba_len(self.pixels@.subrange(0, i as int));
            }
            let px = self.pixels[i];
            raw.push(px.red);
            raw.push(px.green);
            raw.push(px.blue);
            raw.push(px.alpha);
            i = i + 1;
            proof {
                let prefix = self.pixels@.subrange(0, i as int);
                assert(prefix.drop_last() =~= self.pixels@.subrange(0, i - 1));
                assert(raw@ =~= flat_rgba(prefix));
            }
        }
        proof {
            assert(self.pixels@.subrange(0, n as int) =~= self.pixels@);
        }
        raw
    }

    /// Copy the rectangle `r` out of the image.
    pub fn crop(&self, r: &Rectangle) -> (out: PixelImage)
        requires
            self.wf(),
            r.x + r.width <= self.width,
            r.y + r.height <= self.height,
        ensures
            out.width == r.width,
            out.height == r.height,
            out.wf(),
            out.pixels@ == crop_px(self.pixels@, self.width, *r),
    {
        let mut pixels: Vec<Rgba8> = Vec::new();
        let mut dy: u32 = 0;
        proof {
            assert(self.pixels.len() <= usize::MAX);
        }
        while dy < r.height
            invariant
                self.wf(),
                self.pixels@.len() <= usize::MAX,
                r.x + r.width <= self.width,
                r.y + r.height <= self.height,
                dy <= r.height,
                pixels@.len() == dy * r.width,
                forall|p: int|
                    0 <= p < pixels@.len() ==> pixels@[p] == crop_px(
                        self.pixels@,
                        self.width,
                        *r,
                    )[p],
            decreases r.height - dy,
        {
            let mut dx: u32 = 0;
            while dx < r.width
                invariant
                    self.wf(),
                    self.pixels@.len() <= usize::MAX,
                    r.x + r.width <= self.width,
                    r.y + r.height <= self.height,
                    dy < r.height,
                    dx <= r.width,
                    pixels@.len() == dy * r.width + dx,
                    forall|p: int|
                        0 <= p < pixels@.len() ==> pixels@[p] == crop_px(
                            self.pixels@,
                            self.width,
                            *r,
                        )[p],
                decreases r.width - dx,
            {
                let sx: usize = (r.x + dx) as usize;
                let sy: usize = (r.y + dy) as usize;
                proof {
                    assert((sy as int) * (self.width as int) + (sx as int) < self.pixels@.len())
                        by (nonlinear_arith)
                        requires
                            (sx as int) < self.width as int,
                            (sy as int) < self.height as int,
                            self.pixels@.len() == (self.width as int) * (self.height as int),
                    ;
                }
                let src: usize = sy * (self.width as usize) + sx;
                let px = self.pixels[src];
                pixels.push(px);
                proof {
                    let p0 = dy * r.width + dx;
                    lemma_fundamental_div_mod_converse_div(p0 as int, r.width as int, dy as int, dx as int);
                    lemma_fundamental_div_mod_converse_mod(p0 as int, r.width as int, dy as int, dx as int);
                    assert(p0 < (r.width * r.height)) by (nonlinear_arith)
                        requires
                            p0 == dy * r.width + dx,
                            dx < r.width,
                            dy < r.height,
                    ;
                    assert(crop_px(self.pixels@, self.width, *r)[p0 as int] == self.pixels@[src as int]);
                }
                dx = dx + 1;
            }
            dy = dy + 1;
            proof {
                assert((dy - 1) * r.width + r.width == dy * r.width) by (nonlinear_arith);
            }
        }
        proof {
            vstd::arithmetic::mul::lemma_mul_is_commutative(r.height as int, r.width as int);
            assert(pixels@ =~= crop_px(self.pixels@, self.width, *r));
        }
        PixelImage { width: r.width, height: r.height, pixels }
    }
}

/// The bytes of the area-averaged resampling of raw RGBA bytes of the
/// given size down (or up) to `new_width` by `new_height` pixels.  The
/// result depends on the arguments alone.
pub uninterp spec fn resampled_of(
    raw: Seq<u8>,
    width: u32,
    height: u32,
    new_width: u32,
    new_height: u32,
) -> Seq<u8>;

/// Whether the resampler's per-sample accumulator stays in range: each
/// output sample averages a block of at most `(width / new_width + 2) *
/// (height / new_height + 2)` input pixels, and the resampler adds their
/// channel values, each up to 255, plus half the block size for
/// rounding, in a 32-bit counter, so the block may not exceed
/// `u32::MAX / 256` pixels.  An empty output has no samples and needs no
/// bound.
pub open spec fn resample_fits(width: u32, height: u32, new_width: u32, new_height: u32) -> bool {
    new_width >= 1 && new_height >= 1 ==> ((width as int) / (new_width as int) + 2) * ((
    height as int) / (new_height as int) + 2) <= 16777215
}

/// Relies on `image::imageops::thumbnail`, which resizes a buffer to the
/// requested dimensions by averaging each output pixel over a rectangular
/// block of input pixels; `resample_fits` keeps each block small enough
/// for the 32-bit per-channel accumulator that the averaging uses.
/// `ImageBuffer::from_raw` and `into_raw` only convert between the raw
/// byte vector and the crate's buffer type; `from_raw` succeeds whenever
/// the buffer is at least as large as the dimensions need, and the
/// wrapper hands it an exactly sized one.
#[verifier::external_body]
pub(crate) fn resample_rgba(
    raw: &Vec<u8>,
    width: u32,
    height: u32,
    new_width: u32,
    new_height: u32,
) -> (out: Vec<u8>)
    requires
        raw@.len() == 4 * (width * height),
        4 * (new_width * new_height) <= usize::MAX,
        resample_fits(width, height, new_width, new_height),
    ensures
        out@ == resampled_of(raw@, width, height, new_width, new_height),
        out@.len() == 4 * (new_width * new_height),
{
    let img: image::RgbaImage = image::RgbaImage::from_raw(width, height, raw.clone()).unwrap();
    image::imageops::thumbnail(&img, new_width, new_height).into_raw()
}

} // verus!
