//! Image analysis: colour fingerprints and the distance metrics that
//! compare them.

use vstd::prelude::*;
use vstd::arithmetic::div_mod::lemma_fundamental_div_mod_converse_div;
use crate::geometry::Rectangle;
use crate::geometry::TilerError;
use crate::pixels::PixelImage;
use crate::pixels::Rgba8;
use crate::pixels::crop_px;
use crate::pixels::flat_rgba;
use crate::pixels::resample_fits;
use crate::pixels::resample_rgba;
use crate::pixels::resampled_of;

verus! {

/// Samples along each axis of a fingerprint grid when the caller does not
/// pick a resolution.
pub const SAMPLE_SIZE: u8 = 8;

/// The most colour samples a fingerprint can hold: a full grid at the
/// largest expressible resolution, 255 by 255.
pub const MAX_SAMPLES: usize = 65025;

/// Options for the analysis of an image.
#[derive(Clone, Copy, Debug, PartialEq, Eq, Structural)]
pub struct AnalysisOptions {
    /// The number of samples along each axis, i.e. a square grid of this
    /// dimension.
    pub sample_size: u8,
}

impl AnalysisOptions {
    /// Build analysis options, with the default grid resolution when none
    /// is given.
    pub fn new(sample_size: Option<u8>) -> (r: AnalysisOptions)
        ensures
            r.sample_size == (match sample_size {
                Option::Some(s) => s,
                Option::None => SAMPLE_SIZE,
            }),
    {
        match sample_size {
            Option::Some(s) => Self { sample_size: s },
            Option::None => Self { sample_size: SAMPLE_SIZE },
        }
    }
}

/// The colour of one sample.
#[derive(Clone, Copy, Debug, PartialEq, Eq, Structural)]
pub struct ColorInfo {
    pub red: u8,
    pub green: u8,
    pub blue: u8,
}

/// The absolute difference of two channel values.
pub open spec fn channel_abs_diff(a: u8, b: u8) -> int {
    if a >= b {
        a - b
    } else {
        b - a
    }
}

/// The squared difference of two channel values.
pub open spec fn channel_sqr_diff(a: u8, b: u8) -> int {
    channel_abs_diff(a, b) * channel_abs_diff(a, b)
}

/// The per-colour absolute distance: the channel distances added up.
pub open spec fn color_abs_diff(a: ColorInfo, b: ColorInfo) -> int {
    channel_abs_diff(a.red, b.red) + channel_abs_diff(a.green, b.green) + channel_abs_diff(
        a.blue,
        b.blue,
    )
}

/// The per-colour squared distance: the squared channel distances added up.
pub open spec fn color_sqr_diff(a: ColorInfo, b: ColorInfo) -> int {
    channel_sqr_diff(a.red, b.red) + channel_sqr_diff(a.green, b.green) + channel_sqr_diff(
        a.blue,
        b.blue,
    )
}

impl ColorInfo {
    /// Create a new instance representing a colour.
    pub fn new(red: u8, green: u8, blue: u8) -> (r: ColorInfo)
        ensures
            r == (ColorInfo { red, green, blue }),
    {
        Self { red, green, blue }
    }

    /// Find the difference between two colours, as the sum of the
    /// absolute channel differences.  The largest value is 3 * 255 = 765.
    pub fn abs_diff(&self, other: &ColorInfo) -> (r: i32)
        ensures
            r == color_abs_diff(*self, *other),
            0 <= r <= 765,
    {
        let dr = channel_dist(self.red, other.red);
        let dg = channel_dist(self.green, other.green);
        let db = channel_dist(self.blue, other.blue);
        dr + dg + db
    }

    /// Find the difference between two colours, as the sum of the
    /// squared channel differences.  The largest value is 3 * 255 * 255
    /// = 195075.
    pub fn sqr_diff(&self, other: &ColorInfo) -> (r: i32)
        ensures
            r == color_sqr_diff(*self, *other),
            0 <= r <= 195075,
    {
        let dr = channel_dist(self.red, other.red);
        let dg = channel_dist(self.green, other.green);
        let db = channel_dist(self.blue, other.blue);
        proof {
            assert(0 <= dr * dr <= 65025) by (nonlinear_arith)
                requires
                    0 <= dr <= 255,
            ;
            assert(0 <= dg * dg <= 65025) by (nonlinear_arith)
                requires
                    0 <= dg <= 255,
            ;
            assert(0 <= db * db <= 65025) by (nonlinear_arith)
                requires
                    0 <= db <= 255,
            ;
        }
        dr * dr + dg * dg + db * db
    }
}

/// The absolute difference of two channel values.
fn channel_dist(a: u8, b: u8) -> (r: i32)
    ensures
        r == channel_abs_diff(a, b),
        0 <= r <= 255,
{
    if a >= b {
        (a - b) as i32
    } else {
        (b - a) as i32
    }
}

/// The per-colour absolute distance of two colours is zero when the two
/// are the same colour.
pub proof fn lemma_abs_diff_self_zero(c: ColorInfo)
    ensures
        color_abs_diff(c, c) == 0,
{
}

/// The per-colour absolute distance does not depend on the order of its
/// two arguments.
pub proof fn lemma_abs_diff_symmetric(a: ColorInfo, b: ColorInfo)
    ensures
        color_abs_diff(a, b) == color_abs_diff(b, a),
{
}

/// The colours of a fingerprint, read out of resampled raw bytes: the
/// first three channels of each pixel, with the fourth (alpha) ignored.
pub open spec fn rgb_of(raw: Seq<u8>) -> Seq<ColorInfo> {
    Seq::new(
        (raw.len() / 4) as nat,
        |i: int| ColorInfo { red: raw[4 * i], green: raw[4 * i + 1], blue: raw[4 * i + 2] },
    )
}

/// The fingerprint colours of an image: its pixels resampled down to a
/// square grid of the given resolution, alpha dropped.
pub open spec fn analysed_colors(px: Seq<Rgba8>, width: u32, height: u32, sample_size: u8) -> Seq<
    ColorInfo,
> {
    rgb_of(resampled_of(flat_rgba(px), width, height, sample_size as u32, sample_size as u32))
}

/// Data describing an image, suitable for comparison between images: the
/// original size and the colours of a small square grid of samples.
#[derive(Clone, Debug, Eq)]
pub struct ImageInfo {
    pub width: u32,
    pub height: u32,
    pub colors: Vec<ColorInfo>,
}

impl ImageInfo {
    /// A fingerprint never holds more samples than a full grid at the
    /// largest expressible resolution.
    pub open spec fn wf(&self) -> bool {
        self.colors@.len() <= MAX_SAMPLES
    }

    /// Find the differences between this and another image, one squared
    /// colour distance per sample pair; fails when the two fingerprints
    /// hold different sample counts, which means they come from
    /// different configurations.
    pub fn diff(&self, other: &ImageInfo) -> (r: Result<Vec<i32>, TilerError>)
        ensures
            match r {
                Ok(v) => {
                    &&& self.colors@.len() == other.colors@.len()
                    &&& v@.len() == self.colors@.len()
                    &&& forall|i: int|
                        0 <= i < v@.len() ==> v@[i] == color_sqr_diff(
                            self.colors@[i],
                            other.colors@[i],
                        )
                },
                Err(e) => {
                    &&& e == TilerError::FingerprintSizeMismatch
                    &&& self.colors@.len() != other.colors@.len()
                },
            },
    {
        if self.colors.len() != other.colors.len() {
            return Err(TilerError::FingerprintSizeMismatch);
        }
        let n = self.colors.len();
        let mut v: Vec<i32> = Vec::new();
        let mut i: usize = 0;
        while i < n
            invariant
                i <= n,
                n == self.colors@.len(),
                n == other.colors@.len(),
                v@.len() == i,
                forall|j: int|
                    0 <= j < i ==> v@[j] == color_sqr_diff(self.colors@[j], other.colors@[j]),
            decreases n - i,
        {
            let d = self.colors[i].sqr_diff(&other.colors[i]);
            v.push(d);
            i = i + 1;
        }
        Ok(v)
    }
}

/// The difference of a fingerprint against itself is zero at every
/// sample, whatever the fingerprint.
pub proof fn lemma_diff_self_zero(a: ImageInfo)
    ensures
        forall|i: int|
            0 <= i < a.colors@.len() ==> color_sqr_diff(a.colors@[i], a.colors@[i]) == 0,
{
}

impl PartialEq for ImageInfo {
    fn eq(&self, other: &ImageInfo) -> (r: bool) {
        if self.width != other.width || self.height != other.height {
            return false;
        }
        if self.colors.len() != other.colors.len() {
            return false;
        }
        let n = self.colors.len();
        let mut i: usize = 0;
        while i < n
            invariant
                i <= n,
                n == self.colors@.len(),
                n == other.colors@.len(),
                forall|j: int| 0 <= j < i ==> self.colors@[j] == other.colors@[j],
            decreases n - i,
        {
            if self.colors[i] != other.colors[i] {
                return false;
            }
            i = i + 1;
        }
        proof {
            assert(self.colors@ =~= other.colors@);
        }
        true
    }
}

impl vstd::std_specs::cmp::PartialEqSpecImpl for ImageInfo {
    open spec fn obeys_eq_spec() -> bool {
        true
    }

    open spec fn eq_spec(&self, other: &ImageInfo) -> bool {
        &&& self.width == other.width
        &&& self.height == other.height
        &&& self.colors@ == other.colors@
    }
}

/// Analyse the given image: resample it down to a square grid of
/// `sample_size` by `sample_size` colour samples and record its original
/// size beside them.
pub fn analyse(img: &PixelImage, options: &AnalysisOptions) -> (r: ImageInfo)
    requires
        img.wf(),
        resample_fits(
            img.width,
            img.height,
            options.sample_size as u32,
            options.sample_size as u32,
        ),
    ensures
        r.width == img.width,
        r.height == img.height,
        r.colors@.len() == (options.sample_size as int) * (options.sample_size as int),
        r.colors@ == analysed_colors(img.pixels@, img.width, img.height, options.sample_size),
        r.wf(),
{
    let size: u32 = options.sample_size as u32;
    proof {
        assert((size as int) * (size as int) <= MAX_SAMPLES) by (nonlinear_arith)
            requires
                size <= 255,
        ;
    }
    let raw = img.to_raw();
    let tiny = resample_rgba(&raw, img.width, img.height, size, size);
    let total: usize = (size as usize) * (size as usize);
    proof {
        lemma_fundamental_div_mod_converse_div(tiny@.len() as int, 4, total as int, 0);
    }
    let mut colors: Vec<ColorInfo> = Vec::new();
    let mut i: usize = 0;
    while i < total
        invariant
            i <= total,
            tiny@.len() == 4 * total,
            tiny@.len() <= usize::MAX,
            colors@.len() == i,
            forall|j: int| 0 <= j < i ==> colors@[j] == rgb_of(tiny@)[j],
        decreases total - i,
    {
        let c = ColorInfo { red: tiny[4 * i], green: tiny[4 * i + 1], blue: tiny[4 * i + 2] };
        colors.push(c);
        i = i + 1;
    }
    proof {
        lemma_fundamental_div_mod_converse_div(tiny@.len() as int, 4, total as int, 0);
        assert(colors@ =~= rgb_of(tiny@));
    }
    ImageInfo { width: img.width, height: img.height, colors }
}

/// Analyse the part of a target image inside one grid cell.
pub fn analyse_cell(img: &PixelImage, r: &Rectangle, options: &AnalysisOptions) -> (info:
    ImageInfo)
    requires
        img.wf(),
        r.x + r.width <= img.width,
        r.y + r.height <= img.height,
        resample_fits(r.width, r.height, options.sample_size as u32, options.sample_size as u32),
    ensures
        info.width == r.width,
        info.height == r.height,
        info.colors@.len() == (options.sample_size as int) * (options.sample_size as int),
        info.colors@ == analysed_colors(
            crop_px(img.pixels@, img.width, *r),
            r.width,
            r.height,
            options.sample_size,
        ),
        info.wf(),
{
    let cell = img.crop(r);
    analyse(&cell, options)
}

/// Fingerprint every image of a library, in order, so that matching can
/// refer to a tile by its index alone.
pub fn analyse_available_images(images: &Vec<PixelImage>, options: &AnalysisOptions) -> (r: Vec<
    ImageInfo,
>)
    requires
        forall|i: int| 0 <= i < images@.len() ==> images@[i].wf(),
        forall|i: int|
            0 <= i < images@.len() ==> resample_fits(
                (#[trigger] images@[i]).width,
                images@[i].height,
                options.sample_size as u32,
                options.sample_size as u32,
            ),
    ensures
        r@.len() == images@.len(),
        forall|i: int|
            0 <= i < r@.len() ==> r@[i].colors@ == analysed_colors(
                images@[i].pixels@,
                images@[i].width,
                images@[i].height,
                options.sample_size,
            ),
        forall|i: int|
            0 <= i < r@.len() ==> r@[i].colors@.len() == (options.sample_size as int) * (
            options.sample_size as int),
        forall|i: int| 0 <= i < r@.len() ==> r@[i].wf(),
{
    let n = images.len();
    let mut r: Vec<ImageInfo> = Vec::new();
    let mut i: usize = 0;
    while i < n
        invariant
            i <= n,
            n == images@.len(),
            forall|j: int| 0 <= j < n ==> images@[j].wf(),
            forall|j: int|
                0 <= j < n ==> resample_fits(
                    (#[trigger] images@[j]).width,
                    images@[j].height,
                    options.sample_size as u32,
                    options.sample_size as u32,
                ),
            r@.len() == i,
            forall|j: int|
                0 <= j < i ==> r@[j].colors@ == analysed_colors(
                    images@[j].pixels@,
                    images@[j].width,
                    images@[j].height,
                    options.sample_size,
                ),
            forall|j: int|
                0 <= j < i ==> r@[j].colors@.len() == (options.sample_size as int) * (
                options.sample_size as int),
            forall|j: int| 0 <= j < i ==> r@[j].wf(),
        decreases n - i,
    {
        let info = analyse(&images[i], options);
        r.push(info);
        i = i + 1;
    }
    r
}

} // verus!
