//! Feature detection: classifies every pixel of the input image as candidate
//! ink ("feature") or background, and suppresses a fixed band along the four
//! image edges, where scanner artifacts would otherwise register as spurious
//! lines.

use vstd::prelude::*;
use crate::raster::{Grid, Image, Rgba};

verus! {

/// The darkness threshold: a grayscale pixel whose three color channels are
/// all at or below this value (inclusive) counts as candidate ink.
pub const FEATURE_THRESHOLD: u8 = 130;

/// Width in pixels of the band along each image edge that is suppressed
/// during feature detection.
pub const FEATURE_BOUNDARY: u32 = 8;

/// One entry of a feature mask: exactly background or feature, nothing else.
#[derive(Clone, Copy, PartialEq, Eq, Structural, Debug)]
pub enum FeaturePixel {
    Background,
    Feature,
}

/// The feature detector's output: a grid of two-valued entries.
pub type FeatureMask = Grid<FeaturePixel>;

/// The luma (grayscale value) of an RGB color, as the outside image library
/// computes it for 8-bit channels.
pub open spec fn luma_spec(r: u8, g: u8, b: u8) -> int {
    (2126 * (r as int) + 7152 * (g as int) + 722 * (b as int)) / 10000
}

/// Relies on `image::Pixel::to_luma` for `Rgba<u8>`: the luma of a color is
/// `(2126*r + 7152*g + 722*b) / 10000`, computed from the three color
/// channels alone (`rgb_to_luma` in the library's color module; the clamp
/// there cannot act for 8-bit channels, whose weighted sum is at most
/// 255 * 10000).
#[verifier::external_body]
fn luma8(r: u8, g: u8, b: u8) -> (l: u8)
    ensures
        l as int == luma_spec(r, g, b),
{
    image::Pixel::to_luma(&image::Rgba([r, g, b, 255])).0[0]
}

/// Whether a pixel of the grayscale image is dark enough to be candidate
/// ink: all three color channels at or below the darkness threshold.
pub open spec fn could_be_feature_spec(px: Rgba) -> bool {
    px.r <= FEATURE_THRESHOLD && px.g <= FEATURE_THRESHOLD && px.b <= FEATURE_THRESHOLD
}

/// Determines whether the (grayscale) pixel is sufficiently dark to be
/// considered part of a line. The threshold is inclusive: a channel value
/// exactly at the threshold still counts, deliberately over-detecting ink.
pub fn could_be_feature(px: &Rgba) -> (r: bool)
    ensures
        r == could_be_feature_spec(*px),
{
    px.r <= FEATURE_THRESHOLD && px.g <= FEATURE_THRESHOLD && px.b <= FEATURE_THRESHOLD
}

/// Whether `(x, y)` lies in the suppressed band: within `FEATURE_BOUNDARY`
/// pixels of any of the four edges of a `width` by `height` image. For an
/// image smaller than the band in either dimension the band covers the whole
/// dimension (it is clamped, never an error).
pub open spec fn in_border(width: int, height: int, x: int, y: int) -> bool {
    ||| x < FEATURE_BOUNDARY
    ||| x + FEATURE_BOUNDARY >= width
    ||| y < FEATURE_BOUNDARY
    ||| y + FEATURE_BOUNDARY >= height
}

/// What the feature detector states of pixel `(x, y)`: it is a feature iff
/// it lies outside the suppressed border band and its grayscale value is at
/// or below the darkness threshold.
pub open spec fn is_feature_spec(img: Image, x: int, y: int) -> bool {
    &&& !in_border(img.width as int, img.height as int, x, y)
    &&& luma_spec(img.at(x, y).r, img.at(x, y).g, img.at(x, y).b) <= FEATURE_THRESHOLD
}

/// The mask entry the feature detector produces at `(x, y)`.
pub open spec fn feature_pixel_spec(img: Image, x: int, y: int) -> FeaturePixel {
    if is_feature_spec(img, x, y) {
        FeaturePixel::Feature
    } else {
        FeaturePixel::Background
    }
}

/// Whether `fm` is the feature mask of `img`: same dimensions, each entry
/// fixed pointwise by `feature_pixel_spec`.
pub open spec fn is_feature_mask_of(fm: FeatureMask, img: Image) -> bool {
    &&& fm.wf()
    &&& fm.width == img.width
    &&& fm.height == img.height
    &&& forall|x: int, y: int|
        0 <= x < img.width && 0 <= y < img.height ==> fm.at(x, y) == feature_pixel_spec(img, x, y)
}

/// Classifies every pixel of `img` as feature (candidate rule/text ink) or
/// background, suppressing the border band. A pure function of the image:
/// the mask has the image's dimensions and each entry is fixed pointwise by
/// `feature_pixel_spec`.
pub fn detect_features(img: &Image) -> (mask: FeatureMask)
    requires
        img.wf(),
    ensures
        mask.wf(),
        mask.width == img.width,
        mask.height == img.height,
        forall|x: int, y: int|
            0 <= x < img.width && 0 <= y < img.height ==> mask.at(x, y) == feature_pixel_spec(
                *img,
                x,
                y,
            ),
{
    let width = img.width;
    let height = img.height;
    let mut rows: Vec<Vec<FeaturePixel>> = Vec::new();
    let mut y: u32 = 0;
    while y < height
        invariant
            img.wf(),
            width == img.width,
            height == img.height,
            y <= height,
            rows@.len() == y as int,
            forall|j: int| 0 <= j < y as int ==> (#[trigger] rows@[j])@.len() == width as int,
            forall|i: int, j: int|
                0 <= i < width && 0 <= j < y as int ==> rows@[j]@[i] == feature_pixel_spec(
                    *img,
                    i,
                    j,
                ),
        decreases height - y,
    {
        let mut row: Vec<FeaturePixel> = Vec::new();
        let mut x: u32 = 0;
        while x < width
            invariant
                img.wf(),
                width == img.width,
                height == img.height,
                y < height,
                x <= width,
                row@.len() == x as int,
                forall|i: int|
                    0 <= i < x as int ==> row@[i] == feature_pixel_spec(*img, i, y as int),
            decreases width - x,
        {
            let px = img.get(x, y);
            let l = luma8(px.r, px.g, px.b);
            let gray = Rgba { r: l, g: l, b: l, a: 255 };
            let border = x < FEATURE_BOUNDARY || (x as u64) + (FEATURE_BOUNDARY as u64) >= (
            width as u64) || y < FEATURE_BOUNDARY || (y as u64) + (FEATURE_BOUNDARY as u64) >= (
            height as u64);
            let v = if !border && could_be_feature(&gray) {
                FeaturePixel::Feature
            } else {
                FeaturePixel::Background
            };
            row.push(v);
            x = x + 1;
        }
        rows.push(row);
        y = y + 1;
    }
    Grid { width, height, rows }
}

} // verus!
