//! Line detection: scans the feature mask for horizontal and vertical runs
//! of features long and dense enough to be a straight rule line, painting
//! them into a fresh line mask; then applies the left-margin closing
//! heuristic, which extends a row rule found just past the suppressed left
//! border band back to the image's left wall.

use vstd::prelude::*;
use crate::raster::Grid;
use crate::features::{FeatureMask, FeaturePixel, FEATURE_BOUNDARY};

verus! {

/// The minimum length of a stretch of pixels that can make up a line.
pub const LINE_MIN_LENGTH_PX: u32 = 50;

/// The fraction of pixels in a span of `LINE_MIN_LENGTH_PX` pixels that must
/// be featureful for the span to count as a solid line, as the ratio
/// `LINE_THRESHOLD_NUM / LINE_THRESHOLD_DEN` (95%).
pub const LINE_THRESHOLD_NUM: u32 = 19;

/// Denominator of the featureful-fraction threshold.
pub const LINE_THRESHOLD_DEN: u32 = 20;

/// One entry of a line mask: exactly background or line, nothing else.
#[derive(Clone, Copy, PartialEq, Eq, Structural, Debug)]
pub enum LinePixel {
    Background,
    Line,
}

/// The line detector's output: a grid of two-valued entries.
pub type LineMask = Grid<LinePixel>;

/// The number of feature pixels among the `n` pixels starting at `(x, y)`
/// and extending rightward.
pub open spec fn count_right(m: FeatureMask, x: int, y: int, n: nat) -> int
    decreases n,
{
    if n == 0 {
        0
    } else {
        count_right(m, x, y, (n - 1) as nat) + if m.at(x + n - 1, y) is Feature {
            1int
        } else {
            0int
        }
    }
}

/// The number of feature pixels among the `n` pixels starting at `(x, y)`
/// and extending downward.
pub open spec fn count_down(m: FeatureMask, x: int, y: int, n: nat) -> int
    decreases n,
{
    if n == 0 {
        0
    } else {
        count_down(m, x, y, (n - 1) as nat) + if m.at(x, y + n - 1) is Feature {
            1int
        } else {
            0int
        }
    }
}

/// Whether the span of `LINE_MIN_LENGTH_PX` pixels starting at `(x, y)` and
/// extending rightward is featureful enough to be a solid line: the fraction
/// of feature pixels is at least the threshold.
pub open spec fn featureful_right(m: FeatureMask, x: int, y: int) -> bool {
    LINE_THRESHOLD_DEN * count_right(m, x, y, LINE_MIN_LENGTH_PX as nat) >= LINE_THRESHOLD_NUM
        * LINE_MIN_LENGTH_PX
}

/// Downward analogue of `featureful_right`.
pub open spec fn featureful_down(m: FeatureMask, x: int, y: int) -> bool {
    LINE_THRESHOLD_DEN * count_down(m, x, y, LINE_MIN_LENGTH_PX as nat) >= LINE_THRESHOLD_NUM
        * LINE_MIN_LENGTH_PX
}

/// A horizontal line starts at `(s, y)`: the pixel itself is a feature, the
/// whole span lies strictly left of the image's right edge, and the span is
/// featureful enough. (The strict bound reproduces the scan's guard, which
/// skips seeds whose span would end exactly at the edge.)
pub open spec fn h_seed(m: FeatureMask, s: int, y: int) -> bool {
    &&& 0 <= s
    &&& 0 <= y < m.height
    &&& s + LINE_MIN_LENGTH_PX < m.width
    &&& m.at(s, y) is Feature
    &&& featureful_right(m, s, y)
}

/// Vertical analogue of `h_seed`.
pub open spec fn v_seed(m: FeatureMask, x: int, t: int) -> bool {
    &&& 0 <= t
    &&& 0 <= x < m.width
    &&& t + LINE_MIN_LENGTH_PX < m.height
    &&& m.at(x, t) is Feature
    &&& featureful_down(m, x, t)
}

/// Whether the main scan paints `(x, y)`: some horizontal or vertical line
/// span covers it.
pub open spec fn base_line_spec(m: FeatureMask, x: int, y: int) -> bool {
    ||| exists|s: int| #[trigger] h_seed(m, s, y) && s <= x < s + LINE_MIN_LENGTH_PX
    ||| exists|t: int| #[trigger] v_seed(m, x, t) && t <= y < t + LINE_MIN_LENGTH_PX
}

/// Whether the finished line mask holds a line pixel at `(x, y)`: painted by
/// the main scan, or by the left-margin closing heuristic, which fills
/// columns `0 ..= FEATURE_BOUNDARY` of every row whose pixel at column
/// `FEATURE_BOUNDARY + 1` was painted.
pub open spec fn is_line_spec(m: FeatureMask, x: int, y: int) -> bool {
    ||| base_line_spec(m, x, y)
    ||| {
        &&& x <= FEATURE_BOUNDARY
        &&& FEATURE_BOUNDARY + 1 < m.width
        &&& base_line_spec(m, FEATURE_BOUNDARY + 1, y)
    }
}

/// The mask entry the line detector produces at `(x, y)`.
pub open spec fn line_pixel_spec(m: FeatureMask, x: int, y: int) -> LinePixel {
    if is_line_spec(m, x, y) {
        LinePixel::Line
    } else {
        LinePixel::Background
    }
}

/// Whether `lm` is the line mask of the feature mask `fm`: same dimensions,
/// each entry fixed pointwise by `line_pixel_spec`.
pub open spec fn is_line_mask_of(lm: LineMask, fm: FeatureMask) -> bool {
    &&& lm.wf()
    &&& lm.width == fm.width
    &&& lm.height == fm.height
    &&& forall|x: int, y: int|
        0 <= x < fm.width && 0 <= y < fm.height ==> lm.at(x, y) == line_pixel_spec(fm, x, y)
}

/// True iff, among the `LINE_MIN_LENGTH_PX` pixels starting at `(x, y)` and
/// extending rightward, the fraction that are features reaches the
/// threshold. Callers bounds-check: the whole span must lie in the mask.
pub fn is_line_to_right(features: &FeatureMask, x: u32, y: u32) -> (r: bool)
    requires
        features.wf(),
        y < features.height,
        x + LINE_MIN_LENGTH_PX <= features.width,
    ensures
        r == featureful_right(*features, x as int, y as int),
{
    let mut count: u32 = 0;
    let end: u32 = x + LINE_MIN_LENGTH_PX;
    let mut k: u32 = x;
    while k < end
        invariant
            features.wf(),
            y < features.height,
            x <= k <= end,
            end == x + LINE_MIN_LENGTH_PX,
            end <= features.width,
            count == count_right(*features, x as int, y as int, (k - x) as nat),
            count <= k - x,
        decreases end - k,
    {
        if features.get(k, y) == FeaturePixel::Feature {
            count = count + 1;
        }
        k = k + 1;
    }
    count * LINE_THRESHOLD_DEN >= LINE_THRESHOLD_NUM * LINE_MIN_LENGTH_PX
}

/// Downward analogue of `is_line_to_right`.
pub fn is_line_downward(features: &FeatureMask, x: u32, y: u32) -> (r: bool)
    requires
        features.wf(),
        x < features.width,
        y + LINE_MIN_LENGTH_PX <= features.height,
    ensures
        r == featureful_down(*features, x as int, y as int),
{
    let mut count: u32 = 0;
    let end: u32 = y + LINE_MIN_LENGTH_PX;
    let mut k: u32 = y;
    while k < end
        invariant
            features.wf(),
            x < features.width,
            y <= k <= end,
            end == y + LINE_MIN_LENGTH_PX,
            end <= features.height,
            count == count_down(*features, x as int, y as int, (k - y) as nat),
            count <= k - y,
        decreases end - k,
    {
        if features.get(x, k) == FeaturePixel::Feature {
            count = count + 1;
        }
        k = k + 1;
    }
    count * LINE_THRESHOLD_DEN >= LINE_THRESHOLD_NUM * LINE_MIN_LENGTH_PX
}

/// Paints the `n` entries starting at `(x, y)` and extending rightward,
/// leaving every other entry unchanged.
fn paint_right(mask: &mut LineMask, x: u32, y: u32, n: u32)
    requires
        old(mask).wf(),
        y < old(mask).height,
        x + n <= old(mask).width,
    ensures
        final(mask).wf(),
        final(mask).width == old(mask).width,
        final(mask).height == old(mask).height,
        forall|i: int, j: int|
            0 <= i < old(mask).width && 0 <= j < old(mask).height ==> final(mask).at(i, j) == (
            if j == y as int && x <= i < x + n {
                LinePixel::Line
            } else {
                old(mask).at(i, j)
            }),
{
    let end: u32 = x + n;
    let mut k: u32 = x;
    while k < end
        invariant
            mask.wf(),
            mask.width == old(mask).width,
            mask.height == old(mask).height,
            y < mask.height,
            x <= k <= end,
            end == x + n,
            end <= mask.width,
            forall|i: int, j: int|
                0 <= i < mask.width && 0 <= j < mask.height ==> mask.at(i, j) == (if j == y as int
                    && x <= i < k {
                    LinePixel::Line
                } else {
                    old(mask).at(i, j)
                }),
        decreases end - k,
    {
        mask.set(k, y, LinePixel::Line);
        k = k + 1;
    }
}

/// Paints the `n` entries starting at `(x, y)` and extending downward,
/// leaving every other entry unchanged.
fn paint_down(mask: &mut LineMask, x: u32, y: u32, n: u32)
    requires
        old(mask).wf(),
        x < old(mask).width,
        y + n <= old(mask).height,
    ensures
        final(mask).wf(),
        final(mask).width == old(mask).width,
        final(mask).height == old(mask).height,
        forall|i: int, j: int|
            0 <= i < old(mask).width && 0 <= j < old(mask).height ==> final(mask).at(i, j) == (
            if i == x as int && y <= j < y + n {
                LinePixel::Line
            } else {
                old(mask).at(i, j)
            }),
{
    let end: u32 = y + n;
    let mut k: u32 = y;
    while k < end
        invariant
            mask.wf(),
            mask.width == old(mask).width,
            mask.height == old(mask).height,
            x < mask.width,
            y <= k <= end,
            end == y + n,
            end <= mask.height,
            forall|i: int, j: int|
                0 <= i < mask.width && 0 <= j < mask.height ==> mask.at(i, j) == (if i == x as int
                    && y <= j < k {
                    LinePixel::Line
                } else {
                    old(mask).at(i, j)
                }),
        decreases end - k,
    {
        mask.set(x, k, LinePixel::Line);
        k = k + 1;
    }
}

/// Reduces a feature mask to just the pixels that lie on probable rule
/// lines. A pure function of the feature mask: the output has the input's
/// dimensions and each entry is fixed pointwise by `line_pixel_spec`.
pub fn detect_lines(features: &FeatureMask) -> (mask: LineMask)
    requires
        features.wf(),
    ensures
        mask.wf(),
        mask.width == features.width,
        mask.height == features.height,
        forall|x: int, y: int|
            0 <= x < features.width && 0 <= y < features.height ==> mask.at(x, y)
                == line_pixel_spec(*features, x, y),
{
    let m = features;
    let w = features.width;
    let h = features.height;
    let mut mask: LineMask = Grid::new(w, h, LinePixel::Background);

    // Main scan: every feature pixel may seed a horizontal line, a vertical
    // line, or both; painting is purely additive.
    let mut y: u32 = 0;
    while y < h
        invariant
            m.wf(),
            w == m.width,
            h == m.height,
            y <= h,
            mask.wf(),
            mask.width == w,
            mask.height == h,
            forall|i: int, j: int|
                0 <= i < w && 0 <= j < h && (#[trigger] mask.at(i, j)) is Line ==> base_line_spec(
                    *m,
                    i,
                    j,
                ),
            forall|s: int, j: int, k: int|
                j < y && #[trigger] h_seed(*m, s, j) && s <= k < s + LINE_MIN_LENGTH_PX ==> (
                #[trigger] mask.at(k, j)) is Line,
            forall|i: int, t: int, k: int|
                t < y && #[trigger] v_seed(*m, i, t) && t <= k < t + LINE_MIN_LENGTH_PX ==> (
                #[trigger] mask.at(i, k)) is Line,
        decreases h - y,
    {
        let mut x: u32 = 0;
        while x < w
            invariant
                m.wf(),
                w == m.width,
                h == m.height,
                y < h,
                x <= w,
                mask.wf(),
                mask.width == w,
                mask.height == h,
                forall|i: int, j: int|
                    0 <= i < w && 0 <= j < h && (#[trigger] mask.at(i, j)) is Line
                        ==> base_line_spec(*m, i, j),
                forall|s: int, j: int, k: int|
                    j < y && #[trigger] h_seed(*m, s, j) && s <= k < s + LINE_MIN_LENGTH_PX ==> (
                    #[trigger] mask.at(k, j)) is Line,
                forall|i: int, t: int, k: int|
                    t < y && #[trigger] v_seed(*m, i, t) && t <= k < t + LINE_MIN_LENGTH_PX ==> (
                    #[trigger] mask.at(i, k)) is Line,
                forall|s: int, k: int|
                    s < x && #[trigger] h_seed(*m, s, y as int) && s <= k < s + LINE_MIN_LENGTH_PX
                        ==> (#[trigger] mask.at(k, y as int)) is Line,
                forall|i: int, k: int|
                    i < x && #[trigger] v_seed(*m, i, y as int) && y <= k < y + LINE_MIN_LENGTH_PX
                        ==> (#[trigger] mask.at(i, k)) is Line,
            decreases w - x,
        {
            if m.get(x, y) == FeaturePixel::Feature {
                if (x as u64) + (LINE_MIN_LENGTH_PX as u64) < (w as u64) {
                    if is_line_to_right(m, x, y) {
                        assert(h_seed(*m, x as int, y as int));
                        paint_right(&mut mask, x, y, LINE_MIN_LENGTH_PX);
                    }
                }
                if (y as u64) + (LINE_MIN_LENGTH_PX as u64) < (h as u64) {
                    if is_line_downward(m, x, y) {
                        assert(v_seed(*m, x as int, y as int));
                        paint_down(&mut mask, x, y, LINE_MIN_LENGTH_PX);
                    }
                }
            }
            x = x + 1;
        }
        y = y + 1;
    }

    // The main scan is complete: painted is exactly covered-by-a-span.
    assert forall|x: int, j: int| 0 <= x < w && 0 <= j < h implies ((#[trigger] mask.at(x, j))
        is Line <==> base_line_spec(*m, x, j)) by {
        if base_line_spec(*m, x, j) {
            assert(mask.at(x, j) is Line);
        }
    }

    // Left-margin closing heuristic: extend row rules found just past the
    // suppressed border band back to the image's left wall.
    if w > FEATURE_BOUNDARY + 1 {
        let mut y: u32 = 0;
        while y < h
            invariant
                m.wf(),
                w == m.width,
                h == m.height,
                w > FEATURE_BOUNDARY + 1,
                y <= h,
                mask.wf(),
                mask.width == w,
                mask.height == h,
                forall|i: int, j: int|
                    0 <= i < w && 0 <= j < y ==> #[trigger] mask.at(i, j) == line_pixel_spec(
                        *m,
                        i,
                        j,
                    ),
                forall|i: int, j: int|
                    0 <= i < w && y <= j < h ==> ((#[trigger] mask.at(i, j)) is Line
                        <==> base_line_spec(*m, i, j)),
            decreases h - y,
        {
            if mask.get(FEATURE_BOUNDARY + 1, y) == LinePixel::Line {
                paint_right(&mut mask, 0, y, FEATURE_BOUNDARY + 1);
            }
            assert forall|i: int| 0 <= i < w implies #[trigger] mask.at(i, y as int)
                == line_pixel_spec(*m, i, y as int) by {}
            y = y + 1;
        }
    } else {
        assert forall|x: int, j: int| 0 <= x < w && 0 <= j < h implies #[trigger] mask.at(x, j)
            == line_pixel_spec(*m, x, j) by {}
    }
    mask
}

} // verus!
