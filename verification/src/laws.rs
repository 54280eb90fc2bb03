//! Laws of the pipeline: properties that hold of every image and mask, each
//! stated over the spec functions that the stages' contracts use and proved
//! once and for all.

use vstd::prelude::*;
use crate::raster::Image;
use crate::features::{
    feature_pixel_spec, in_border, is_feature_mask_of, FeatureMask, FeaturePixel, FEATURE_BOUNDARY,
};
use crate::lines::{
    base_line_spec, h_seed, is_line_spec, v_seed, LineMask, LinePixel, LINE_MIN_LENGTH_PX,
};
use crate::cells::{
    cells_spec, col_scan, lemma_row_scan_empty_when_narrow, row_scan, Cell, CELL_MIN_HEIGHT_PX,
    CELL_MIN_WIDTH_PX,
};

verus! {

/// Feature detection is deterministic: two feature masks of the same image
/// agree everywhere (the mask is a pure function of the image, with no
/// hidden state).
pub proof fn lemma_detect_features_deterministic(img: Image, m1: FeatureMask, m2: FeatureMask)
    requires
        is_feature_mask_of(m1, img),
        is_feature_mask_of(m2, img),
    ensures
        m1.width == m2.width,
        m1.height == m2.height,
        forall|x: int, y: int|
            0 <= x < m1.width && 0 <= y < m1.height ==> m1.at(x, y) == m2.at(x, y),
{
}

/// Every entry of a feature mask is exactly background or feature; every
/// entry of a line mask is exactly background or line. (The masks are grids
/// of two-valued entries, so no other value can appear.)
pub proof fn lemma_masks_two_valued(fm: FeatureMask, lm: LineMask)
    ensures
        forall|x: int, y: int|
            0 <= x < fm.width && 0 <= y < fm.height ==> ((#[trigger] fm.at(x, y))
                is Background || fm.at(x, y) is Feature),
        forall|x: int, y: int|
            0 <= x < lm.width && 0 <= y < lm.height ==> ((#[trigger] lm.at(x, y))
                is Background || lm.at(x, y) is Line),
{
    assert forall|x: int, y: int| 0 <= x < fm.width && 0 <= y < fm.height implies ((
    #[trigger] fm.at(x, y)) is Background || fm.at(x, y) is Feature) by {
        match fm.at(x, y) {
            FeaturePixel::Background => {},
            FeaturePixel::Feature => {},
        }
    }
    assert forall|x: int, y: int| 0 <= x < lm.width && 0 <= y < lm.height implies ((
    #[trigger] lm.at(x, y)) is Background || lm.at(x, y) is Line) by {
        match lm.at(x, y) {
            LinePixel::Background => {},
            LinePixel::Line => {},
        }
    }
}

/// Border suppression: in the feature mask of an image at least 16 pixels
/// wide and high, every pixel within `FEATURE_BOUNDARY` of any of the four
/// edges is background.
pub proof fn lemma_border_suppressed(img: Image, x: int, y: int)
    requires
        img.width >= 2 * FEATURE_BOUNDARY,
        img.height >= 2 * FEATURE_BOUNDARY,
        0 <= x < img.width,
        0 <= y < img.height,
        in_border(img.width as int, img.height as int, x, y),
    ensures
        feature_pixel_spec(img, x, y) is Background,
{
}

/// All `LINE_MIN_LENGTH_PX` pixels rightward from `(s, y)` are line pixels.
pub open spec fn line_run_right(m: FeatureMask, s: int, y: int) -> bool {
    forall|k: int| s <= k < s + LINE_MIN_LENGTH_PX ==> #[trigger] is_line_spec(m, k, y)
}

/// All `LINE_MIN_LENGTH_PX` pixels downward from `(x, t)` are line pixels.
pub open spec fn line_run_down(m: FeatureMask, x: int, t: int) -> bool {
    forall|k: int| t <= k < t + LINE_MIN_LENGTH_PX ==> #[trigger] is_line_spec(m, x, k)
}

/// Line length lower bound: a line pixel outside the left-margin closing
/// region lies on a full horizontal or vertical run of at least
/// `LINE_MIN_LENGTH_PX` line pixels.
pub proof fn lemma_line_run_length(m: FeatureMask, x: int, y: int)
    requires
        FEATURE_BOUNDARY < x < m.width,
        0 <= y < m.height,
        is_line_spec(m, x, y),
    ensures
        (exists|s: int|
            0 <= s && s + LINE_MIN_LENGTH_PX <= m.width && s <= x < s + LINE_MIN_LENGTH_PX
                && #[trigger] line_run_right(m, s, y)) || (exists|t: int|
            0 <= t && t + LINE_MIN_LENGTH_PX <= m.height && t <= y < t + LINE_MIN_LENGTH_PX
                && #[trigger] line_run_down(m, x, t)),
{
    assert(base_line_spec(m, x, y));
    if exists|s: int| #[trigger] h_seed(m, s, y) && s <= x < s + LINE_MIN_LENGTH_PX {
        let s = choose|s: int| #[trigger] h_seed(m, s, y) && s <= x < s + LINE_MIN_LENGTH_PX;
        assert forall|k: int| s <= k < s + LINE_MIN_LENGTH_PX implies #[trigger] is_line_spec(
            m,
            k,
            y,
        ) by {
            assert(h_seed(m, s, y) && s <= k < s + LINE_MIN_LENGTH_PX);
            assert(base_line_spec(m, k, y));
        }
        assert(line_run_right(m, s, y));
        assert(0 <= s && s + LINE_MIN_LENGTH_PX <= m.width && s <= x < s + LINE_MIN_LENGTH_PX);
    } else {
        let t = choose|t: int| #[trigger] v_seed(m, x, t) && t <= y < t + LINE_MIN_LENGTH_PX;
        assert(v_seed(m, x, t) && t <= y < t + LINE_MIN_LENGTH_PX);
        assert forall|k: int| t <= k < t + LINE_MIN_LENGTH_PX implies #[trigger] is_line_spec(
            m,
            x,
            k,
        ) by {
            assert(v_seed(m, x, t) && t <= k < t + LINE_MIN_LENGTH_PX);
            assert(base_line_spec(m, x, k));
        }
        assert(line_run_down(m, x, t));
        assert(0 <= t && t + LINE_MIN_LENGTH_PX <= m.height && t <= y < t + LINE_MIN_LENGTH_PX);
    }
}

/// Cells arrive sorted: row indices non-decreasing across the sequence; the
/// first cell of each row has column zero, and columns within one row count
/// up by one.
pub open spec fn cells_ordered(s: Seq<Cell>) -> bool {
    &&& forall|i: int, j: int|
        0 <= i < j < s.len() ==> (#[trigger] s[i]).row <= (#[trigger] s[j]).row
    &&& forall|i: int|
        #![trigger s[i]]
        0 <= i < s.len() && (i == 0 || s[i - 1].row != s[i].row) ==> s[i].col == 0
    &&& forall|i: int|
        #![trigger s[i]]
        0 < i < s.len() && s[i - 1].row == s[i].row ==> s[i].col == s[i - 1].col + 1
}

/// Shape of one row's column scan: every emitted cell carries the given row
/// index and vertical extent, consecutive column indices, and a bounding box
/// that ends strictly left of the image's right edge.
proof fn lemma_col_scan_props(
    m: LineMask,
    row: int,
    y_top: int,
    y_bot: int,
    x: int,
    prev_x: int,
    col: int,
)
    requires
        0 <= row < 0x1_0000_0000,
        0 <= y_top < y_bot < m.height,
        0 <= prev_x,
        prev_x + CELL_MIN_WIDTH_PX - 1 <= x,
        prev_x <= m.width,
        0 <= col,
        CELL_MIN_WIDTH_PX * col <= prev_x,
    ensures
        ({
            let s = col_scan(m, row, y_top, y_bot, x, prev_x, col);
            &&& forall|i: int| 0 <= i < s.len() ==> (#[trigger] s[i]).row == row
            &&& forall|i: int| 0 <= i < s.len() ==> (#[trigger] s[i]).col == col + i
            &&& forall|i: int|
                0 <= i < s.len() ==> (#[trigger] s[i]).y == y_top && s[i].height == y_bot - y_top
                    - 1
            &&& forall|i: int| 0 <= i < s.len() ==> (#[trigger] s[i]).x + s[i].width < m.width
            &&& CELL_MIN_WIDTH_PX * (col + s.len()) <= m.width + CELL_MIN_WIDTH_PX
        }),
    decreases m.width + CELL_MIN_WIDTH_PX - x,
{
    let s = col_scan(m, row, y_top, y_bot, x, prev_x, col);
    if x >= m.width {
        // At most the trailing cell against the right border wall.
    } else if m.at(x, crate::cells::cell_y_median(y_top, y_bot)) is Line {
        lemma_col_scan_props(m, row, y_top, y_bot, x + CELL_MIN_WIDTH_PX, x + 1, col + 1);
        let rest = col_scan(m, row, y_top, y_bot, x + CELL_MIN_WIDTH_PX, x + 1, col + 1);
        assert forall|i: int| 0 <= i < s.len() implies (#[trigger] s[i]).row == row && s[i].col
            == col + i && s[i].y == y_top && s[i].height == y_bot - y_top - 1 && s[i].x + s[i].width
            < m.width by {
            if i > 0 {
                assert(s[i] == rest[i - 1]);
            }
        }
    } else {
        lemma_col_scan_props(m, row, y_top, y_bot, x + 1, prev_x, col);
    }
}

/// Shape of the row scan: its cells are ordered, their row indices are at
/// least the current one, and every bounding box lies inside the image.
proof fn lemma_row_scan_props(m: LineMask, y: int, prev_y: int, row: int)
    requires
        0 <= prev_y <= m.height,
        prev_y + CELL_MIN_HEIGHT_PX - 1 <= y,
        0 <= row,
        CELL_MIN_HEIGHT_PX * row <= prev_y,
    ensures
        ({
            let s = row_scan(m, y, prev_y, row);
            &&& cells_ordered(s)
            &&& forall|i: int| 0 <= i < s.len() ==> (#[trigger] s[i]).row >= row
            &&& forall|i: int| 0 <= i < s.len() ==> (#[trigger] s[i]).x + s[i].width < m.width
            &&& forall|i: int| 0 <= i < s.len() ==> (#[trigger] s[i]).y + s[i].height < m.height
        }),
    decreases m.height + CELL_MIN_HEIGHT_PX - y,
{
    let s = row_scan(m, y, prev_y, row);
    if y >= m.height {
        if prev_y + CELL_MIN_HEIGHT_PX < m.height {
            lemma_col_scan_props(
                m,
                row,
                prev_y,
                m.height - 1,
                CELL_MIN_WIDTH_PX - 1,
                0,
                0,
            );
        }
    } else if m.at(0, y) is Line || y == m.height - 1 {
        lemma_col_scan_props(m, row, prev_y, y, CELL_MIN_WIDTH_PX - 1, 0, 0);
        lemma_row_scan_props(m, y + CELL_MIN_HEIGHT_PX, y + 1, row + 1);
        let a = crate::cells::row_cells(m, row, prev_y, y);
        let b = row_scan(m, y + CELL_MIN_HEIGHT_PX, y + 1, row + 1);
        assert forall|i: int| 0 <= i < s.len() implies (#[trigger] s[i]).row >= row && s[i].x
            + s[i].width < m.width && s[i].y + s[i].height < m.height by {
            if i < a.len() {
                assert(s[i] == a[i]);
            } else {
                assert(s[i] == b[i - a.len()]);
            }
        }
        assert forall|i: int, j: int| 0 <= i < j < s.len() implies (#[trigger] s[i]).row <= (
        #[trigger] s[j]).row by {
            if j < a.len() {
                assert(s[i] == a[i] && s[j] == a[j]);
            } else if i >= a.len() {
                assert(s[i] == b[i - a.len()] && s[j] == b[j - a.len()]);
            } else {
                assert(s[i] == a[i] && s[j] == b[j - a.len()]);
                assert(s[i].row == row && s[j].row >= row + 1);
            }
        }
        assert forall|i: int|
            #![trigger s[i]]
            0 <= i < s.len() && (i == 0 || s[i - 1].row != s[i].row) implies s[i].col == 0 by {
            if i < a.len() {
                assert(s[i] == a[i]);
                if i > 0 {
                    assert(s[i - 1] == a[i - 1]);
                    assert(a[i - 1].row == row && a[i].row == row);
                }
            } else {
                assert(s[i] == b[i - a.len()]);
                if i > a.len() {
                    assert(s[i - 1] == b[i - a.len() - 1]);
                }
            }
        }
        assert forall|i: int|
            #![trigger s[i]]
            0 < i < s.len() && s[i - 1].row == s[i].row implies s[i].col == s[i - 1].col + 1 by {
            if i < a.len() {
                assert(s[i] == a[i] && s[i - 1] == a[i - 1]);
            } else if i == a.len() {
                assert(s[i] == b[0]);
                if i > 0 {
                    assert(s[i - 1] == a[i - 1]);
                    assert(s[i - 1].row == row && s[i].row >= row + 1);
                }
            } else {
                assert(s[i] == b[i - a.len()] && s[i - 1] == b[i - a.len() - 1]);
            }
        }
    } else {
        lemma_row_scan_props(m, y + 1, prev_y, row);
    }
}

/// Row monotonicity: in the cell list of any line mask, `row` is
/// non-decreasing across the sequence, and within each row `col` counts up
/// from zero.
pub proof fn lemma_cells_row_monotone(m: LineMask)
    ensures
        cells_ordered(cells_spec(m)),
{
    lemma_row_scan_props(m, CELL_MIN_HEIGHT_PX - 1, 0, 0);
}

/// Bounding-box containment: every cell's box lies within
/// `[0, width) x [0, height)` of the mask (and so of the source image).
pub proof fn lemma_cells_in_bounds(m: LineMask)
    ensures
        forall|i: int|
            0 <= i < cells_spec(m).len() ==> (#[trigger] cells_spec(m)[i]).x + cells_spec(m)[i].width
                < m.width && cells_spec(m)[i].y + cells_spec(m)[i].height < m.height,
{
    lemma_row_scan_props(m, CELL_MIN_HEIGHT_PX - 1, 0, 0);
}

/// Degenerate input: a mask smaller than the minimum cell size in either
/// dimension yields an empty cell list, not an error.
pub proof fn lemma_degenerate_empty(m: LineMask)
    requires
        m.width < CELL_MIN_WIDTH_PX || m.height < CELL_MIN_HEIGHT_PX,
    ensures
        cells_spec(m) == Seq::<crate::cells::Cell>::empty(),
{
    if m.width < CELL_MIN_WIDTH_PX {
        lemma_row_scan_empty_when_narrow(m, CELL_MIN_HEIGHT_PX - 1, 0, 0);
    } else {
        // The cursor starts below the bottom edge, and no room is left for a
        // trailing row.
        assert(row_scan(m, CELL_MIN_HEIGHT_PX - 1, 0, 0) == Seq::<crate::cells::Cell>::empty());
    }
}

/// Degenerate input at the pipeline level: the cell list of an image
/// smaller than the minimum cell size in either dimension is empty.
pub proof fn lemma_pipeline_degenerate_empty(img: Image, cells: Seq<Cell>)
    requires
        crate::is_cells_of(cells, img),
        img.width < CELL_MIN_WIDTH_PX || img.height < CELL_MIN_HEIGHT_PX,
    ensures
        cells == Seq::<Cell>::empty(),
{
    let (fm, lm) = choose|fm: FeatureMask, lm: LineMask|
        {
            &&& #[trigger] is_feature_mask_of(fm, img)
            &&& #[trigger] crate::lines::is_line_mask_of(lm, fm)
            &&& cells == cells_spec(lm)
        };
    lemma_degenerate_empty(lm);
}

} // verus!
