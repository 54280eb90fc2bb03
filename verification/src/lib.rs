//! Recovers the grid structure of a ruled table in a scanned raster image:
//! locates the horizontal and vertical rule lines and returns the table's
//! rectangular cells, each tagged with its row/column index and its pixel
//! bounding box in the original image.

use vstd::prelude::*;

pub mod cells;
pub mod features;
pub mod laws;
pub mod lines;
pub mod raster;

use crate::cells::{cells_spec, detect_cells, Cell};
use crate::features::{detect_features, is_feature_mask_of, FeatureMask};
use crate::lines::{detect_lines, is_line_mask_of, LineMask};
use crate::raster::Image;

verus! {

/// Whether `cells` is the cell list of `img`: the cell segmenter's output on
/// the line mask of the feature mask of `img`. The two masks are determined
/// by `img` pointwise, so the cell list is a function of the image alone.
pub open spec fn is_cells_of(cells: Seq<Cell>, img: Image) -> bool {
    exists|fm: FeatureMask, lm: LineMask|
        {
            &&& #[trigger] is_feature_mask_of(fm, img)
            &&& #[trigger] is_line_mask_of(lm, fm)
            &&& cells == cells_spec(lm)
        }
}

/// Runs the three-stage pipeline on one image: feature detection, line
/// detection, cell segmentation. Pure: no I/O, no state across runs. The
/// cells arrive sorted by (row, col), and every bounding box lies within the
/// image.
pub fn get_cells(img: &Image) -> (cells: Vec<Cell>)
    requires
        img.wf(),
    ensures
        is_cells_of(cells@, *img),
        crate::laws::cells_ordered(cells@),
        forall|i: int|
            0 <= i < cells@.len() ==> (#[trigger] cells@[i]).x + cells@[i].width < img.width
                && cells@[i].y + cells@[i].height < img.height,
{
    let features = detect_features(img);
    let lines = detect_lines(&features);
    let cells = detect_cells(&lines);
    proof {
        assert(is_feature_mask_of(features, *img));
        assert(is_line_mask_of(lines, features));
        crate::laws::lemma_cells_row_monotone(lines);
        crate::laws::lemma_cells_in_bounds(lines);
    }
    cells
}

/// Runtime configuration: which image file to process.
pub struct Config {
    pub filename: String,
}

impl Config {
    /// Picks the input filename out of the command-line arguments:
    /// the first argument after the program name.
    pub fn new(mut args: Vec<String>) -> (r: Result<Config, &'static str>)
        ensures
            args@.len() >= 2 ==> r is Ok && r->Ok_0.filename@ == args@[1]@,
            args@.len() < 2 ==> r is Err,
    {
        if args.len() >= 2 {
            let filename = args.remove(1);
            Ok(Config { filename })
        } else {
            Err("Missing filename argument.")
        }
    }
}

} // verus!
