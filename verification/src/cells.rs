//! Cell segmentation: walks the line mask row by row and, within each row,
//! column by column, and emits the table's cells. Row boundaries are read
//! off the mask's leftmost column (the line detector extended row rules to
//! the left wall); column boundaries are read off a representative scanline
//! at each row's vertical midpoint. After a rule is found the cursor skips
//! ahead by the minimum cell size, so a thick painted rule is not mistaken
//! for several zero-width cells.

use vstd::prelude::*;
use crate::lines::{LineMask, LinePixel};

verus! {

/// The minimum height of a cell.
pub const CELL_MIN_HEIGHT_PX: u32 = 10;

/// The minimum width of a cell.
pub const CELL_MIN_WIDTH_PX: u32 = 8;

/// One rectangular grid unit of the detected table.
#[derive(Clone, Copy, PartialEq, Eq, Structural, Debug)]
pub struct Cell {
    /// Row position in the image, with the top row beginning at 0.
    pub row: u32,
    /// Column position in the image, with the left column beginning at 0.
    /// Column number is for the given row.
    /// Different rows may have different column counts.
    pub col: u32,
    /// Position information for the Cell within the underlying image.
    pub x: u32,
    pub y: u32,
    pub width: u32,
    pub height: u32,
}

/// The scanline at a row's vertical midpoint, where column rules are probed.
/// The span `[y_top, y_bot)` excludes the rule pixel row at `y_bot` itself.
pub open spec fn cell_y_median(y_top: int, y_bot: int) -> int {
    y_top + (y_bot - y_top - 1) / 2
}

/// The cell emitted when a column rule (or the right image edge) is met at
/// `x_end`, closing the span that began at `prev_x`.
pub open spec fn make_cell(row: int, col: int, prev_x: int, x_end: int, y_top: int, y_bot: int) -> Cell {
    Cell {
        row: row as u32,
        col: col as u32,
        x: prev_x as u32,
        y: y_top as u32,
        width: (x_end - prev_x - 1) as u32,
        height: (y_bot - y_top - 1) as u32,
    }
}

/// The column scan within one row, from cursor `x` on: emits a cell at every
/// probe pixel that is a line (skipping ahead by the minimum cell width),
/// and a final cell against the right image edge if at least the minimum
/// cell width remains.
pub open spec fn col_scan(
    m: LineMask,
    row: int,
    y_top: int,
    y_bot: int,
    x: int,
    prev_x: int,
    col: int,
) -> Seq<Cell>
    decreases m.width + CELL_MIN_WIDTH_PX - x,
{
    if x >= m.width {
        if prev_x + CELL_MIN_WIDTH_PX < m.width {
            seq![make_cell(row, col, prev_x, m.width as int, y_top, y_bot)]
        } else {
            Seq::empty()
        }
    } else if m.at(x, cell_y_median(y_top, y_bot)) is Line {
        seq![make_cell(row, col, prev_x, x, y_top, y_bot)] + col_scan(
            m,
            row,
            y_top,
            y_bot,
            x + CELL_MIN_WIDTH_PX,
            x + 1,
            col + 1,
        )
    } else {
        col_scan(m, row, y_top, y_bot, x + 1, prev_x, col)
    }
}

/// The column scan of a whole row span `[y_top, y_bot)`, with the cursor at
/// its starting position.
pub open spec fn row_cells(m: LineMask, row: int, y_top: int, y_bot: int) -> Seq<Cell> {
    col_scan(m, row, y_top, y_bot, CELL_MIN_WIDTH_PX - 1, 0, 0)
}

/// The row scan, from cursor `y` on: a pixel of the leftmost column that is
/// a line, or the bottom image border, closes the row span that began at
/// `prev_y` (skipping ahead by the minimum cell height); a trailing strip of
/// at least the minimum cell height yields one final row against the bottom
/// edge.
pub open spec fn row_scan(m: LineMask, y: int, prev_y: int, row: int) -> Seq<Cell>
    decreases m.height + CELL_MIN_HEIGHT_PX - y,
{
    if y >= m.height {
        if prev_y + CELL_MIN_HEIGHT_PX < m.height {
            row_cells(m, row, prev_y, m.height - 1)
        } else {
            Seq::empty()
        }
    } else if m.at(0, y) is Line || y == m.height - 1 {
        row_cells(m, row, prev_y, y) + row_scan(m, y + CELL_MIN_HEIGHT_PX, y + 1, row + 1)
    } else {
        row_scan(m, y + 1, prev_y, row)
    }
}

/// Every cell of the mask, in emission order: rows top to bottom, columns
/// left to right within each row.
pub open spec fn cells_spec(m: LineMask) -> Seq<Cell> {
    row_scan(m, CELL_MIN_HEIGHT_PX - 1, 0, 0)
}

/// Appends to `acc` the cells of the row spanning `[y_top, y_bottom)`,
/// probing the scanline at the span's vertical midpoint.
pub fn detect_cells_in_row(
    acc: &mut Vec<Cell>,
    lines: &LineMask,
    cur_row: u32,
    y_top: u32,
    y_bottom: u32,
)
    requires
        lines.wf(),
        y_top < y_bottom,
        y_bottom < lines.height,
    ensures
        final(acc)@ == old(acc)@ + row_cells(
            *lines,
            cur_row as int,
            y_top as int,
            y_bottom as int,
        ),
{
    let ghost acc0: Seq<Cell> = acc@;
    let ghost m = *lines;
    let ghost rowg = cur_row as int;
    let ghost ytg = y_top as int;
    let ghost ybg = y_bottom as int;
    let width = lines.width;

    // All cells in this row share the same vertical extent.
    let cell_y = y_top;
    let cell_height = y_bottom - y_top - 1;

    // The scanline at which to probe for vertical rules.
    let cell_y_med = cell_y + cell_height / 2;
    assert(cell_y_med as int == cell_y_median(ytg, ybg));

    let mut cur_col: u32 = 0;
    let mut prev_x: u64 = 0;
    let mut x: u64 = (CELL_MIN_WIDTH_PX - 1) as u64;

    while x < width as u64
        invariant
            lines.wf(),
            m == *lines,
            width == lines.width,
            rowg == cur_row as int,
            ytg == y_top as int,
            ybg == y_bottom as int,
            y_top < y_bottom < lines.height,
            cell_y_med as int == cell_y_median(ytg, ybg),
            cell_y_med < lines.height,
            cell_y == y_top,
            cell_height as int == ybg - ytg - 1,
            prev_x + CELL_MIN_WIDTH_PX - 1 <= x,
            prev_x <= width,
            CELL_MIN_WIDTH_PX * cur_col as int <= prev_x,
            acc0 + row_cells(m, rowg, ytg, ybg) == acc@ + col_scan(
                m,
                rowg,
                ytg,
                ybg,
                x as int,
                prev_x as int,
                cur_col as int,
            ),
        decreases width as int + CELL_MIN_WIDTH_PX - x as int,
    {
        if lines.get(x as u32, cell_y_med) == LinePixel::Line {
            let cell = Cell {
                row: cur_row,
                col: cur_col,
                x: prev_x as u32,
                y: cell_y,
                width: (x - prev_x - 1) as u32,
                height: cell_height,
            };
            assert(cell == make_cell(rowg, cur_col as int, prev_x as int, x as int, ytg, ybg));
            let ghost acc_before = acc@;
            acc.push(cell);
            proof {
                assert(acc@ =~= acc_before + seq![cell]);
                assert((acc_before + seq![cell]) + col_scan(
                    m,
                    rowg,
                    ytg,
                    ybg,
                    x as int + CELL_MIN_WIDTH_PX,
                    x as int + 1,
                    cur_col as int + 1,
                ) =~= acc_before + (seq![cell] + col_scan(
                    m,
                    rowg,
                    ytg,
                    ybg,
                    x as int + CELL_MIN_WIDTH_PX,
                    x as int + 1,
                    cur_col as int + 1,
                )));
            }
            prev_x = x + 1;
            cur_col = cur_col + 1;
            // A new column is defined: ignore rules within the minimum width.
            x = x + CELL_MIN_WIDTH_PX as u64;
        } else {
            x = x + 1;
        }
    }

    // A final cell against the right border wall, if room remains.
    if prev_x + (CELL_MIN_WIDTH_PX as u64) < width as u64 {
        let cell = Cell {
            row: cur_row,
            col: cur_col,
            x: prev_x as u32,
            y: cell_y,
            width: (width as u64 - prev_x - 1) as u32,
            height: cell_height,
        };
        assert(cell == make_cell(rowg, cur_col as int, prev_x as int, width as int, ytg, ybg));
        let ghost acc_before = acc@;
        acc.push(cell);
        proof {
            assert(acc@ =~= acc_before + seq![cell]);
        }
    } else {
        proof {
            assert(acc@ =~= acc@ + Seq::<Cell>::empty());
        }
    }
}

/// Walks the line mask and returns the table's cells: a pure function of
/// the mask, its result fixed by `cells_spec`.
pub fn detect_cells(lines: &LineMask) -> (cells: Vec<Cell>)
    requires
        lines.wf(),
    ensures
        cells@ == cells_spec(*lines),
{
    let ghost m = *lines;
    let height = lines.height;
    let width = lines.width;
    let mut acc: Vec<Cell> = Vec::new();

    // A zero-width mask has no leftmost column to probe (and no cells).
    if width == 0 {
        proof {
            lemma_row_scan_empty_when_narrow(m, CELL_MIN_HEIGHT_PX - 1, 0, 0);
            assert(acc@ =~= cells_spec(m));
        }
        return acc;
    }

    let mut cur_row: u32 = 0;
    let mut prev_y: u64 = 0;
    let mut y: u64 = (CELL_MIN_HEIGHT_PX - 1) as u64;

    // The line detector extended row rules to the left wall, so only the
    // leftmost column of pixels need be probed for row boundaries.
    while y < height as u64
        invariant
            lines.wf(),
            m == *lines,
            width == lines.width,
            height == lines.height,
            width > 0,
            prev_y + CELL_MIN_HEIGHT_PX - 1 <= y,
            prev_y <= height,
            CELL_MIN_HEIGHT_PX * cur_row as int <= prev_y,
            cells_spec(m) == acc@ + row_scan(m, y as int, prev_y as int, cur_row as int),
        decreases height as int + CELL_MIN_HEIGHT_PX - y as int,
    {
        // A line pixel in the leftmost column, or the bottom border, closes
        // the current row.
        if lines.get(0, y as u32) == LinePixel::Line || y == (height as u64) - 1 {
            detect_cells_in_row(&mut acc, lines, cur_row, prev_y as u32, y as u32);
            proof {
                assert(cells_spec(m) == acc@ + row_scan(
                    m,
                    y as int + CELL_MIN_HEIGHT_PX,
                    y as int + 1,
                    cur_row as int + 1,
                ));
            }
            prev_y = y + 1;
            y = y + CELL_MIN_HEIGHT_PX as u64;
            cur_row = cur_row + 1;
        } else {
            y = y + 1;
        }
    }

    // A final row against the bottom border wall, if room remains.
    if prev_y + (CELL_MIN_HEIGHT_PX as u64) < height as u64 {
        detect_cells_in_row(&mut acc, lines, cur_row, prev_y as u32, height - 1);
    }
    proof {
        assert(acc@ =~= cells_spec(m));
    }
    acc
}

/// A mask narrower than the minimum cell width yields no cells: every row's
/// column scan starts at or past the right edge and leaves no room for a
/// trailing cell.
pub proof fn lemma_row_scan_empty_when_narrow(m: LineMask, y: int, prev_y: int, row: int)
    requires
        m.width < CELL_MIN_WIDTH_PX,
    ensures
        row_scan(m, y, prev_y, row) == Seq::<Cell>::empty(),
    decreases m.height + CELL_MIN_HEIGHT_PX - y,
{
    if y >= m.height {
        if prev_y + CELL_MIN_HEIGHT_PX < m.height {
            assert(row_cells(m, row, prev_y, m.height - 1) =~= Seq::<Cell>::empty());
        }
    } else if m.at(0, y) is Line || y == m.height - 1 {
        lemma_row_scan_empty_when_narrow(m, y + CELL_MIN_HEIGHT_PX, y + 1, row + 1);
        assert(row_cells(m, row, prev_y, y) =~= Seq::<Cell>::empty());
        assert(row_scan(m, y, prev_y, row) =~= Seq::<Cell>::empty());
    } else {
        lemma_row_scan_empty_when_narrow(m, y + 1, prev_y, row);
    }
}

} // verus!
