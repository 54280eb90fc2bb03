//! Pixel buffers: an RGBA color and a rectangular, row-major grid.
//!
//! The same grid shape carries the input image (a grid of colors) and the
//! derived masks (grids of two-valued mask entries), so the grid is generic
//! in its entry type.

use vstd::prelude::*;

verus! {

/// One RGBA color: three 8-bit channels plus alpha.
#[derive(Clone, Copy, PartialEq, Eq, Structural, Debug)]
pub struct Rgba {
    pub r: u8,
    pub g: u8,
    pub b: u8,
    pub a: u8,
}

/// A rectangular buffer of entries. Row `y` of `rows` holds the entries of
/// the `y`-th scanline, top to bottom; within a row, x increases rightward.
/// Origin (0,0) is the top-left entry.
pub struct Grid<T> {
    pub width: u32,
    pub height: u32,
    pub rows: Vec<Vec<T>>,
}

/// The input image: a grid of colors.
pub type Image = Grid<Rgba>;

impl<T: Copy> Grid<T> {
    /// The buffer really is a `width` by `height` grid.
    pub open spec fn wf(self) -> bool {
        &&& self.rows@.len() == self.height as int
        &&& forall|y: int|
            0 <= y < self.height as int ==> (#[trigger] self.rows@[y])@.len() == self.width as int
    }

    /// The entry at column `x` of scanline `y`.
    pub open spec fn at(self, x: int, y: int) -> T {
        self.rows@[y]@[x]
    }

    /// A fresh grid with every entry set to `fill`.
    pub fn new(width: u32, height: u32, fill: T) -> (g: Grid<T>)
        ensures
            g.wf(),
            g.width == width,
            g.height == height,
            forall|x: int, y: int| 0 <= x < width && 0 <= y < height ==> g.at(x, y) == fill,
    {
        let mut rows: Vec<Vec<T>> = Vec::new();
        let mut y: u32 = 0;
        while y < height
            invariant
                y <= height,
                rows@.len() == y as int,
                forall|j: int| 0 <= j < y as int ==> (#[trigger] rows@[j])@.len() == width as int,
                forall|i: int, j: int|
                    0 <= i < width && 0 <= j < y as int ==> rows@[j]@[i] == fill,
            decreases height - y,
        {
            let mut row: Vec<T> = Vec::new();
            let mut x: u32 = 0;
            while x < width
                invariant
                    x <= width,
                    row@.len() == x as int,
                    forall|i: int| 0 <= i < x as int ==> row@[i] == fill,
                decreases width - x,
            {
                row.push(fill);
                x = x + 1;
            }
            rows.push(row);
            y = y + 1;
        }
        Grid { width, height, rows }
    }

    /// Reads the entry at `(x, y)`.
    pub fn get(&self, x: u32, y: u32) -> (p: T)
        requires
            self.wf(),
            x < self.width,
            y < self.height,
        ensures
            p == self.at(x as int, y as int),
    {
        self.rows[y as usize][x as usize]
    }

    /// Overwrites the entry at `(x, y)`, leaving every other entry unchanged.
    pub fn set(&mut self, x: u32, y: u32, p: T)
        requires
            old(self).wf(),
            x < old(self).width,
            y < old(self).height,
        ensures
            final(self).wf(),
            final(self).width == old(self).width,
            final(self).height == old(self).height,
            final(self).at(x as int, y as int) == p,
            forall|i: int, j: int|
                0 <= i < old(self).width && 0 <= j < old(self).height && !(i == x as int && j
                    == y as int) ==> final(self).at(i, j) == old(self).at(i, j),
    {
        self.rows[y as usize][x as usize] = p;
    }
}

} // verus!
