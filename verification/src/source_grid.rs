//! The level as the editor hands it over: a grid of optional tile identifiers.

use vstd::prelude::*;
use crate::grid::GridModel;

verus! {

/// Largest width or height that a grid may have: both must fit in 16 bits.
pub const MAX_DIMENSION: u32 = 0xffff;

/// A rectangular grid of logical cells. A cell either names a tile by its
/// identifier or is empty.
pub struct SourceGrid {
    width: u16,
    height: u16,
    cells: Vec<Option<u32>>,
}

impl View for SourceGrid {
    type V = GridModel<Option<u32>>;

    closed spec fn view(&self) -> GridModel<Option<u32>> {
        GridModel { width: self.width as nat, height: self.height as nat, cells: self.cells@ }
    }
}

impl SourceGrid {
    /// The grid holds one cell per position and its dimensions fit in 16 bits.
    pub open spec fn well_formed(&self) -> bool {
        &&& self@.well_formed()
        &&& self@.width <= MAX_DIMENSION
        &&& self@.height <= MAX_DIMENSION
    }

    /// Builds a grid from its dimensions and its cells in row-major order.
    ///
    /// Returns `None` exactly when a dimension does not fit in 16 bits or the
    /// number of cells is not `width * height`.
    pub fn new(width: u32, height: u32, cells: Vec<Option<u32>>) -> (grid: Option<SourceGrid>)
        ensures
            grid is Some <==> (width <= MAX_DIMENSION && height <= MAX_DIMENSION && cells@.len()
                == width * height),
            grid matches Some(g) ==> g.well_formed() && g@ == (GridModel {
                width: width as nat,
                height: height as nat,
                cells: cells@,
            }),
    {
        if width > MAX_DIMENSION || height > MAX_DIMENSION {
            return None;
        }
        assert(width * height <= 0xffff * 0xffff) by (nonlinear_arith)
            requires
                width <= 0xffff,
                height <= 0xffff,
        ;
        let expected: usize = (width as usize) * (height as usize);
        if cells.len() != expected {
            return None;
        }
        Some(SourceGrid { width: width as u16, height: height as u16, cells })
    }

    /// Number of columns.
    pub fn width(&self) -> (w: u16)
        ensures
            w == self@.width,
    {
        self.width
    }

    /// Number of rows.
    pub fn height(&self) -> (h: u16)
        ensures
            h == self@.height,
    {
        self.height
    }

    /// The content of cell `(x, y)`: the tile's identifier, or `None` for an
    /// empty cell. A position outside the grid holds no tile.
    pub fn tile(&self, x: u16, y: u16) -> (cell: Option<u32>)
        requires
            self.well_formed(),
        ensures
            cell == if self@.contains(x as int, y as int) {
                self@.at(x as int, y as int)
            } else {
                None
            },
    {
        if x >= self.width || y >= self.height {
            return None;
        }
        proof {
            crate::grid::lemma_offset_in_bounds(
                self.width as nat,
                self.height as nat,
                x as int,
                y as int,
            );
            assert(self.width * self.height <= 0xffff * 0xffff) by (nonlinear_arith)
                requires
                    self.width <= 0xffff,
                    self.height <= 0xffff,
            ;
        }
        let offset: usize = (x as usize) + (y as usize) * (self.width as usize);
        self.cells[offset]
    }
}

} // verus!
