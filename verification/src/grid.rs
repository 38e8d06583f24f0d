//! The mathematical model of a rectangular, row-major grid.

use vstd::prelude::*;

verus! {

/// A rectangular grid of `width` columns and `height` rows whose cells are
/// stored row by row: cell `(x, y)` is element `x + y * width` of `cells`.
pub struct GridModel<T> {
    pub width: nat,
    pub height: nat,
    pub cells: Seq<T>,
}

impl<T> GridModel<T> {
    /// The grid holds exactly one element per cell.
    pub open spec fn well_formed(self) -> bool {
        self.cells.len() == self.width * self.height
    }

    /// `(x, y)` names a cell of the grid.
    pub open spec fn contains(self, x: int, y: int) -> bool {
        0 <= x < self.width && 0 <= y < self.height
    }

    /// The position of cell `(x, y)` in `cells`.
    pub open spec fn offset(self, x: int, y: int) -> int {
        x + y * self.width
    }

    /// The content of cell `(x, y)`.
    pub open spec fn at(self, x: int, y: int) -> T {
        self.cells[self.offset(x, y)]
    }
}

/// Every cell of a grid has its own position inside `cells`.
pub proof fn lemma_offset_in_bounds(width: nat, height: nat, x: int, y: int)
    requires
        0 <= x < width,
        0 <= y < height,
    ensures
        0 <= x + y * width < width * height,
        y * width <= x + y * width < (y + 1) * width,
{
    assert(y * width >= 0) by (nonlinear_arith)
        requires
            y >= 0,
            width >= 0,
    ;
    assert((y + 1) * width == y * width + width) by (nonlinear_arith);
    assert((y + 1) * width <= height * width) by (nonlinear_arith)
        requires
            y + 1 <= height,
            width >= 0,
    ;
    assert(height * width == width * height) by (nonlinear_arith);
}

} // verus!
