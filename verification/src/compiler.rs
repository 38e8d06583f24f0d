//! The map compiler: from a source grid to a compiled map.

use vstd::prelude::*;
use crate::compiled_map::CompiledMap;
use crate::grid::{lemma_offset_in_bounds, GridModel};
use crate::source_grid::SourceGrid;

verus! {

/// The meta-tile index that is recorded when a cell holds no tile.
pub const EMPTY_CELL_INDEX: u16 = 0;

/// The meta-tile index recorded for one cell: the low 16 bits of the tile's
/// identifier, or 0 for an empty cell.
pub open spec fn meta_index_of(cell: Option<u32>) -> u16 {
    match cell {
        Some(id) => (id % 0x10000) as u16,
        None => EMPTY_CELL_INDEX,
    }
}

/// The index sequence of a grid: the index of every cell, in the grid's own
/// row-major order.
pub open spec fn compiled_indices(cells: Seq<Option<u32>>) -> Seq<u16> {
    Seq::new(cells.len(), |i: int| meta_index_of(cells[i]))
}

/// The compiled map of a grid: same width and height, every cell replaced by
/// its meta-tile index.
pub open spec fn compiled(grid: GridModel<Option<u32>>) -> GridModel<u16> {
    GridModel { width: grid.width, height: grid.height, cells: compiled_indices(grid.cells) }
}

/// Computes the meta-tile index recorded for one cell.
pub fn cell_index(cell: Option<u32>) -> (index: u16)
    ensures
        index == meta_index_of(cell),
{
    match cell {
        Some(id) => (id % 0x10000) as u16,
        None => EMPTY_CELL_INDEX,
    }
}

/// Walks the grid row by row, top to bottom, and each row left to right, and
/// collects the meta-tile index of every cell.
pub fn extract_tiles(grid: &SourceGrid) -> (indices: Vec<u16>)
    requires
        grid.well_formed(),
    ensures
        indices@ == compiled_indices(grid@.cells),
{
    let width = grid.width();
    let height = grid.height();
    let mut result: Vec<u16> = Vec::new();
    let mut y: u16 = 0;
    while y < height
        invariant
            grid.well_formed(),
            width == grid@.width,
            height == grid@.height,
            y <= height,
            result@.len() == y * width,
            result@.len() <= grid@.cells.len(),
            forall|i: int| 0 <= i < result@.len() ==> result@[i] == meta_index_of(grid@.cells[i]),
        decreases height - y,
    {
        let mut x: u16 = 0;
        while x < width
            invariant
                grid.well_formed(),
                width == grid@.width,
                height == grid@.height,
                y < height,
                x <= width,
                result@.len() == x + y * width,
                result@.len() <= grid@.cells.len(),
                forall|i: int|
                    0 <= i < result@.len() ==> result@[i] == meta_index_of(grid@.cells[i]),
            decreases width - x,
        {
            proof {
                lemma_offset_in_bounds(width as nat, height as nat, x as int, y as int);
            }
            let index = cell_index(grid.tile(x, y));
            result.push(index);
            x += 1;
        }
        assert((y + 1) * width == width + y * width) by (nonlinear_arith);
        y += 1;
    }
    assert(height * width == width * height) by (nonlinear_arith);
    result
}

/// Compiles a source grid: the result has the grid's width and height and
/// holds, for each cell, the low 16 bits of its tile identifier, or 0 where the
/// cell is empty.
///
/// Index 0 therefore stands for the empty cell and for every tile whose
/// identifier ends in sixteen zero bits alike. Whoever builds the meta-tile
/// table decides what an empty cell looks like by what is put at index 0.
pub fn compile(grid: &SourceGrid) -> (map: CompiledMap)
    requires
        grid.well_formed(),
    ensures
        map.well_formed(),
        map@ == compiled(grid@),
{
    let indices = extract_tiles(grid);
    CompiledMap::from_parts(grid.width(), grid.height(), indices)
}

} // verus!
