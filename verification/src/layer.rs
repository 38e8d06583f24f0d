//! A background layer: a 64 by 64 grid of hardware tiles.

use vstd::prelude::*;
use crate::geometry::{LAYER_CELLS, LAYER_SIZE};

verus! {

/// The cell of a layer that hardware position `(x, y)` addresses. Positions
/// wrap around at the layer size in both directions, as the display does, and
/// the cells are stored row by row.
pub open spec fn layer_offset(x: int, y: int) -> int {
    (x % 64) + (y % 64) * 64
}

/// The state of a layer that nothing has been written to: every cell is empty.
pub open spec fn blank_layer<D>() -> Seq<Option<D>> {
    Seq::new(LAYER_CELLS as nat, |i: int| None::<D>)
}

/// A mutable grid of 64 by 64 hardware tiles. Each cell holds the tile
/// descriptor that was last written to it, or nothing.
pub struct BackgroundLayer<D> {
    cells: Vec<Option<D>>,
}

impl<D> View for BackgroundLayer<D> {
    type V = Seq<Option<D>>;

    closed spec fn view(&self) -> Seq<Option<D>> {
        self.cells@
    }
}

impl<D> BackgroundLayer<D> {
    /// The layer has one cell for each of its 64 by 64 positions.
    pub open spec fn well_formed(&self) -> bool {
        self@.len() == LAYER_CELLS
    }

    /// The content of the cell that `(x, y)` addresses.
    pub open spec fn tile_at(&self, x: int, y: int) -> Option<D> {
        self@[layer_offset(x, y)]
    }

    /// Creates a layer in which every cell is empty.
    pub fn new() -> (layer: Self)
        ensures
            layer.well_formed(),
            layer@ == blank_layer::<D>(),
    {
        let mut cells: Vec<Option<D>> = Vec::new();
        let mut i: usize = 0;
        while i < LAYER_CELLS
            invariant
                i <= LAYER_CELLS,
                cells@.len() == i,
                forall|j: int| 0 <= j < i ==> cells@[j] == None::<D>,
            decreases LAYER_CELLS - i,
        {
            cells.push(None);
            i += 1;
        }
        BackgroundLayer { cells }
    }

    /// Writes `descriptor` into the cell that `(x, y)` addresses and leaves
    /// every other cell as it was.
    pub fn set_tile(&mut self, x: u16, y: u16, descriptor: D)
        requires
            old(self).well_formed(),
        ensures
            final(self).well_formed(),
            final(self)@ == old(self)@.update(layer_offset(x as int, y as int), Some(descriptor)),
    {
        let offset: usize = ((x % LAYER_SIZE) as usize) + ((y % LAYER_SIZE) as usize) * 64;
        self.cells[offset] = Some(descriptor);
    }
}

impl<D: Copy> BackgroundLayer<D> {
    /// Reads the cell that `(x, y)` addresses.
    pub fn get_tile(&self, x: u16, y: u16) -> (cell: Option<D>)
        requires
            self.well_formed(),
        ensures
            cell == self.tile_at(x as int, y as int),
    {
        let offset: usize = ((x % LAYER_SIZE) as usize) + ((y % LAYER_SIZE) as usize) * 64;
        self.cells[offset]
    }
}

} // verus!
