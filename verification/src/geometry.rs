//! Hardware facts of the display and the placement rules derived from them.

use vstd::prelude::*;

verus! {

/// Width and height, in hardware tiles, of one background layer. It is also
/// the largest number of map columns and map rows that an expansion visits.
pub const LAYER_SIZE: u16 = 64;

/// Number of hardware tiles in one background layer.
pub const LAYER_CELLS: usize = 4096;

/// Number of tile descriptors that make up one meta-tile.
pub const TILES_PER_META_TILE: usize = 8;

/// Width of a meta-tile's block, in hardware tiles.
pub const META_TILE_WIDTH: u16 = 4;

/// Height of a meta-tile's block, in hardware tiles.
pub const META_TILE_HEIGHT: u16 = 2;

/// The background layer that carries a map row.
#[derive(Clone, Copy, Debug, PartialEq, Eq, Structural)]
pub enum TargetLayer {
    /// The layer that carries the even map rows.
    Layer0,
    /// The layer that carries the odd map rows.
    Layer1,
}

/// How many columns (or rows) of a map dimension an expansion visits: the
/// dimension itself, cut off at the layer size.
pub open spec fn visited(dimension: int) -> int {
    if dimension < LAYER_SIZE as int {
        dimension
    } else {
        LAYER_SIZE as int
    }
}

/// The layer that map row `y` is written to: layer 0 for even rows, layer 1
/// for odd rows.
pub open spec fn layer_of_row(y: int) -> TargetLayer {
    if y % 2 == 0 {
        TargetLayer::Layer0
    } else {
        TargetLayer::Layer1
    }
}

/// The hardware column at which the block of map cell `(x, y)` starts: four
/// columns per map column, shifted right by two on even rows.
pub open spec fn base_column(x: int, y: int) -> int {
    x * 4 + if y % 2 == 0 {
        2int
    } else {
        0int
    }
}

/// Cuts a map dimension off at the layer size.
pub fn visited_dimension(dimension: u16) -> (r: u16)
    ensures
        r as int == visited(dimension as int),
        r <= LAYER_SIZE,
        r <= dimension,
{
    if dimension < LAYER_SIZE {
        dimension
    } else {
        LAYER_SIZE
    }
}

/// Computes the layer that map row `y` is written to.
pub fn target_layer(y: u16) -> (layer: TargetLayer)
    ensures
        layer == layer_of_row(y as int),
{
    if y % 2 == 0 {
        TargetLayer::Layer0
    } else {
        TargetLayer::Layer1
    }
}

/// Computes the hardware column at which the block of map cell `(x, y)`
/// starts. The column has to fit in 16 bits.
pub fn real_x(x: u16, y: u16) -> (column: u16)
    requires
        x * 4 + 2 <= u16::MAX,
    ensures
        column as int == base_column(x as int, y as int),
{
    if y % 2 == 0 {
        x * 4 + 2
    } else {
        x * 4
    }
}

} // verus!
