//! The mathematical model of an expansion: which hardware tiles are written,
//! in which order, and what they leave in a layer.

use vstd::prelude::*;
use vstd::arithmetic::div_mod::{
    lemma_fundamental_div_mod,
    lemma_fundamental_div_mod_converse,
    lemma_mod_pos_bound,
};
use crate::geometry::{base_column, layer_of_row, visited, TargetLayer, LAYER_CELLS};
use crate::grid::{lemma_offset_in_bounds, GridModel};
use crate::layer::layer_offset;
use crate::meta_tile_table::{holds_meta_tile, meta_tile};

verus! {

/// One hardware tile to be written: the layer, the hardware position and the
/// descriptor that goes there.
#[derive(Debug, PartialEq, Eq)]
pub struct TileWrite<D> {
    pub layer: TargetLayer,
    pub x: u16,
    pub y: u16,
    pub descriptor: D,
}

impl<D: Copy> Clone for TileWrite<D> {
    fn clone(&self) -> (copy: Self)
        ensures
            copy == *self,
    {
        *self
    }
}

impl<D: Copy> Copy for TileWrite<D> {

}

/// Why an expansion could not be carried out.
#[derive(Clone, Copy, Debug, PartialEq, Eq, Structural)]
pub enum ExpandError {
    /// The cell `(x, y)` of the map names a meta-tile that the table does not
    /// hold.
    MetaIndexOutOfRange { x: u16, y: u16, meta_index: u16 },
}

/// The eight writes of one block: the first four descriptors go to hardware
/// row `row`, columns `column .. column + 4`, the last four to the same
/// columns of row `row + 1`.
pub open spec fn block_writes<D>(layer: TargetLayer, column: int, row: int, settings: Seq<D>) -> Seq<
    TileWrite<D>,
> {
    Seq::new(
        8,
        |k: int|
            TileWrite {
                layer,
                x: (column + k % 4) as u16,
                y: (row + k / 4) as u16,
                descriptor: settings[k],
            },
    )
}

/// The eight writes that map cell `(x, y)` contributes.
pub open spec fn cell_writes<D>(map: GridModel<u16>, table: Seq<D>, x: int, y: int) -> Seq<
    TileWrite<D>,
> {
    block_writes(layer_of_row(y), base_column(x, y), y, meta_tile(table, map.at(x, y) as int))
}

/// The `i`-th write of an expansion. Cells are visited row by row and each
/// contributes eight writes in a row, so write `i` is descriptor `i % 8` of
/// the cell with number `i / 8`.
pub open spec fn write_at<D>(map: GridModel<u16>, table: Seq<D>, i: int) -> TileWrite<D> {
    let columns = visited(map.width as int);
    let cell = i / 8;
    cell_writes(map, table, cell % columns, cell / columns)[i % 8]
}

/// All writes of an expansion, in the order in which they are made: for each
/// visited row from top to bottom, for each visited column from left to
/// right, the eight writes of that cell.
pub open spec fn expansion_writes<D>(map: GridModel<u16>, table: Seq<D>) -> Seq<TileWrite<D>> {
    Seq::new(
        (visited(map.width as int) * visited(map.height as int) * 8) as nat,
        |i: int| write_at(map, table, i),
    )
}

/// `(x, y)` is a cell that an expansion of `map` visits.
pub open spec fn visits(map: GridModel<u16>, x: int, y: int) -> bool {
    0 <= x < visited(map.width as int) && 0 <= y < visited(map.height as int)
}

/// The table holds the meta-tile of every cell that an expansion visits.
pub open spec fn table_covers<D>(map: GridModel<u16>, table: Seq<D>) -> bool {
    forall|x: int, y: int| #[trigger]
        visits(map, x, y) ==> holds_meta_tile(table, map.at(x, y) as int)
}

/// Cell `(i, j)` is visited before cell `(x, y)`.
pub open spec fn visited_before(i: int, j: int, x: int, y: int) -> bool {
    j < y || (j == y && i < x)
}

/// `(x, y)` is the first visited cell whose meta-tile the table does not hold.
pub open spec fn first_uncovered<D>(map: GridModel<u16>, table: Seq<D>, x: int, y: int) -> bool {
    &&& visits(map, x, y)
    &&& !holds_meta_tile(table, map.at(x, y) as int)
    &&& forall|i: int, j: int|
        #![trigger visits(map, i, j)]
        visits(map, i, j) && visited_before(i, j, x, y) ==> holds_meta_tile(
            table,
            map.at(i, j) as int,
        )
}

/// The write goes to cell `offset` of `layer`.
pub open spec fn goes_to<D>(write: TileWrite<D>, layer: TargetLayer, offset: int) -> bool {
    write.layer == layer && layer_offset(write.x as int, write.y as int) == offset
}

/// A layer's cells after one write: the addressed cell takes the descriptor if
/// the write is for this layer, and nothing changes otherwise.
pub open spec fn apply_write<D>(cells: Seq<Option<D>>, write: TileWrite<D>, layer: TargetLayer) -> Seq<
    Option<D>,
> {
    if write.layer == layer {
        cells.update(layer_offset(write.x as int, write.y as int), Some(write.descriptor))
    } else {
        cells
    }
}

/// A layer's cells after a sequence of writes, made in order.
pub open spec fn apply_writes<D>(
    cells: Seq<Option<D>>,
    writes: Seq<TileWrite<D>>,
    layer: TargetLayer,
) -> Seq<Option<D>>
    decreases writes.len(),
{
    if writes.len() == 0 {
        cells
    } else {
        apply_write(apply_writes(cells, writes.drop_last(), layer), writes.last(), layer)
    }
}

/// A layer's cells after the expansion of `map` with `table`.
pub open spec fn expanded_layer<D>(
    map: GridModel<u16>,
    table: Seq<D>,
    layer: TargetLayer,
    cells: Seq<Option<D>>,
) -> Seq<Option<D>> {
    apply_writes(cells, expansion_writes(map, table), layer)
}

/// The descriptor of the last of `writes` that goes to cell `offset` of
/// `layer`, or `None` when none of them does.
pub open spec fn last_write<D>(writes: Seq<TileWrite<D>>, layer: TargetLayer, offset: int) -> Option<
    D,
>
    decreases writes.len(),
{
    if writes.len() == 0 {
        None
    } else if goes_to(writes.last(), layer, offset) {
        Some(writes.last().descriptor)
    } else {
        last_write(writes.drop_last(), layer, offset)
    }
}

/// The position, among all writes of an expansion, of descriptor `k` of
/// visited cell `(x, y)`.
pub open spec fn write_position(map: GridModel<u16>, x: int, y: int, k: int) -> int {
    (x + y * visited(map.width as int)) * 8 + k
}

/// The number of a visited cell determines its column and its row.
pub proof fn lemma_cell_coordinates(columns: int, x: int, y: int)
    requires
        0 <= x < columns,
        0 <= y,
    ensures
        (x + y * columns) % columns == x,
        (x + y * columns) / columns == y,
        0 <= x + y * columns,
{
    assert(x + y * columns == y * columns + x) by (nonlinear_arith);
    assert(0 <= y * columns) by (nonlinear_arith)
        requires
            0 <= y,
            0 < columns,
    ;
    lemma_fundamental_div_mod_converse(x + y * columns, columns, y, x);
}

/// Descriptor `k` of a visited cell `(x, y)` is written at position
/// `write_position(map, x, y, k)` of the expansion.
pub proof fn lemma_write_of_cell<D>(map: GridModel<u16>, table: Seq<D>, x: int, y: int, k: int)
    requires
        visits(map, x, y),
        0 <= k < 8,
    ensures
        0 <= write_position(map, x, y, k) < expansion_writes(map, table).len(),
        expansion_writes(map, table)[write_position(map, x, y, k)] == cell_writes(
            map,
            table,
            x,
            y,
        )[k],
{
    let columns = visited(map.width as int);
    let rows = visited(map.height as int);
    lemma_offset_in_bounds(columns as nat, rows as nat, x, y);
    lemma_cell_coordinates(columns, x, y);
    let cell = x + y * columns;
    assert(cell * 8 + k < columns * rows * 8) by (nonlinear_arith)
        requires
            cell < columns * rows,
            k < 8,
    ;
}

/// Every write of an expansion is one of the eight writes of a visited cell.
pub proof fn lemma_cell_of_write<D>(map: GridModel<u16>, table: Seq<D>, i: int)
    requires
        0 <= i < expansion_writes(map, table).len(),
    ensures
        visits(map, (i / 8) % visited(map.width as int), (i / 8) / visited(map.width as int)),
        i == write_position(
            map,
            (i / 8) % visited(map.width as int),
            (i / 8) / visited(map.width as int),
            i % 8,
        ),
{
    let columns = visited(map.width as int);
    let rows = visited(map.height as int);
    let cell = i / 8;
    assert(0 < columns && 0 < rows) by (nonlinear_arith)
        requires
            0 <= columns,
            0 <= rows,
            0 < columns * rows * 8,
    ;
    assert(cell < columns * rows) by (nonlinear_arith)
        requires
            cell * 8 <= i,
            i < columns * rows * 8,
    ;
    lemma_fundamental_div_mod(cell, columns);
    lemma_mod_pos_bound(cell, columns);
    let x = cell % columns;
    let y = cell / columns;
    assert(0 <= y < rows) by (nonlinear_arith)
        requires
            cell == columns * y + x,
            0 <= x < columns,
            0 <= cell < columns * rows,
    ;
    assert(x + y * columns == cell) by (nonlinear_arith)
        requires
            cell == columns * y + x,
    ;
}

/// Every hardware position addresses one of the 4096 cells of a layer, and
/// the cell tells the column and the row, both taken modulo 64.
pub proof fn lemma_layer_offset_in_bounds(x: int, y: int)
    ensures
        0 <= layer_offset(x, y) < LAYER_CELLS,
        layer_offset(x, y) % 64 == x % 64,
        layer_offset(x, y) / 64 == y % 64,
{
}

/// After a sequence of writes a layer has as many cells as before, and each
/// cell holds the descriptor of the last write that went to it, or what it
/// held before when no write went to it.
pub proof fn lemma_last_write_wins<D>(
    cells: Seq<Option<D>>,
    writes: Seq<TileWrite<D>>,
    layer: TargetLayer,
    offset: int,
)
    requires
        cells.len() == LAYER_CELLS,
        0 <= offset < LAYER_CELLS,
    ensures
        apply_writes(cells, writes, layer).len() == LAYER_CELLS,
        apply_writes(cells, writes, layer)[offset] == match last_write(writes, layer, offset) {
            Some(descriptor) => Some(descriptor),
            None => cells[offset],
        },
    decreases writes.len(),
{
    if writes.len() > 0 {
        lemma_last_write_wins(cells, writes.drop_last(), layer, offset);
        lemma_layer_offset_in_bounds(writes.last().x as int, writes.last().y as int);
    }
}

/// A write that no later write follows to the same cell is the last one
/// there.
pub proof fn lemma_last_write_found<D>(
    writes: Seq<TileWrite<D>>,
    layer: TargetLayer,
    offset: int,
    i: int,
)
    requires
        0 <= i < writes.len(),
        goes_to(writes[i], layer, offset),
        forall|j: int| i < j < writes.len() ==> !goes_to(#[trigger] writes[j], layer, offset),
    ensures
        last_write(writes, layer, offset) == Some(writes[i].descriptor),
    decreases writes.len(),
{
    if i < writes.len() - 1 {
        let rest = writes.drop_last();
        assert forall|j: int| i < j < rest.len() implies !goes_to(
            #[trigger] rest[j],
            layer,
            offset,
        ) by {
        }
        lemma_last_write_found(rest, layer, offset, i);
    }
}

/// Where no write goes, there is no last write.
pub proof fn lemma_last_write_absent<D>(writes: Seq<TileWrite<D>>, layer: TargetLayer, offset: int)
    requires
        forall|j: int| 0 <= j < writes.len() ==> !goes_to(#[trigger] writes[j], layer, offset),
    ensures
        last_write(writes, layer, offset) is None,
    decreases writes.len(),
{
    if writes.len() > 0 {
        let rest = writes.drop_last();
        assert forall|j: int| 0 <= j < rest.len() implies !goes_to(
            #[trigger] rest[j],
            layer,
            offset,
        ) by {
        }
        lemma_last_write_absent(rest, layer, offset);
    }
}

} // verus!
