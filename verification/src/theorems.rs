//! What holds of every compilation and every expansion.

use vstd::prelude::*;
use crate::compiler::{compiled, meta_index_of, EMPTY_CELL_INDEX};
use crate::expansion::{
    apply_writes,
    block_writes,
    cell_writes,
    expanded_layer,
    expansion_writes,
    goes_to,
    lemma_cell_of_write,
    lemma_last_write_absent,
    lemma_last_write_found,
    lemma_last_write_wins,
    lemma_write_of_cell,
    table_covers,
    visits,
    write_position,
};
use crate::geometry::{base_column, layer_of_row, visited, TargetLayer, LAYER_CELLS};
use crate::grid::{lemma_offset_in_bounds, GridModel};
use crate::layer::layer_offset;
use crate::meta_tile_table::holds_meta_tile;

verus! {

/// Compiling keeps every cell in its place: the compiled map has one index per
/// cell of the grid, and cell `(x, y)` of the map, found at `x + y * width`,
/// holds the index recorded for cell `(x, y)` of the grid.
pub proof fn theorem_compile_is_row_major(grid: GridModel<Option<u32>>, x: int, y: int)
    requires
        grid.well_formed(),
        grid.contains(x, y),
    ensures
        compiled(grid).well_formed(),
        compiled(grid).cells.len() == grid.width * grid.height,
        compiled(grid).at(x, y) == meta_index_of(grid.at(x, y)),
{
    lemma_offset_in_bounds(grid.width, grid.height, x, y);
}

/// An expansion makes exactly eight writes for every visited cell, and it
/// visits the cells of the first 64 columns and the first 64 rows only.
pub proof fn theorem_write_count<D>(map: GridModel<u16>, table: Seq<D>)
    ensures
        expansion_writes(map, table).len() == visited(map.width as int) * visited(
            map.height as int,
        ) * 8,
        visited(map.width as int) <= 64,
        visited(map.height as int) <= 64,
{
    assert(0 <= visited(map.width as int) * visited(map.height as int) * 8) by (nonlinear_arith)
        requires
            0 <= visited(map.width as int),
            0 <= visited(map.height as int),
    ;
}

/// Compiling a grid of at most 64 columns and 64 rows and expanding the
/// result makes exactly `width * height * 8` writes. The eight writes of a
/// cell stand together, and they are split four and four between two
/// consecutive hardware rows: the first four go to the cell's own row, the
/// last four to the row below it.
pub proof fn theorem_compiled_grid_write_count<D>(grid: GridModel<Option<u32>>, table: Seq<D>)
    requires
        grid.well_formed(),
        grid.width <= 64,
        grid.height <= 64,
    ensures
        expansion_writes(compiled(grid), table).len() == grid.width * grid.height * 8,
        forall|x: int, y: int, k: int|
            #![trigger write_position(compiled(grid), x, y, k)]
            grid.contains(x, y) && 0 <= k < 8 ==> {
                let i = write_position(compiled(grid), x, y, k);
                &&& i == (x + y * grid.width) * 8 + k
                &&& 0 <= i < grid.width * grid.height * 8
                &&& expansion_writes(compiled(grid), table)[i].y == if k < 4 {
                    y
                } else {
                    y + 1
                }
            },
{
    let map = compiled(grid);
    theorem_write_count(map, table);
    assert forall|x: int, y: int, k: int|
        #![trigger write_position(map, x, y, k)]
        grid.contains(x, y) && 0 <= k < 8 implies {
        let i = write_position(map, x, y, k);
        &&& i == (x + y * grid.width) * 8 + k
        &&& 0 <= i < grid.width * grid.height * 8
        &&& expansion_writes(map, table)[i].y == if k < 4 {
            y
        } else {
            y + 1
        }
    } by {
        lemma_write_of_cell(map, table, x, y, k);
    }
}

/// Where a block is written depends on the cell's position alone. The eight
/// descriptors of visited cell `(x, y)` go to layer 0 at hardware columns
/// `x * 4 + 2 .. x * 4 + 6` when `y` is even, and to layer 1 at hardware
/// columns `x * 4 .. x * 4 + 4` when `y` is odd; descriptor `k` goes to column
/// `k % 4` of that range, in hardware row `y` for the first four and `y + 1`
/// for the last four. Where the table holds the cell's meta-tile, the
/// descriptor written is element `meta_index * 8 + k` of the table.
pub proof fn theorem_block_placement<D>(map: GridModel<u16>, table: Seq<D>, x: int, y: int, k: int)
    requires
        visits(map, x, y),
        0 <= k < 8,
    ensures
        ({
            let i = write_position(map, x, y, k);
            let write = expansion_writes(map, table)[i];
            &&& 0 <= i < expansion_writes(map, table).len()
            &&& y % 2 == 0 ==> write.layer == TargetLayer::Layer0 && x * 4 + 2 <= write.x < x * 4
                + 6
            &&& y % 2 != 0 ==> write.layer == TargetLayer::Layer1 && x * 4 <= write.x < x * 4 + 4
            &&& write.x == base_column(x, y) + k % 4
            &&& write.y == y + k / 4
            &&& holds_meta_tile(table, map.at(x, y) as int) ==> write.descriptor == table[map.at(
                x,
                y,
            ) * 8 + k]
        }),
{
    lemma_write_of_cell(map, table, x, y, k);
}

/// Every write of an expansion belongs to a visited cell: a cell of the first
/// 64 columns and the first 64 rows of the map. Nothing is written for any
/// other cell.
pub proof fn theorem_writes_come_from_visited_cells<D>(map: GridModel<u16>, table: Seq<D>, i: int)
    requires
        0 <= i < expansion_writes(map, table).len(),
    ensures
        ({
            let x = (i / 8) % visited(map.width as int);
            let y = (i / 8) / visited(map.width as int);
            &&& 0 <= x < map.width && x < 64
            &&& 0 <= y < map.height && y < 64
            &&& i == write_position(map, x, y, i % 8)
            &&& expansion_writes(map, table)[i] == cell_writes(map, table, x, y)[i % 8]
        }),
{
    lemma_cell_of_write(map, table, i);
}

/// Cells beyond the 64th column or the 64th row never matter: two maps that
/// agree on the cells that an expansion visits are expanded into the same
/// writes.
pub proof fn theorem_truncation<D>(first: GridModel<u16>, second: GridModel<u16>, table: Seq<D>)
    requires
        visited(first.width as int) == visited(second.width as int),
        visited(first.height as int) == visited(second.height as int),
        forall|x: int, y: int|
            #![trigger visits(first, x, y)]
            visits(first, x, y) ==> first.at(x, y) == second.at(x, y),
    ensures
        expansion_writes(first, table) == expansion_writes(second, table),
{
    let writes = expansion_writes(first, table);
    let others = expansion_writes(second, table);
    assert(writes.len() == others.len());
    assert forall|i: int| 0 <= i < writes.len() implies writes[i] == others[i] by {
        lemma_cell_of_write(first, table, i);
        let x = (i / 8) % visited(first.width as int);
        let y = (i / 8) / visited(first.width as int);
    }
    assert(writes =~= others);
}

/// Expanding twice is the same as expanding once: the second expansion
/// overwrites what the first one wrote with the same descriptors and leaves
/// every other cell alone.
pub proof fn theorem_expansion_is_idempotent<D>(
    map: GridModel<u16>,
    table: Seq<D>,
    layer: TargetLayer,
    cells: Seq<Option<D>>,
)
    requires
        cells.len() == LAYER_CELLS,
    ensures
        expanded_layer(map, table, layer, expanded_layer(map, table, layer, cells))
            == expanded_layer(map, table, layer, cells),
{
    let writes = expansion_writes(map, table);
    let once = apply_writes(cells, writes, layer);
    let twice = apply_writes(once, writes, layer);
    lemma_last_write_wins(cells, writes, layer, 0);
    lemma_last_write_wins(once, writes, layer, 0);
    assert forall|offset: int| 0 <= offset < LAYER_CELLS implies twice[offset] == once[offset] by {
        lemma_last_write_wins(cells, writes, layer, offset);
        lemma_last_write_wins(once, writes, layer, offset);
    }
    assert(twice =~= once);
}

/// A cell of a layer that no write of the expansion goes to holds afterwards
/// what it held before.
pub proof fn theorem_unwritten_cells_are_kept<D>(
    map: GridModel<u16>,
    table: Seq<D>,
    layer: TargetLayer,
    cells: Seq<Option<D>>,
    offset: int,
)
    requires
        cells.len() == LAYER_CELLS,
        0 <= offset < LAYER_CELLS,
        forall|i: int|
            0 <= i < expansion_writes(map, table).len() ==> !goes_to(
                #[trigger] expansion_writes(map, table)[i],
                layer,
                offset,
            ),
    ensures
        expanded_layer(map, table, layer, cells)[offset] == cells[offset],
{
    lemma_last_write_absent(expansion_writes(map, table), layer, offset);
    lemma_last_write_wins(cells, expansion_writes(map, table), layer, offset);
}

/// On a map of at most 16 columns no two writes of an expansion go to the
/// same cell, so every block is found in its layer afterwards: descriptor `k`
/// of visited cell `(x, y)` stands in the layer of row `y` at hardware column
/// `base_column(x, y) + k % 4` and hardware row `y + k / 4`, both taken as the
/// layer addresses them. This is stated of the expansions that succeed: the
/// table holds the meta-tile of every visited cell.
pub proof fn theorem_blocks_land<D>(
    map: GridModel<u16>,
    table: Seq<D>,
    cells: Seq<Option<D>>,
    x: int,
    y: int,
    k: int,
)
    requires
        cells.len() == LAYER_CELLS,
        map.width <= 16,
        table_covers(map, table),
        visits(map, x, y),
        0 <= k < 8,
    ensures
        expanded_layer(map, table, layer_of_row(y), cells)[layer_offset(
            base_column(x, y) + k % 4,
            y + k / 4,
        )] == Some(table[map.at(x, y) * 8 + k]),
{
    let writes = expansion_writes(map, table);
    let layer = layer_of_row(y);
    let offset = layer_offset(base_column(x, y) + k % 4, y + k / 4);
    let i = write_position(map, x, y, k);
    let columns = visited(map.width as int);
    lemma_write_of_cell(map, table, x, y, k);
    assert(goes_to(writes[i], layer, offset));
    assert forall|j: int| i < j < writes.len() implies !goes_to(
        #[trigger] writes[j],
        layer,
        offset,
    ) by {
        lemma_cell_of_write(map, table, j);
        let other_x = (j / 8) % columns;
        let other_y = (j / 8) / columns;
        let other_k = j % 8;
        lemma_write_of_cell(map, table, other_x, other_y, other_k);
        if goes_to(writes[j], layer, offset) {
            assert((other_y + other_k / 4) % 64 == (y + k / 4) % 64);
            assert((base_column(other_x, other_y) + other_k % 4) % 64 == (base_column(x, y) + k
                % 4) % 64);
            assert(other_x == x);
            assert(other_k % 4 == k % 4);
            assert(other_k == k);
        }
    }
    lemma_last_write_found(writes, layer, offset, i);
    lemma_last_write_wins(cells, writes, layer, offset);
}

/// An empty cell is compiled to meta-tile index 0, and expanding it writes
/// the first eight descriptors of the table, whatever they are.
pub proof fn theorem_empty_cell<D>(grid: GridModel<Option<u32>>, table: Seq<D>, x: int, y: int)
    requires
        grid.well_formed(),
        grid.contains(x, y),
        grid.at(x, y) is None,
    ensures
        compiled(grid).at(x, y) == EMPTY_CELL_INDEX,
        EMPTY_CELL_INDEX == 0,
        visits(compiled(grid), x, y) ==> forall|k: int|
            #![trigger write_position(compiled(grid), x, y, k)]
            0 <= k < 8 ==> expansion_writes(compiled(grid), table)[write_position(
                compiled(grid),
                x,
                y,
                k,
            )] == block_writes(layer_of_row(y), base_column(x, y), y, table.subrange(0, 8))[k],
{
    theorem_compile_is_row_major(grid, x, y);
    let map = compiled(grid);
    if visits(map, x, y) {
        assert forall|k: int| #![trigger write_position(map, x, y, k)] 0 <= k < 8 implies
            expansion_writes(map, table)[write_position(map, x, y, k)] == block_writes(
            layer_of_row(y),
            base_column(x, y),
            y,
            table.subrange(0, 8),
        )[k] by {
            lemma_write_of_cell(map, table, x, y, k);
        }
    }
}

} // verus!
