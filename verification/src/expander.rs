//! The dual-layer tile expander: from a compiled map and a meta-tile table to
//! the hardware tiles of two background layers.

use vstd::prelude::*;
use crate::compiled_map::CompiledMap;
use crate::expansion::{
    apply_writes,
    block_writes,
    expanded_layer,
    expansion_writes,
    first_uncovered,
    lemma_cell_coordinates,
    table_covers,
    visited_before,
    visits,
    write_at,
    ExpandError,
    TileWrite,
};
use crate::geometry::{layer_of_row, real_x, target_layer, visited, visited_dimension, TargetLayer};
use crate::layer::BackgroundLayer;
use crate::meta_tile_table::{get_meta_tile, holds_meta_tile, MetaTileTable};

verus! {

/// Appends the eight writes of one block to `writes`.
fn push_block<D: Copy>(
    writes: &mut Vec<TileWrite<D>>,
    layer: TargetLayer,
    column: u16,
    row: u16,
    settings: &[D],
)
    requires
        settings@.len() == 8,
        column <= 0xfff0,
        row < 0xffff,
    ensures
        final(writes)@ == old(writes)@ + block_writes(layer, column as int, row as int, settings@),
{
    let ghost before = writes@;
    let ghost block = block_writes(layer, column as int, row as int, settings@);
    let mut index: u16 = 0;
    while index < 4
        invariant
            index <= 4,
            settings@.len() == 8,
            column <= 0xfff0,
            block == block_writes(layer, column as int, row as int, settings@),
            writes@ == before + block.take(index as int),
        decreases 4 - index,
    {
        writes.push(TileWrite { layer, x: column + index, y: row, descriptor: settings[index as usize] });
        index += 1;
    }
    let mut index: u16 = 0;
    while index < 4
        invariant
            index <= 4,
            settings@.len() == 8,
            column <= 0xfff0,
            row < 0xffff,
            block == block_writes(layer, column as int, row as int, settings@),
            writes@ == before + block.take(4 + index),
        decreases 4 - index,
    {
        writes.push(
            TileWrite {
                layer,
                x: column + index,
                y: row + 1,
                descriptor: settings[4 + index as usize],
            },
        );
        index += 1;
    }
}

/// Lists, in order, every write that the expansion of `map` with `table`
/// makes, without touching any layer.
///
/// At most 64 columns and 64 rows of the map are visited, whatever its size.
/// The result is an error exactly when a visited cell names a meta-tile that
/// the table does not hold; the error then names the first such cell.
pub fn plan_expansion<D: Copy>(map: &CompiledMap, table: &MetaTileTable<D>) -> (plan: Result<
    Vec<TileWrite<D>>,
    ExpandError,
>)
    requires
        map.well_formed(),
    ensures
        match plan {
            Ok(writes) => table_covers(map@, table@) && writes@ == expansion_writes(
                map@,
                table@,
            ),
            Err(ExpandError::MetaIndexOutOfRange { x, y, meta_index }) => first_uncovered(
                map@,
                table@,
                x as int,
                y as int,
            ) && meta_index == map@.at(x as int, y as int),
        },
{
    let columns = visited_dimension(map.width());
    let rows = visited_dimension(map.height());
    let mut writes: Vec<TileWrite<D>> = Vec::new();
    let mut y: u16 = 0;
    while y < rows
        invariant
            map.well_formed(),
            columns == visited(map@.width as int),
            rows == visited(map@.height as int),
            y <= rows,
            writes@.len() == (y * columns) * 8,
            forall|i: int| 0 <= i < writes@.len() ==> writes@[i] == write_at(map@, table@, i),
            forall|i: int, j: int|
                #![trigger visits(map@, i, j)]
                visits(map@, i, j) && j < y ==> holds_meta_tile(table@, map@.at(i, j) as int),
        decreases rows - y,
    {
        let layer = target_layer(y);
        let mut x: u16 = 0;
        while x < columns
            invariant
                map.well_formed(),
                columns == visited(map@.width as int),
                rows == visited(map@.height as int),
                y < rows,
                x <= columns,
                layer == layer_of_row(y as int),
                writes@.len() == (x + y * columns) * 8,
                forall|i: int| 0 <= i < writes@.len() ==> writes@[i] == write_at(map@, table@, i),
                forall|i: int, j: int|
                    #![trigger visits(map@, i, j)]
                    visits(map@, i, j) && visited_before(i, j, x as int, y as int)
                        ==> holds_meta_tile(table@, map@.at(i, j) as int),
            decreases columns - x,
        {
            let meta_index = map.meta_index(x, y);
            let settings = match get_meta_tile(meta_index, table) {
                Some(settings) => settings,
                None => {
                    return Err(ExpandError::MetaIndexOutOfRange { x, y, meta_index });
                },
            };
            push_block(&mut writes, layer, real_x(x, y), y, settings);
            proof {
                lemma_cell_coordinates(columns as int, x as int, y as int);
                assert((x + 1 + y * columns) * 8 == (x + y * columns) * 8 + 8) by (nonlinear_arith);
            }
            x += 1;
        }
        proof {
            assert((y + 1) * columns == columns + y * columns) by (nonlinear_arith);
        }
        y += 1;
    }
    proof {
        assert((y * columns) * 8 == columns * rows * 8) by (nonlinear_arith)
            requires
                y == rows,
        ;
    }
    Ok(writes)
}

/// Expands `map` into the two layers: every visited cell's meta-tile is looked
/// up in `table` and its eight descriptors are written, four and four, into
/// two consecutive hardware rows of the layer that carries the cell's row.
///
/// On success each layer holds what the writes of the expansion, made in
/// order, leave in it. When a visited cell names a meta-tile that the table
/// does not hold, nothing is written and the error names the first such cell.
pub fn expand<D: Copy>(
    map: &CompiledMap,
    table: &MetaTileTable<D>,
    layer_0: &mut BackgroundLayer<D>,
    layer_1: &mut BackgroundLayer<D>,
) -> (outcome: Result<(), ExpandError>)
    requires
        map.well_formed(),
        old(layer_0).well_formed(),
        old(layer_1).well_formed(),
    ensures
        final(layer_0).well_formed(),
        final(layer_1).well_formed(),
        match outcome {
            Ok(()) => {
                &&& table_covers(map@, table@)
                &&& final(layer_0)@ == expanded_layer(
                    map@,
                    table@,
                    TargetLayer::Layer0,
                    old(layer_0)@,
                )
                &&& final(layer_1)@ == expanded_layer(
                    map@,
                    table@,
                    TargetLayer::Layer1,
                    old(layer_1)@,
                )
            },
            Err(ExpandError::MetaIndexOutOfRange { x, y, meta_index }) => {
                &&& first_uncovered(map@, table@, x as int, y as int)
                &&& meta_index == map@.at(x as int, y as int)
                &&& final(layer_0)@ == old(layer_0)@
                &&& final(layer_1)@ == old(layer_1)@
            },
        },
{
    let writes = match plan_expansion(map, table) {
        Ok(writes) => writes,
        Err(error) => {
            return Err(error);
        },
    };
    let mut done: usize = 0;
    while done < writes.len()
        invariant
            done <= writes@.len(),
            layer_0.well_formed(),
            layer_1.well_formed(),
            layer_0@ == apply_writes(old(layer_0)@, writes@.take(done as int), TargetLayer::Layer0),
            layer_1@ == apply_writes(old(layer_1)@, writes@.take(done as int), TargetLayer::Layer1),
        decreases writes@.len() - done,
    {
        let write = writes[done];
        match write.layer {
            TargetLayer::Layer0 => layer_0.set_tile(write.x, write.y, write.descriptor),
            TargetLayer::Layer1 => layer_1.set_tile(write.x, write.y, write.descriptor),
        }
        proof {
            let next = writes@.take(done + 1);
            assert(next.drop_last() =~= writes@.take(done as int));
        }
        done += 1;
    }
    assert(writes@.take(done as int) =~= writes@);
    Ok(())
}

} // verus!
