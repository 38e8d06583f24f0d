use metatile_map::compiled_map::CompiledMap;
use metatile_map::compiler::compile;
use metatile_map::expander::{expand, plan_expansion};
use metatile_map::expansion::{ExpandError, TileWrite};
use metatile_map::geometry::TargetLayer;
use metatile_map::layer::BackgroundLayer;
use metatile_map::meta_tile_table::MetaTileTable;
use metatile_map::source_grid::SourceGrid;

/// A table of `meta_tiles` meta-tiles in which descriptor `k` of meta-tile `m`
/// is the number `m * 8 + k`.
fn counting_table(meta_tiles: u16) -> MetaTileTable<u16> {
    MetaTileTable::new((0..meta_tiles * 8).collect())
}

fn map_of(width: u16, height: u16, indices: Vec<u16>) -> CompiledMap {
    CompiledMap::new(width, height, indices).expect("one index per cell")
}

fn write(layer: TargetLayer, x: u16, y: u16, descriptor: u16) -> TileWrite<u16> {
    TileWrite { layer, x, y, descriptor }
}

fn written_cells(layer: &BackgroundLayer<u16>) -> usize {
    let mut count = 0;
    for y in 0..64 {
        for x in 0..64 {
            if layer.get_tile(x, y).is_some() {
                count += 1;
            }
        }
    }
    count
}

fn same_cells(first: &BackgroundLayer<u16>, second: &BackgroundLayer<u16>) -> bool {
    (0..64).all(|y| (0..64).all(|x| first.get_tile(x, y) == second.get_tile(x, y)))
}

#[test]
fn example_grid_expands_into_four_blocks() {
    let grid = SourceGrid::new(2, 2, vec![Some(5), None, None, Some(5)]).expect("four cells");
    let map = compile(&grid);
    let table = counting_table(6);
    let writes = plan_expansion(&map, &table).expect("the table holds meta-tiles 0 and 5");
    let l0 = TargetLayer::Layer0;
    let l1 = TargetLayer::Layer1;
    let expected = vec![
        // cell (0, 0): meta-tile 5, layer 0, columns 2..6, rows 0 and 1
        write(l0, 2, 0, 40),
        write(l0, 3, 0, 41),
        write(l0, 4, 0, 42),
        write(l0, 5, 0, 43),
        write(l0, 2, 1, 44),
        write(l0, 3, 1, 45),
        write(l0, 4, 1, 46),
        write(l0, 5, 1, 47),
        // cell (1, 0): meta-tile 0, layer 0, columns 6..10, rows 0 and 1
        write(l0, 6, 0, 0),
        write(l0, 7, 0, 1),
        write(l0, 8, 0, 2),
        write(l0, 9, 0, 3),
        write(l0, 6, 1, 4),
        write(l0, 7, 1, 5),
        write(l0, 8, 1, 6),
        write(l0, 9, 1, 7),
        // cell (0, 1): meta-tile 0, layer 1, columns 0..4, rows 1 and 2
        write(l1, 0, 1, 0),
        write(l1, 1, 1, 1),
        write(l1, 2, 1, 2),
        write(l1, 3, 1, 3),
        write(l1, 0, 2, 4),
        write(l1, 1, 2, 5),
        write(l1, 2, 2, 6),
        write(l1, 3, 2, 7),
        // cell (1, 1): meta-tile 5, layer 1, columns 4..8, rows 1 and 2
        write(l1, 4, 1, 40),
        write(l1, 5, 1, 41),
        write(l1, 6, 1, 42),
        write(l1, 7, 1, 43),
        write(l1, 4, 2, 44),
        write(l1, 5, 2, 45),
        write(l1, 6, 2, 46),
        write(l1, 7, 2, 47),
    ];
    assert_eq!(writes, expected);
}

#[test]
fn example_grid_fills_both_layers() {
    let grid = SourceGrid::new(2, 2, vec![Some(5), None, None, Some(5)]).expect("four cells");
    let map = compile(&grid);
    let table = counting_table(6);
    let mut layer_0 = BackgroundLayer::new();
    let mut layer_1 = BackgroundLayer::new();
    assert_eq!(expand(&map, &table, &mut layer_0, &mut layer_1), Ok(()));

    for k in 0..4u16 {
        // layer 0
        assert_eq!(layer_0.get_tile(2 + k, 0), Some(40 + k));
        assert_eq!(layer_0.get_tile(2 + k, 1), Some(44 + k));
        assert_eq!(layer_0.get_tile(6 + k, 0), Some(k));
        assert_eq!(layer_0.get_tile(6 + k, 1), Some(4 + k));
        // layer 1
        assert_eq!(layer_1.get_tile(k, 1), Some(k));
        assert_eq!(layer_1.get_tile(k, 2), Some(4 + k));
        assert_eq!(layer_1.get_tile(4 + k, 1), Some(40 + k));
        assert_eq!(layer_1.get_tile(4 + k, 2), Some(44 + k));
    }
    assert_eq!(written_cells(&layer_0), 16);
    assert_eq!(written_cells(&layer_1), 16);
    assert_eq!(layer_0.get_tile(0, 0), None);
    assert_eq!(layer_0.get_tile(1, 0), None);
    assert_eq!(layer_0.get_tile(10, 0), None);
    assert_eq!(layer_0.get_tile(2, 2), None);
    assert_eq!(layer_1.get_tile(0, 0), None);
    assert_eq!(layer_1.get_tile(8, 1), None);
    assert_eq!(layer_1.get_tile(0, 3), None);
}

#[test]
fn eight_writes_per_cell_up_to_the_layer_size() {
    let table = counting_table(1);
    for &(width, height) in &[(0u16, 0u16), (1, 1), (2, 2), (5, 3), (16, 16), (64, 1), (1, 64), (64, 64)] {
        let map = map_of(width, height, vec![0; width as usize * height as usize]);
        let writes = plan_expansion(&map, &table).expect("meta-tile 0 is in the table");
        assert_eq!(writes.len(), width as usize * height as usize * 8);
    }
}

#[test]
fn writes_are_split_four_and_four_between_two_rows() {
    let width = 7u16;
    let height = 5u16;
    let indices: Vec<u16> = (0..width * height).collect();
    let map = map_of(width, height, indices);
    let table = counting_table(width * height);
    let writes = plan_expansion(&map, &table).expect("every index is in the table");
    assert_eq!(writes.len(), 7 * 5 * 8);
    for y in 0..height {
        for x in 0..width {
            let first = (x + y * width) as usize * 8;
            let block = &writes[first..first + 8];
            assert_eq!(block.iter().filter(|w| w.y == y).count(), 4);
            assert_eq!(block.iter().filter(|w| w.y == y + 1).count(), 4);
            for k in 0..8u16 {
                let w = block[k as usize];
                assert_eq!(w.y, y + k / 4);
                assert_eq!(w.descriptor, (x + y * width) * 8 + k);
            }
        }
    }
}

#[test]
fn block_position_depends_on_the_cell_alone() {
    let width = 20u16;
    let height = 6u16;
    let table = counting_table(3);
    let first = map_of(width, height, vec![1; 120]);
    let second = map_of(width, height, (0..120).map(|i| i % 3).collect());
    let first_writes = plan_expansion(&first, &table).expect("covered");
    let second_writes = plan_expansion(&second, &table).expect("covered");
    for y in 0..height {
        for x in 0..width {
            for k in 0..8u16 {
                let i = (x + y * width) as usize * 8 + k as usize;
                for w in [first_writes[i], second_writes[i]] {
                    if y % 2 == 0 {
                        assert_eq!(w.layer, TargetLayer::Layer0);
                        assert!(x * 4 + 2 <= w.x && w.x < x * 4 + 6);
                        assert_eq!(w.x, x * 4 + 2 + k % 4);
                    } else {
                        assert_eq!(w.layer, TargetLayer::Layer1);
                        assert!(x * 4 <= w.x && w.x < x * 4 + 4);
                        assert_eq!(w.x, x * 4 + k % 4);
                    }
                    assert_eq!(w.y, y + k / 4);
                }
            }
        }
    }
}

#[test]
fn expanding_twice_changes_nothing() {
    // 20 columns: the blocks of columns 16..20 land on those of columns 0..4.
    let width = 20u16;
    let height = 9u16;
    let indices: Vec<u16> = (0..width * height).map(|i| i % 11).collect();
    let map = map_of(width, height, indices);
    let table = counting_table(11);

    let mut once_0 = BackgroundLayer::new();
    let mut once_1 = BackgroundLayer::new();
    once_0.set_tile(0, 40, 9999);
    once_1.set_tile(5, 5, 8888);
    assert_eq!(expand(&map, &table, &mut once_0, &mut once_1), Ok(()));

    let mut twice_0 = BackgroundLayer::new();
    let mut twice_1 = BackgroundLayer::new();
    twice_0.set_tile(0, 40, 9999);
    twice_1.set_tile(5, 5, 8888);
    assert_eq!(expand(&map, &table, &mut twice_0, &mut twice_1), Ok(()));
    assert_eq!(expand(&map, &table, &mut twice_0, &mut twice_1), Ok(()));

    assert!(same_cells(&once_0, &twice_0));
    assert!(same_cells(&once_1, &twice_1));
    // what the expansion does not reach is kept, what it reaches is replaced;
    // at (5, 5) of layer 1 the block of cell (17, 5) lies over that of (1, 5)
    assert_eq!(once_0.get_tile(0, 40), Some(9999));
    assert_eq!(map.meta_index(17, 5), 7);
    assert_eq!(once_1.get_tile(5, 5), Some(7 * 8 + 1));
    // columns 16.. of the layer are reached by one block only
    assert_eq!(map.meta_index(4, 5), 5);
    assert_eq!(once_1.get_tile(17, 5), Some(5 * 8 + 1));
}

#[test]
fn rows_beyond_the_layer_size_are_never_visited() {
    let width = 3u32;
    let height = 100u32;
    // meta-tile 0 in rows 0..64, meta-tile 1 in rows 64..100
    let cells: Vec<Option<u32>> =
        (0..width * height).map(|i| if i / width < 64 { None } else { Some(1) }).collect();
    let grid = SourceGrid::new(width, height, cells).expect("300 cells");
    let map = compile(&grid);
    assert_eq!(map.indices().len(), 300);
    assert_eq!(map.meta_index(0, 63), 0);
    assert_eq!(map.meta_index(0, 64), 1);

    let table = counting_table(2);
    let writes = plan_expansion(&map, &table).expect("covered");
    assert_eq!(writes.len(), 3 * 64 * 8);
    assert!(writes.iter().all(|w| w.descriptor < 8));
    assert_eq!(writes.iter().map(|w| w.y).max(), Some(64));
    assert_eq!(writes[writes.len() - 1], write(TargetLayer::Layer1, 11, 64, 7));

    // rows 64.. may hold anything, even what the table lacks
    let other_cells: Vec<Option<u32>> =
        (0..width * height).map(|i| if i / width < 64 { None } else { Some(40000 + i) }).collect();
    let other = compile(&SourceGrid::new(width, height, other_cells).expect("300 cells"));
    assert_eq!(plan_expansion(&other, &table), Ok(writes));
}

#[test]
fn columns_beyond_the_layer_size_are_never_visited() {
    let width = 100u16;
    let height = 2u16;
    let indices: Vec<u16> = (0..width * height).map(|i| if i % width < 64 { 0 } else { 9 }).collect();
    let map = map_of(width, height, indices);
    let table = counting_table(1);
    let writes = plan_expansion(&map, &table).expect("the visited cells are covered");
    assert_eq!(writes.len(), 64 * 2 * 8);
    // the second row starts at index 100 of the map, not at 64
    let big = counting_table(200);
    let numbered = map_of(width, height, (0..200).collect());
    let writes = plan_expansion(&numbered, &big).expect("covered");
    assert_eq!(writes[0].descriptor, 0);
    assert_eq!(writes[63 * 8].descriptor, 63 * 8);
    assert_eq!(writes[64 * 8], write(TargetLayer::Layer1, 0, 1, 100 * 8));
    assert_eq!(writes.iter().map(|w| w.x).max(), Some(63 * 4 + 2 + 3));
}

#[test]
fn wide_map_is_addressed_beyond_16_bits() {
    // 2000 columns: row 39 starts at index 78000 of the map.
    let width = 2000u16;
    let height = 40u16;
    let mut indices = vec![0u16; 80000];
    indices[78000] = 3;
    indices[78063] = 2;
    indices[12464] = 1; // 78000 less 65536
    let map = map_of(width, height, indices);
    assert_eq!(map.meta_index(0, 39), 3);
    let table = counting_table(4);
    let writes = plan_expansion(&map, &table).expect("covered");
    assert_eq!(writes.len(), 64 * 40 * 8);
    let first_of_row_39 = 39 * 64 * 8;
    assert_eq!(writes[first_of_row_39], write(TargetLayer::Layer1, 0, 39, 24));
    assert_eq!(writes[first_of_row_39 + 63 * 8], write(TargetLayer::Layer1, 252, 39, 16));
    assert_eq!(writes[first_of_row_39 + 63 * 8 + 7], write(TargetLayer::Layer1, 255, 40, 23));
}

#[test]
fn largest_expansion_is_64_by_64_cells() {
    let map = map_of(300, 200, vec![0; 60000]);
    let table = counting_table(1);
    let writes = plan_expansion(&map, &table).expect("covered");
    assert_eq!(writes.len(), 64 * 64 * 8);
    let mut layer_0 = BackgroundLayer::new();
    let mut layer_1 = BackgroundLayer::new();
    assert_eq!(expand(&map, &table, &mut layer_0, &mut layer_1), Ok(()));
    // even rows fill rows 0..64 of layer 0; odd rows fill rows 1..65 of layer 1,
    // and row 64 is row 0 again
    assert_eq!(written_cells(&layer_0), 64 * 64);
    assert_eq!(written_cells(&layer_1), 64 * 64);
}

#[test]
fn empty_cell_expands_to_the_first_meta_tile() {
    let grid = SourceGrid::new(2, 1, vec![Some(2), None]).expect("two cells");
    let map = compile(&grid);
    assert_eq!(map.indices(), &vec![2u16, 0]);
    let table = MetaTileTable::new(vec![
        100u16, 101, 102, 103, 104, 105, 106, 107, // meta-tile 0
        0, 0, 0, 0, 0, 0, 0, 0, // meta-tile 1
        200, 201, 202, 203, 204, 205, 206, 207, // meta-tile 2
    ]);
    let writes = plan_expansion(&map, &table).expect("covered");
    let for_empty: Vec<u16> = writes[8..16].iter().map(|w| w.descriptor).collect();
    assert_eq!(for_empty, vec![100, 101, 102, 103, 104, 105, 106, 107]);
    assert_eq!(writes[8], write(TargetLayer::Layer0, 6, 0, 100));
    assert_eq!(writes[15], write(TargetLayer::Layer0, 9, 1, 107));
}

#[test]
fn meta_index_out_of_range_is_reported_for_the_first_cell() {
    let table = counting_table(5);
    // (1, 0) names meta-tile 5 and (0, 1) names meta-tile 9: neither is there
    let map = map_of(2, 2, vec![4, 5, 9, 0]);
    let expected = ExpandError::MetaIndexOutOfRange { x: 1, y: 0, meta_index: 5 };
    assert_eq!(plan_expansion(&map, &table), Err(expected));

    let mut layer_0 = BackgroundLayer::new();
    let mut layer_1 = BackgroundLayer::new();
    layer_0.set_tile(2, 0, 1234);
    assert_eq!(expand(&map, &table, &mut layer_0, &mut layer_1), Err(expected));
    // nothing was written
    assert_eq!(layer_0.get_tile(2, 0), Some(1234));
    assert_eq!(written_cells(&layer_0), 1);
    assert_eq!(written_cells(&layer_1), 0);

    let later = map_of(2, 2, vec![4, 4, 9, 5]);
    assert_eq!(
        plan_expansion(&later, &table),
        Err(ExpandError::MetaIndexOutOfRange { x: 0, y: 1, meta_index: 9 })
    );
}

#[test]
fn meta_index_needs_all_eight_descriptors() {
    let map = map_of(1, 1, vec![5]);
    let short: MetaTileTable<u16> = MetaTileTable::new((0..47).collect());
    assert_eq!(
        plan_expansion(&map, &short),
        Err(ExpandError::MetaIndexOutOfRange { x: 0, y: 0, meta_index: 5 })
    );
    let exact: MetaTileTable<u16> = MetaTileTable::new((0..48).collect());
    assert_eq!(plan_expansion(&map, &exact).map(|w| w.len()), Ok(8));

    let largest = map_of(1, 1, vec![65535]);
    assert_eq!(
        plan_expansion(&largest, &exact),
        Err(ExpandError::MetaIndexOutOfRange { x: 0, y: 0, meta_index: 65535 })
    );
}

#[test]
fn meta_index_out_of_range_outside_the_visited_cells_is_harmless() {
    let table = counting_table(1);
    let mut indices = vec![0u16; 70 * 70];
    indices[64] = 7; // column 64 of row 0
    indices[64 * 70] = 7; // row 64
    indices[70 * 70 - 1] = 7;
    let map = map_of(70, 70, indices);
    assert_eq!(plan_expansion(&map, &table).map(|w| w.len()), Ok(64 * 64 * 8));
}

#[test]
fn empty_map_writes_nothing() {
    let table: MetaTileTable<u16> = MetaTileTable::new(Vec::new());
    for &(width, height) in &[(0u16, 0u16), (0, 9), (9, 0)] {
        let map = map_of(width, height, Vec::new());
        assert_eq!(plan_expansion(&map, &table), Ok(Vec::new()));
        let mut layer_0 = BackgroundLayer::new();
        let mut layer_1 = BackgroundLayer::new();
        assert_eq!(expand(&map, &table, &mut layer_0, &mut layer_1), Ok(()));
        assert_eq!(written_cells(&layer_0), 0);
        assert_eq!(written_cells(&layer_1), 0);
    }
}

#[test]
fn sixteen_columns_fit_a_layer_without_overlap() {
    let width = 16u16;
    let height = 64u16;
    let indices: Vec<u16> = (0..width * height).collect();
    let map = map_of(width, height, indices);
    let table = counting_table(width * height);
    let mut layer_0 = BackgroundLayer::new();
    let mut layer_1 = BackgroundLayer::new();
    assert_eq!(expand(&map, &table, &mut layer_0, &mut layer_1), Ok(()));
    for y in 0..height {
        for x in 0..width {
            let layer = if y % 2 == 0 { &layer_0 } else { &layer_1 };
            let base = x * 4 + if y % 2 == 0 { 2 } else { 0 };
            for k in 0..8u16 {
                assert_eq!(
                    layer.get_tile(base + k % 4, y + k / 4),
                    Some((x + y * width) * 8 + k)
                );
            }
        }
    }
    // the last block of an even row ends in columns 64 and 65: columns 0 and 1
    assert_eq!(layer_0.get_tile(0, 0), Some(15 * 8 + 2));
    assert_eq!(layer_0.get_tile(1, 1), Some(15 * 8 + 7));
    // the lower half of row 63 goes to row 64: row 0 of layer 1
    assert_eq!(layer_1.get_tile(0, 0), Some(63 * 16 * 8 + 4));
    assert_eq!(written_cells(&layer_0), 64 * 64);
    assert_eq!(written_cells(&layer_1), 64 * 64);
}

#[test]
fn seventeenth_column_lands_on_the_first() {
    let map = map_of(17, 1, (0..17).collect());
    let table = counting_table(17);
    let writes = plan_expansion(&map, &table).expect("covered");
    // the write is made at column 66 ...
    assert_eq!(writes[16 * 8], write(TargetLayer::Layer0, 66, 0, 128));
    let mut layer_0 = BackgroundLayer::new();
    let mut layer_1 = BackgroundLayer::new();
    assert_eq!(expand(&map, &table, &mut layer_0, &mut layer_1), Ok(()));
    // ... which is column 2 of the layer, where the block of column 0 stood
    assert_eq!(layer_0.get_tile(2, 0), Some(128));
    assert_eq!(layer_0.get_tile(5, 1), Some(135));
    assert_eq!(layer_0.get_tile(66, 0), Some(128));
    assert_eq!(layer_0.get_tile(6, 0), Some(8));
    assert_eq!(written_cells(&layer_0), 16 * 8);
    assert_eq!(written_cells(&layer_1), 0);
}

#[derive(Clone, Copy, Debug, PartialEq, Eq)]
struct Descriptor {
    tile: u16,
    hflip: bool,
    vflip: bool,
    palette: u8,
}

#[test]
fn descriptors_are_copied_as_they_are() {
    let descriptors: Vec<Descriptor> = (0..16u16)
        .map(|i| Descriptor { tile: 500 + i, hflip: i % 2 == 0, vflip: i % 3 == 0, palette: (i % 16) as u8 })
        .collect();
    let table = MetaTileTable::new(descriptors.clone());
    let map = map_of(1, 2, vec![1, 0]);
    let writes = plan_expansion(&map, &table).expect("covered");
    assert_eq!(writes.len(), 16);
    for k in 0..8 {
        assert_eq!(writes[k].descriptor, descriptors[8 + k]);
        assert_eq!(writes[8 + k].descriptor, descriptors[k]);
    }
    let mut layer_0 = BackgroundLayer::new();
    let mut layer_1 = BackgroundLayer::new();
    assert_eq!(expand(&map, &table, &mut layer_0, &mut layer_1), Ok(()));
    assert_eq!(layer_0.get_tile(2, 0), Some(descriptors[8]));
    assert_eq!(layer_0.get_tile(5, 1), Some(descriptors[15]));
    assert_eq!(layer_1.get_tile(0, 1), Some(descriptors[0]));
    assert_eq!(layer_1.get_tile(3, 2), Some(descriptors[7]));
}
