//! The meta-tile table: eight tile descriptors for every meta-tile index.

use vstd::prelude::*;
use vstd::slice::slice_subrange;
use crate::geometry::TILES_PER_META_TILE;

verus! {

/// The table holds all eight descriptors of meta-tile `meta_index`.
pub open spec fn holds_meta_tile<D>(table: Seq<D>, meta_index: int) -> bool {
    0 <= meta_index && meta_index * 8 + 8 <= table.len()
}

/// The eight descriptors of meta-tile `meta_index`: the elements
/// `meta_index * 8 .. meta_index * 8 + 8` of the table.
pub open spec fn meta_tile<D>(table: Seq<D>, meta_index: int) -> Seq<D> {
    table.subrange(meta_index * 8, meta_index * 8 + 8)
}

/// An immutable sequence of tile descriptors of type `D`, read in groups of
/// eight: one group per meta-tile index. The library never looks inside a
/// descriptor; it only copies it to where it belongs.
pub struct MetaTileTable<D> {
    descriptors: Vec<D>,
}

impl<D> View for MetaTileTable<D> {
    type V = Seq<D>;

    closed spec fn view(&self) -> Seq<D> {
        self.descriptors@
    }
}

impl<D> MetaTileTable<D> {
    /// Wraps the descriptors of all meta-tiles, in index order.
    pub fn new(descriptors: Vec<D>) -> (table: Self)
        ensures
            table@ == descriptors@,
    {
        MetaTileTable { descriptors }
    }

    /// Number of descriptors in the table.
    pub fn len(&self) -> (n: usize)
        ensures
            n == self@.len(),
    {
        self.descriptors.len()
    }

    /// Number of meta-tiles that the table holds in full.
    pub fn meta_tile_count(&self) -> (n: usize)
        ensures
            n == self@.len() / 8,
            forall|meta_index: int|
                0 <= meta_index < n <==> #[trigger] holds_meta_tile(self@, meta_index),
    {
        self.descriptors.len() / TILES_PER_META_TILE
    }
}

/// Looks up the eight descriptors of a meta-tile.
///
/// Returns `None` exactly when the table is too short to hold all eight
/// descriptors of `meta_index`.
pub fn get_meta_tile<'a, D>(meta_index: u16, tile_data: &'a MetaTileTable<D>) -> (settings: Option<
    &'a [D],
>)
    ensures
        settings is Some <==> holds_meta_tile(tile_data@, meta_index as int),
        settings matches Some(s) ==> s@ == meta_tile(tile_data@, meta_index as int),
{
    let real_index: usize = (meta_index as usize) * TILES_PER_META_TILE;
    if tile_data.descriptors.len() < TILES_PER_META_TILE || real_index
        > tile_data.descriptors.len() - TILES_PER_META_TILE {
        return None;
    }
    Some(slice_subrange(tile_data.descriptors.as_slice(), real_index, real_index + 8))
}

} // verus!
