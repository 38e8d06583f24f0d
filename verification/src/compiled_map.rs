//! The compiled map: the artifact that the expander consumes.

use vstd::prelude::*;
use crate::grid::GridModel;

verus! {

/// A grid of 16-bit meta-tile indices in row-major order, together with its
/// width and height. A compiled map is never changed once it is built.
pub struct CompiledMap {
    width: u16,
    height: u16,
    indices: Vec<u16>,
}

impl View for CompiledMap {
    type V = GridModel<u16>;

    closed spec fn view(&self) -> GridModel<u16> {
        GridModel { width: self.width as nat, height: self.height as nat, cells: self.indices@ }
    }
}

impl CompiledMap {
    /// The map holds one index per cell and its dimensions fit in 16 bits.
    pub open spec fn well_formed(&self) -> bool {
        &&& self@.well_formed()
        &&& self@.width <= u16::MAX
        &&& self@.height <= u16::MAX
    }

    /// Builds a compiled map from its dimensions and its indices in row-major
    /// order.
    ///
    /// Returns `None` exactly when the number of indices is not
    /// `width * height`.
    pub fn new(width: u16, height: u16, indices: Vec<u16>) -> (map: Option<CompiledMap>)
        ensures
            map is Some <==> indices@.len() == width * height,
            map matches Some(m) ==> m.well_formed() && m@ == (GridModel {
                width: width as nat,
                height: height as nat,
                cells: indices@,
            }),
    {
        assert(width * height <= 0xffff * 0xffff) by (nonlinear_arith)
            requires
                width <= 0xffff,
                height <= 0xffff,
        ;
        let expected: usize = (width as usize) * (height as usize);
        if indices.len() != expected {
            return None;
        }
        Some(CompiledMap::from_parts(width, height, indices))
    }

    /// Builds a compiled map from parts that are known to fit together.
    pub(crate) fn from_parts(width: u16, height: u16, indices: Vec<u16>) -> (map: CompiledMap)
        requires
            indices@.len() == width * height,
        ensures
            map.well_formed(),
            map@ == (GridModel { width: width as nat, height: height as nat, cells: indices@ }),
    {
        CompiledMap { width, height, indices }
    }

    /// Number of columns.
    pub fn width(&self) -> (w: u16)
        ensures
            w == self@.width,
    {
        self.width
    }

    /// Number of rows.
    pub fn height(&self) -> (h: u16)
        ensures
            h == self@.height,
    {
        self.height
    }

    /// The indices of all cells, row by row.
    pub fn indices(&self) -> (indices: &Vec<u16>)
        ensures
            indices@ == self@.cells,
    {
        &self.indices
    }

    /// The meta-tile index of cell `(x, y)`, found at position
    /// `x + y * width`.
    pub fn meta_index(&self, x: u16, y: u16) -> (index: u16)
        requires
            self.well_formed(),
            self@.contains(x as int, y as int),
        ensures
            index == self@.at(x as int, y as int),
    {
        proof {
            crate::grid::lemma_offset_in_bounds(
                self.width as nat,
                self.height as nat,
                x as int,
                y as int,
            );
            assert(self.width * self.height <= 0xffff * 0xffff) by (nonlinear_arith)
                requires
                    self.width <= 0xffff,
                    self.height <= 0xffff,
            ;
        }
        let offset: usize = (x as usize) + (y as usize) * (self.width as usize);
        self.indices[offset]
    }
}

} // verus!
