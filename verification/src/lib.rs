//! Meta-tile maps for tile-based 2D displays.
//!
//! A level is authored as a rectangular grid of logical cells, each naming a
//! meta-tile: a block of four by two hardware tiles. This library holds the
//! two stages that bring such a level to the screen.
//!
//! * The [`compiler`] turns a [`source_grid::SourceGrid`] into a
//!   [`compiled_map::CompiledMap`]: a row-major array of 16-bit meta-tile
//!   indices with its width and height.
//! * The [`expander`] walks a compiled map, looks every meta-tile up in a
//!   [`meta_tile_table::MetaTileTable`] and writes its eight tile descriptors
//!   into one of two [`layer::BackgroundLayer`]s, chosen by row parity.
//!   [`presenter`] gives the order in which the layers are then shown.
//!
//! Every function is verified against a contract over the mathematical models
//! of [`grid`] and [`expansion`]; [`theorems`] proves what holds of every
//! compilation and every expansion. The placement rules and the hardware's
//! sizes are in [`geometry`].

pub mod geometry;
pub mod grid;
pub mod source_grid;
pub mod compiled_map;
pub mod compiler;
pub mod meta_tile_table;
pub mod layer;
pub mod expansion;
pub mod expander;
pub mod presenter;
pub mod theorems;
