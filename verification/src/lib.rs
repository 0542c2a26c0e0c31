//! Core of a Conway's Game of Life simulator.
//!
//! The crate provides the simulation engine only: a bounds-checked
//! two-dimensional grid of cell values, neighbor counting clipped at the
//! grid edges, a loader that turns a textual pattern description into an
//! initial grid plus run parameters, and the step transition that advances
//! the simulation by one generation. Rendering, window handling and file
//! reading are left to callers, which drive the engine through its public
//! methods.

pub mod conway_engine;
pub mod grid;
pub mod text;

pub use grid::Grid;
