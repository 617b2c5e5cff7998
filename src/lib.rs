//! A fixed-size voxel volume with boolean composition and surface mesh
//! extraction.
//!
//! - `voxels`: the volume, point reads and the paint, union and difference
//!   operations.
//! - `algebra`: laws of union and difference.
//! - `document`: layers and their composite.
//! - `mesh`: extraction of a vertex and triangle-index mesh from a volume.
//! - `tools`, `scissor`: editor tool descriptions and clip rectangles.

pub mod algebra;
pub mod document;
pub mod mesh;
pub mod scissor;
pub mod tools;
pub mod voxels;
