//! Meshing of a cubic voxel chunk into unit quads by per-column face bitmasks.

pub mod bits;
pub mod face;
pub mod grid;
pub mod indices;
pub mod mask;
pub mod mesh;
pub mod model;
pub mod quad;

pub use face::face_value;
pub use grid::{get_axis_index, pad_linearize, CS, CS_2, CS_P, CS_P2, CS_P3};
pub use indices::indices;
pub use mesh::{mesh, MeshBuffers, MeshData};
pub use quad::{PackedQuad, Quad};
