//! Marching squares on a rectangular grid of samples.
//!
//! An [`IsoField`] holds the samples. [`IsoField::sample_all`] lists its
//! cells, [`IsoSamples::triangulate`] classifies every cell against a level
//! and lists the corners of the triangles of its case, and [`build_mesh`]
//! welds a stream of vertices into an indexed mesh in which vertices with
//! equal coordinates are shared.
//!
//! Sample values and coordinates are held as the bit patterns of
//! single-precision numbers throughout. The crate compares such patterns
//! but does no arithmetic on them: between [`IsoSamples::triangulate`] and
//! [`build_mesh`] the caller scales each corner to where it lies in the
//! world.

pub mod binary32;
pub mod case_table;
pub mod config;
pub mod contour;
pub mod dedup;
pub mod field;
pub mod mesh;
pub mod sample;
pub mod triangulate;

pub use case_table::{tri_index_to_vertex, CASE_TABLE};
pub use config::{ChunkSize, IsoDistance, IsoLevel};
pub use dedup::HashAbleVec2;
pub use field::{FieldError, IsoField};
pub use mesh::{build_mesh, MeshBuffers};
pub use sample::IsoSample;
pub use triangulate::{CellVertex, IsoSamples};
