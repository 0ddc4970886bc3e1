//! Mesh data for an open-ended cylindrical tube.
//!
//! The tube is described by a grid of vertices, `rows` rings along the axis
//! with `corners` vertices on each ring, and by a list of triangles that
//! covers every quad between two neighbouring rings. Both are computed from
//! the two grid dimensions alone, and every function and law in this crate is
//! stated over integers: a vertex is named by its ring and by its place on the
//! ring, and a caller turns that into coordinates.

pub mod grid;
pub mod indices;
pub mod mesh;
pub mod vertices;
