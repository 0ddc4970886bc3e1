//! The mesh as a whole: both buffers built together, and what the triangle
//! list says once its indices are looked up in the vertex buffer.

use vstd::prelude::*;
use crate::grid::{
    buildable, check_dimensions, flat_index, lemma_next_corner, next_corner, triangle_count,
    valid_dimensions, vertex_count, DimensionError,
};
use crate::indices::{
    generate_indices, index_list, lemma_quad_triangles, within, Triangle, TriangleModel,
};
use crate::vertices::{generate_vertices, lemma_vertex_position, vertex_grid, GridPoint, GridVertex};

verus! {

/// The two buffers of a tube: its vertices in row-major order, and the
/// triangles of its lateral surface as positions in the vertex buffer.
#[derive(Debug, PartialEq, Eq)]
pub struct Mesh {
    pub vertices: Vec<GridVertex>,
    pub triangles: Vec<Triangle>,
}

impl Mesh {
    /// `self` is the mesh of the `rows` by `corners` grid.
    pub open spec fn is_tube(&self, rows: int, corners: int) -> bool {
        &&& self.vertices.deep_view() == vertex_grid(rows, corners)
        &&& self.triangles.deep_view() == index_list(rows, corners)
    }

    /// No triangle points outside the vertex buffer.
    pub open spec fn closed(&self) -> bool {
        forall|k: int|
            0 <= k < self.triangles.len() ==> {
                &&& (#[trigger] self.triangles[k]).a < self.vertices.len()
                &&& self.triangles[k].b < self.vertices.len()
                &&& self.triangles[k].c < self.vertices.len()
            }
    }
}

/// Builds the mesh of a `rows` by `corners` grid, or says why there is none.
/// The dimensions are checked before anything is built: the result is either
/// the whole mesh or an error.
pub fn generate_mesh(rows: usize, corners: usize) -> (result: Result<Mesh, DimensionError>)
    ensures
        match result {
            Ok(mesh) => {
                &&& buildable(rows as int, corners as int)
                &&& mesh.is_tube(rows as int, corners as int)
                &&& mesh.vertices.len() == vertex_count(rows as int, corners as int)
                &&& mesh.triangles.len() == triangle_count(rows as int, corners as int)
                &&& mesh.closed()
            },
            Err(DimensionError::TooSmall) => !valid_dimensions(rows as int, corners as int),
            Err(DimensionError::TooLarge) => valid_dimensions(rows as int, corners as int)
                && triangle_count(rows as int, corners as int) > usize::MAX,
        },
{
    match check_dimensions(rows, corners) {
        Err(e) => Err(e),
        Ok(_) => {
            let vertices = generate_vertices(rows, corners);
            let triangles = generate_indices(rows, corners);
            let mesh = Mesh { vertices, triangles };
            proof {
                assert forall|k: int| 0 <= k < mesh.triangles.len() implies {
                    &&& (#[trigger] mesh.triangles[k]).a < mesh.vertices.len()
                    &&& mesh.triangles[k].b < mesh.vertices.len()
                    &&& mesh.triangles[k].c < mesh.vertices.len()
                } by {
                    assert(within(
                        mesh.triangles[k]@,
                        vertex_count(rows as int, corners as int),
                    ));
                }
            }
            Ok(mesh)
        },
    }
}

/// Each quad between two neighbouring rings is covered by the two triangles
/// that the list holds for it, and both run the same way round it. With
/// `next` the corner after `corner` on the ring, the first triangle goes from
/// `(row, corner)` to `(row, next)` to `(row + 1, next)`, and the second from
/// `(row, corner)` to `(row + 1, next)` to `(row + 1, corner)`: they share the
/// diagonal, and no vertex of theirs lies on a third ring. At the last corner
/// of a ring `next` is its first corner, so the surface is closed around the
/// axis; no quad joins the last ring to the first, so it is open at both
/// ends.
pub proof fn lemma_quad_cover(rows: int, corners: int, row: int, corner: int)
    requires
        0 <= row < rows - 1,
        0 <= corner < corners,
    ensures
        ({
            let grid: Seq<GridPoint> = vertex_grid(rows, corners);
            let k: int = 2 * flat_index(corners, row, corner);
            let first: TriangleModel = index_list(rows, corners)[k];
            let second: TriangleModel = index_list(rows, corners)[k + 1];
            let next: int = next_corner(corners, corner);
            &&& grid[first.a] == (GridPoint { row, corner })
            &&& grid[first.b] == (GridPoint { row, corner: next })
            &&& grid[first.c] == (GridPoint { row: row + 1, corner: next })
            &&& grid[second.a] == (GridPoint { row, corner })
            &&& grid[second.b] == (GridPoint { row: row + 1, corner: next })
            &&& grid[second.c] == (GridPoint { row: row + 1, corner })
        }),
{
    lemma_quad_triangles(rows, corners, row, corner);
    lemma_next_corner(corners, corner);
    let next: int = next_corner(corners, corner);
    lemma_vertex_position(rows, corners, row, corner);
    lemma_vertex_position(rows, corners, row, next);
    lemma_vertex_position(rows, corners, row + 1, next);
    lemma_vertex_position(rows, corners, row + 1, corner);
}

} // verus!
