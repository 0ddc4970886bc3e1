//! The vertex grid: its dimensions, the sizes that follow from them, and its
//! row-major numbering.

use vstd::prelude::*;
use vstd::arithmetic::div_mod::{
    lemma_fundamental_div_mod_converse, lemma_mod_self_0, lemma_small_mod,
};

verus! {

/// The fewest rings a tube can have: one strip of quads needs two of them.
pub const MIN_ROWS: usize = 2;

/// The fewest vertices on a ring: fewer than three enclose no area.
pub const MIN_CORNERS: usize = 3;

/// The dimensions a tube can have: at least two rings of at least three
/// corners each.
pub open spec fn valid_dimensions(rows: int, corners: int) -> bool {
    rows >= MIN_ROWS && corners >= MIN_CORNERS
}

/// Number of vertices of a `rows` by `corners` grid.
pub open spec fn vertex_count(rows: int, corners: int) -> int {
    rows * corners
}

/// Number of triangles between the rings of a `rows` by `corners` grid: two
/// for each of the `corners` quads of each of the `rows - 1` strips.
pub open spec fn triangle_count(rows: int, corners: int) -> int {
    (rows - 1) * corners * 2
}

/// Position of the vertex `(row, corner)` in the row-major vertex buffer.
pub open spec fn flat_index(corners: int, row: int, corner: int) -> int {
    row * corners + corner
}

/// The corner that follows `corner` on its ring; the last one is followed by
/// the first.
pub open spec fn next_corner(corners: int, corner: int) -> int {
    (corner + 1) % corners
}

/// The dimensions a mesh can be built for on this machine: valid ones whose
/// triangle list, the longer of the two buffers, has a length that a `usize`
/// can hold.
pub open spec fn buildable(rows: int, corners: int) -> bool {
    valid_dimensions(rows, corners) && triangle_count(rows, corners) <= usize::MAX
}

/// Why no mesh can be built for a pair of dimensions.
#[derive(Clone, Copy, Debug, PartialEq, Eq, Structural)]
pub enum DimensionError {
    /// Fewer than two rows, or fewer than three corners.
    TooSmall,
    /// The dimensions are valid, but the triangles are more than a `usize`
    /// can count.
    TooLarge,
}

/// Decides whether a mesh can be built for `rows` and `corners`, and if not,
/// why not. Nothing is built.
pub fn check_dimensions(rows: usize, corners: usize) -> (result: Result<(), DimensionError>)
    ensures
        match result {
            Ok(_) => buildable(rows as int, corners as int),
            Err(DimensionError::TooSmall) => !valid_dimensions(rows as int, corners as int),
            Err(DimensionError::TooLarge) => valid_dimensions(rows as int, corners as int)
                && triangle_count(rows as int, corners as int) > usize::MAX,
        },
        result is Ok ==> vertex_count(rows as int, corners as int) <= usize::MAX,
{
    if rows < MIN_ROWS || corners < MIN_CORNERS {
        return Err(DimensionError::TooSmall);
    }
    proof {
        lemma_counts(rows as int, corners as int);
    }
    match (rows - 1).checked_mul(corners) {
        None => Err(DimensionError::TooLarge),
        Some(quads) => match quads.checked_mul(2) {
            None => Err(DimensionError::TooLarge),
            Some(_) => Ok(()),
        },
    }
}

/// Computes the number of vertices of a `rows` by `corners` grid.
pub fn count_vertices(rows: usize, corners: usize) -> (count: usize)
    requires
        vertex_count(rows as int, corners as int) <= usize::MAX,
    ensures
        count == vertex_count(rows as int, corners as int),
{
    rows * corners
}

/// Computes the number of triangles between the rings of a `rows` by
/// `corners` grid.
pub fn count_triangles(rows: usize, corners: usize) -> (count: usize)
    requires
        buildable(rows as int, corners as int),
    ensures
        count == triangle_count(rows as int, corners as int),
{
    proof {
        lemma_counts(rows as int, corners as int);
    }
    (rows - 1) * corners * 2
}

/// A valid grid has at least six vertices, and no more vertices than
/// triangles: the vertex buffer fits wherever the triangle list does. The
/// triangles are twice the quads.
pub proof fn lemma_counts(rows: int, corners: int)
    requires
        valid_dimensions(rows, corners),
    ensures
        6 <= vertex_count(rows, corners) <= triangle_count(rows, corners),
        triangle_count(rows, corners) == 2 * ((rows - 1) * corners),
        (rows - 1) * corners <= triangle_count(rows, corners),
{
    assert(6 <= rows * corners <= (rows - 1) * corners * 2 && (rows - 1) * corners * 2 == 2 * ((rows
        - 1) * corners) && (rows - 1) * corners >= 0) by (nonlinear_arith)
        requires
            rows >= 2,
            corners >= 3,
    ;
}

/// Row-major numbering is one-to-one between the grid and the buffer: the
/// vertex `(row, corner)` has a position inside the buffer, and dividing that
/// position by `corners` gives the row back, with the corner as remainder.
pub proof fn lemma_flat_index(rows: int, corners: int, row: int, corner: int)
    requires
        0 <= row < rows,
        0 <= corner < corners,
    ensures
        0 <= flat_index(corners, row, corner) < vertex_count(rows, corners),
        flat_index(corners, row, corner) / corners == row,
        flat_index(corners, row, corner) % corners == corner,
{
    lemma_fundamental_div_mod_converse(flat_index(corners, row, corner), corners, row, corner);
    assert(0 <= row * corners && row * corners + corners <= rows * corners) by (nonlinear_arith)
        requires
            0 <= row < rows,
            0 < corners,
    ;
}

/// Going round a ring: the next corner is one further, and after the last
/// corner comes the first. It is never the corner itself on a ring of two or
/// more.
pub proof fn lemma_next_corner(corners: int, corner: int)
    requires
        0 <= corner < corners,
    ensures
        0 <= next_corner(corners, corner) < corners,
        corner < corners - 1 ==> next_corner(corners, corner) == corner + 1,
        corner == corners - 1 ==> next_corner(corners, corner) == 0,
        corners >= 2 ==> next_corner(corners, corner) != corner,
{
    if corner < corners - 1 {
        lemma_small_mod((corner + 1) as nat, corners as nat);
    } else {
        lemma_mod_self_0(corners);
    }
}

} // verus!
