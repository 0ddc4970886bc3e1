//! The triangle list of the tube's lateral surface.

use vstd::prelude::*;
use crate::grid::{
    buildable, count_triangles, flat_index, lemma_counts, lemma_flat_index, lemma_next_corner,
    next_corner, triangle_count, vertex_count,
};

verus! {

/// One triangular face: three positions in the row-major vertex buffer, in
/// winding order.
#[derive(Clone, Copy, Debug, PartialEq, Eq, Structural)]
pub struct Triangle {
    pub a: usize,
    pub b: usize,
    pub c: usize,
}

/// A triangle over unbounded integers.
pub struct TriangleModel {
    pub a: int,
    pub b: int,
    pub c: int,
}

impl View for Triangle {
    type V = TriangleModel;

    open spec fn view(&self) -> TriangleModel {
        TriangleModel { a: self.a as int, b: self.b as int, c: self.c as int }
    }
}

impl DeepView for Triangle {
    type V = TriangleModel;

    open spec fn deep_view(&self) -> TriangleModel {
        self@
    }
}

/// First half of the quad whose near corner is `(row, corner)`: the near
/// corner, its neighbour on the same ring, and that neighbour's counterpart
/// on the next ring.
pub open spec fn first_triangle(corners: int, row: int, corner: int) -> TriangleModel {
    let next: int = next_corner(corners, corner);
    TriangleModel {
        a: flat_index(corners, row, corner),
        b: flat_index(corners, row, next),
        c: flat_index(corners, row + 1, next),
    }
}

/// Second half of the same quad: the near corner, the far corner, and the
/// near corner's counterpart on the next ring.
pub open spec fn second_triangle(corners: int, row: int, corner: int) -> TriangleModel {
    let next: int = next_corner(corners, corner);
    TriangleModel {
        a: flat_index(corners, row, corner),
        b: flat_index(corners, row + 1, next),
        c: flat_index(corners, row + 1, corner),
    }
}

/// The triangle at position `k` of the list: quads are taken ring by ring and
/// corner by corner, and each contributes its first half, then its second.
pub open spec fn triangle_at(corners: int, k: int) -> TriangleModel {
    let quad: int = k / 2;
    if k % 2 == 0 {
        first_triangle(corners, quad / corners, quad % corners)
    } else {
        second_triangle(corners, quad / corners, quad % corners)
    }
}

/// The whole triangle list of a `rows` by `corners` grid.
pub open spec fn index_list(rows: int, corners: int) -> Seq<TriangleModel> {
    Seq::new(triangle_count(rows, corners) as nat, |k: int| triangle_at(corners, k))
}

/// All three vertices of `t` are positions below `bound`.
pub open spec fn within(t: TriangleModel, bound: int) -> bool {
    &&& 0 <= t.a < bound
    &&& 0 <= t.b < bound
    &&& 0 <= t.c < bound
}

/// Builds the triangle list of a `rows` by `corners` grid: for every quad
/// between two neighbouring rings, ring by ring and corner by corner, its two
/// halves.
pub fn generate_indices(rows: usize, corners: usize) -> (tris: Vec<Triangle>)
    requires
        buildable(rows as int, corners as int),
    ensures
        tris.deep_view() == index_list(rows as int, corners as int),
        tris.len() == triangle_count(rows as int, corners as int),
        forall|k: int|
            0 <= k < tris.len() ==> within(
                #[trigger] tris[k]@,
                vertex_count(rows as int, corners as int),
            ),
{
    let mut tris: Vec<Triangle> = Vec::with_capacity(count_triangles(rows, corners));
    let mut row: usize = 0;
    while row < rows - 1
        invariant
            buildable(rows as int, corners as int),
            row <= rows - 1,
            tris.len() == 2 * flat_index(corners as int, row as int, 0),
            forall|k: int|
                0 <= k < tris.len() ==> {
                    &&& (#[trigger] tris[k])@ == triangle_at(corners as int, k)
                    &&& within(tris[k]@, vertex_count(rows as int, corners as int))
                },
        decreases rows - 1 - row,
    {
        let mut corner: usize = 0;
        while corner < corners
            invariant
                buildable(rows as int, corners as int),
                row < rows - 1,
                corner <= corners,
                tris.len() == 2 * flat_index(corners as int, row as int, corner as int),
                forall|k: int|
                    0 <= k < tris.len() ==> {
                        &&& (#[trigger] tris[k])@ == triangle_at(corners as int, k)
                        &&& within(tris[k]@, vertex_count(rows as int, corners as int))
                    },
            decreases corners - corner,
        {
            proof {
                lemma_counts(rows as int, corners as int);
                lemma_flat_index(rows as int, corners as int, row as int, corner as int);
                lemma_triangles_by_offset(corners as int, row as int, corner as int);
                assert(0 <= row * corners && row * corners + 2 * corners <= rows * corners)
                    by (nonlinear_arith)
                    requires
                        0 <= row,
                        row + 2 <= rows,
                        0 < corners,
                ;
            }
            let base: usize = row * corners + corner;
            if corner < corners - 1 {
                tris.push(Triangle { a: base, b: base + 1, c: base + corners + 1 });
                tris.push(Triangle { a: base, b: base + corners + 1, c: base + corners });
            } else {
                tris.push(Triangle { a: base, b: base + 1 - corners, c: base + 1 });
                tris.push(Triangle { a: base, b: base + 1, c: base + corners });
            }
            corner += 1;
        }
        proof {
            assert((row + 1) * corners == row * corners + corners) by (nonlinear_arith);
        }
        row += 1;
    }
    proof {
        lemma_counts(rows as int, corners as int);
        assert(tris.deep_view() =~= index_list(rows as int, corners as int));
    }
    tris
}

/// The two halves of a quad, written as offsets from the position `base` of
/// its near corner. Inside a ring the neighbour is `base + 1`; at the last
/// corner the ring closes on its own first vertex, `base + 1 - corners`, and
/// `base + 1` is already the first vertex of the next ring.
pub proof fn lemma_triangles_by_offset(corners: int, row: int, corner: int)
    requires
        0 <= corner < corners,
    ensures
        ({
            let base: int = flat_index(corners, row, corner);
            if corner < corners - 1 {
                &&& first_triangle(corners, row, corner) == (TriangleModel {
                    a: base,
                    b: base + 1,
                    c: base + corners + 1,
                })
                &&& second_triangle(corners, row, corner) == (TriangleModel {
                    a: base,
                    b: base + corners + 1,
                    c: base + corners,
                })
            } else {
                &&& first_triangle(corners, row, corner) == (TriangleModel {
                    a: base,
                    b: base + 1 - corners,
                    c: base + 1,
                })
                &&& second_triangle(corners, row, corner) == (TriangleModel {
                    a: base,
                    b: base + 1,
                    c: base + corners,
                })
            }
        }),
{
    lemma_next_corner(corners, corner);
    assert((row + 1) * corners == row * corners + corners) by (nonlinear_arith);
}

/// Where a quad's triangles stand in the list: the quad with near corner
/// `(row, corner)` fills the two places from `2 * (row * corners + corner)`
/// with its first half and then its second.
pub proof fn lemma_quad_triangles(rows: int, corners: int, row: int, corner: int)
    requires
        0 <= row < rows - 1,
        0 <= corner < corners,
    ensures
        ({
            let k: int = 2 * flat_index(corners, row, corner);
            &&& 0 <= k
            &&& k + 1 < triangle_count(rows, corners)
            &&& index_list(rows, corners)[k] == first_triangle(corners, row, corner)
            &&& index_list(rows, corners)[k + 1] == second_triangle(corners, row, corner)
        }),
{
    lemma_flat_index(rows - 1, corners, row, corner);
    assert((rows - 1) * corners * 2 == 2 * ((rows - 1) * corners)) by (nonlinear_arith);
}

/// Every position of the list holds a half of exactly one quad: the one whose
/// near corner is `(k / 2 / corners, k / 2 % corners)`, a corner of a ring
/// that has a successor.
pub proof fn lemma_triangle_quad(rows: int, corners: int, k: int)
    requires
        0 < corners,
        0 <= k < triangle_count(rows, corners),
    ensures
        ({
            let row: int = k / 2 / corners;
            let corner: int = k / 2 % corners;
            &&& 0 <= row < rows - 1
            &&& 0 <= corner < corners
            &&& k / 2 == flat_index(corners, row, corner)
            &&& index_list(rows, corners)[k] == if k % 2 == 0 {
                first_triangle(corners, row, corner)
            } else {
                second_triangle(corners, row, corner)
            }
        }),
{
    let quad: int = k / 2;
    let row: int = quad / corners;
    assert((rows - 1) * corners * 2 == 2 * ((rows - 1) * corners)) by (nonlinear_arith);
    assert(quad == corners * (quad / corners) + quad % corners && 0 <= quad % corners < corners)
        by (nonlinear_arith)
        requires
            0 < corners,
    ;
    assert(0 <= row < rows - 1) by (nonlinear_arith)
        requires
            0 < corners,
            0 <= quad < (rows - 1) * corners,
            quad == corners * row + quad % corners,
            0 <= quad % corners < corners,
    ;
    assert(corners * row == row * corners) by (nonlinear_arith);
}

/// Every index of the list names a vertex of the grid.
pub proof fn lemma_indices_in_range(rows: int, corners: int, k: int)
    requires
        0 < corners,
        0 <= k < triangle_count(rows, corners),
    ensures
        within(index_list(rows, corners)[k], vertex_count(rows, corners)),
{
    lemma_triangle_quad(rows, corners, k);
    let row: int = k / 2 / corners;
    let corner: int = k / 2 % corners;
    lemma_next_corner(corners, corner);
    let next: int = next_corner(corners, corner);
    lemma_flat_index(rows, corners, row, corner);
    lemma_flat_index(rows, corners, row, next);
    lemma_flat_index(rows, corners, row + 1, corner);
    lemma_flat_index(rows, corners, row + 1, next);
}

/// The seam: the quad at the last corner of ring `row` is closed by the first
/// vertex of the same ring, at position `row * corners`, and by the first
/// vertex of the next ring, at `(row + 1) * corners`. No index of its
/// triangles leaves the two rings.
pub proof fn lemma_wrap_closes_ring(rows: int, corners: int, row: int)
    requires
        0 < corners,
        0 <= row < rows - 1,
    ensures
        ({
            let last: int = flat_index(corners, row, corners - 1);
            let list: Seq<TriangleModel> = index_list(rows, corners);
            &&& 2 * last + 1 < list.len()
            &&& list[2 * last] == (TriangleModel {
                a: last,
                b: row * corners,
                c: (row + 1) * corners,
            })
            &&& list[2 * last + 1] == (TriangleModel {
                a: last,
                b: (row + 1) * corners,
                c: (row + 1) * corners + corners - 1,
            })
        }),
{
    lemma_quad_triangles(rows, corners, row, corners - 1);
    lemma_next_corner(corners, corners - 1);
}

/// No triangle is degenerate: its three vertices are three different
/// positions.
pub proof fn lemma_triangles_nondegenerate(rows: int, corners: int, k: int)
    requires
        2 <= corners,
        0 <= k < triangle_count(rows, corners),
    ensures
        ({
            let t: TriangleModel = index_list(rows, corners)[k];
            t.a != t.b && t.b != t.c && t.a != t.c
        }),
{
    lemma_triangle_quad(rows, corners, k);
    let row: int = k / 2 / corners;
    let corner: int = k / 2 % corners;
    lemma_next_corner(corners, corner);
    assert((row + 1) * corners == row * corners + corners) by (nonlinear_arith);
}

/// Building is a function of the dimensions: two lists built for the same
/// grid hold the same triangles in the same order.
pub proof fn lemma_indices_deterministic(
    rows: int,
    corners: int,
    first: Vec<Triangle>,
    second: Vec<Triangle>,
)
    requires
        first.deep_view() == index_list(rows, corners),
        second.deep_view() == index_list(rows, corners),
    ensures
        first@ == second@,
{
    assert(first@.len() == first.deep_view().len());
    assert(second@.len() == second.deep_view().len());
    assert forall|k: int| 0 <= k < first@.len() implies first@[k] == second@[k] by {
        assert(first@[k]@ == first.deep_view()[k]);
        assert(second@[k]@ == second.deep_view()[k]);
    }
    assert(first@ =~= second@);
}

} // verus!
