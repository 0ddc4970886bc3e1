//! The vertices of the tube, each named by its place in the grid.

use vstd::prelude::*;
use crate::grid::{count_vertices, flat_index, lemma_flat_index, valid_dimensions, vertex_count};

verus! {

/// One vertex of the tube: the ring it lies on, counted along the axis, and
/// its place on that ring, counted around the axis. In a grid with `corners`
/// corners and rings `segment_length` apart, the vertex `(row, corner)` lies
/// `row * segment_length` along the axis, on the unit circle around it, at
/// the fraction `corner / corners` of a full turn.
#[derive(Clone, Copy, Debug, PartialEq, Eq, Structural)]
pub struct GridVertex {
    pub row: usize,
    pub corner: usize,
}

/// A grid position over unbounded integers.
pub struct GridPoint {
    pub row: int,
    pub corner: int,
}

impl View for GridVertex {
    type V = GridPoint;

    open spec fn view(&self) -> GridPoint {
        GridPoint { row: self.row as int, corner: self.corner as int }
    }
}

impl DeepView for GridVertex {
    type V = GridPoint;

    open spec fn deep_view(&self) -> GridPoint {
        self@
    }
}

/// The vertex at position `i` of a row-major buffer with `corners` corners
/// to a ring.
pub open spec fn vertex_at(corners: int, i: int) -> GridPoint {
    GridPoint { row: i / corners, corner: i % corners }
}

/// The vertex buffer of a `rows` by `corners` grid: ring after ring, and
/// within a ring corner after corner.
pub open spec fn vertex_grid(rows: int, corners: int) -> Seq<GridPoint> {
    Seq::new(vertex_count(rows, corners) as nat, |i: int| vertex_at(corners, i))
}

/// `p` names a vertex of a `rows` by `corners` grid.
pub open spec fn on_grid(p: GridPoint, rows: int, corners: int) -> bool {
    &&& 0 <= p.row < rows
    &&& 0 <= p.corner < corners
}

/// Builds the vertex buffer of a `rows` by `corners` grid in row-major order.
pub fn generate_vertices(rows: usize, corners: usize) -> (grid: Vec<GridVertex>)
    requires
        valid_dimensions(rows as int, corners as int),
        vertex_count(rows as int, corners as int) <= usize::MAX,
    ensures
        grid.deep_view() == vertex_grid(rows as int, corners as int),
        grid.len() == vertex_count(rows as int, corners as int),
        forall|i: int|
            0 <= i < grid.len() ==> on_grid(#[trigger] grid[i]@, rows as int, corners as int),
{
    let mut grid: Vec<GridVertex> = Vec::with_capacity(count_vertices(rows, corners));
    let mut row: usize = 0;
    while row < rows
        invariant
            row <= rows,
            grid.len() == flat_index(corners as int, row as int, 0),
            forall|i: int|
                0 <= i < grid.len() ==> {
                    &&& (#[trigger] grid[i])@ == vertex_at(corners as int, i)
                    &&& on_grid(grid[i]@, rows as int, corners as int)
                },
        decreases rows - row,
    {
        let mut corner: usize = 0;
        while corner < corners
            invariant
                row < rows,
                corner <= corners,
                grid.len() == flat_index(corners as int, row as int, corner as int),
                forall|i: int|
                    0 <= i < grid.len() ==> {
                        &&& (#[trigger] grid[i])@ == vertex_at(corners as int, i)
                        &&& on_grid(grid[i]@, rows as int, corners as int)
                    },
            decreases corners - corner,
        {
            proof {
                lemma_flat_index(rows as int, corners as int, row as int, corner as int);
            }
            grid.push(GridVertex { row, corner });
            corner += 1;
        }
        proof {
            assert((row + 1) * corners == row * corners + corners) by (nonlinear_arith);
        }
        row += 1;
    }
    proof {
        assert(grid.deep_view() =~= vertex_grid(rows as int, corners as int));
    }
    grid
}

/// The buffer is the grid in row-major order: the vertex `(row, corner)`
/// stands at position `row * corners + corner`, inside the buffer.
pub proof fn lemma_vertex_position(rows: int, corners: int, row: int, corner: int)
    requires
        0 <= row < rows,
        0 <= corner < corners,
    ensures
        0 <= flat_index(corners, row, corner) < vertex_grid(rows, corners).len(),
        vertex_grid(rows, corners)[flat_index(corners, row, corner)] == (GridPoint { row, corner }),
{
    lemma_flat_index(rows, corners, row, corner);
}

/// Every position of the buffer holds a vertex of the grid, and it is the
/// position of that vertex.
pub proof fn lemma_vertex_on_grid(rows: int, corners: int, i: int)
    requires
        0 < corners,
        0 <= i < vertex_count(rows, corners),
    ensures
        on_grid(vertex_grid(rows, corners)[i], rows, corners),
        flat_index(corners, vertex_grid(rows, corners)[i].row, vertex_grid(rows, corners)[i].corner)
            == i,
{
    let row: int = i / corners;
    assert(i == corners * (i / corners) + i % corners && 0 <= i % corners < corners)
        by (nonlinear_arith)
        requires
            0 < corners,
    ;
    assert(0 <= row < rows) by (nonlinear_arith)
        requires
            0 < corners,
            0 <= i < rows * corners,
            i == corners * row + i % corners,
            0 <= i % corners < corners,
    ;
    assert(corners * row == row * corners) by (nonlinear_arith);
}

/// Rings follow each other along the axis: a vertex of a later ring lies
/// exactly as many segments further along as its ring is later, wherever the
/// two vertices stand on their rings, and two vertices at the same corner of
/// different rings differ in nothing else.
pub proof fn lemma_rows_advance(
    rows: int,
    corners: int,
    row1: int,
    corner1: int,
    row2: int,
    corner2: int,
)
    requires
        0 <= row1 < row2 < rows,
        0 <= corner1 < corners,
        0 <= corner2 < corners,
    ensures
        ({
            let near: GridPoint = vertex_grid(rows, corners)[flat_index(corners, row1, corner1)];
            let far: GridPoint = vertex_grid(rows, corners)[flat_index(corners, row2, corner2)];
            &&& far.row - near.row == row2 - row1
            &&& far.row > near.row
            &&& corner1 == corner2 ==> far.corner == near.corner
        }),
{
    lemma_vertex_position(rows, corners, row1, corner1);
    lemma_vertex_position(rows, corners, row2, corner2);
}

/// Building is a function of the dimensions: two buffers built for the same
/// grid hold the same vertices in the same order.
pub proof fn lemma_vertices_deterministic(
    rows: int,
    corners: int,
    first: Vec<GridVertex>,
    second: Vec<GridVertex>,
)
    requires
        first.deep_view() == vertex_grid(rows, corners),
        second.deep_view() == vertex_grid(rows, corners),
    ensures
        first@ == second@,
{
    assert(first@.len() == first.deep_view().len());
    assert(second@.len() == second.deep_view().len());
    assert forall|i: int| 0 <= i < first@.len() implies first@[i] == second@[i] by {
        assert(first@[i]@ == first.deep_view()[i]);
        assert(second@[i]@ == second.deep_view()[i]);
    }
    assert(first@ =~= second@);
}

} // verus!
