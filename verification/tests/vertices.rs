use cylinder_mesh::indices::generate_indices;
use cylinder_mesh::vertices::{generate_vertices, GridVertex};

/// Coordinates of a grid vertex on a tube of unit radius around the x axis.
fn position(v: GridVertex, corners: usize, segment_length: f32) -> (f32, f32, f32) {
    let angle = v.corner as f32 * 2.0 * std::f32::consts::PI / corners as f32;
    (v.row as f32 * segment_length, angle.cos(), angle.sin())
}

#[test]
fn smallest_grid_in_row_major_order() {
    let grid = generate_vertices(2, 3);
    assert_eq!(
        grid,
        vec![
            GridVertex { row: 0, corner: 0 },
            GridVertex { row: 0, corner: 1 },
            GridVertex { row: 0, corner: 2 },
            GridVertex { row: 1, corner: 0 },
            GridVertex { row: 1, corner: 1 },
            GridVertex { row: 1, corner: 2 },
        ]
    );
}

#[test]
fn vertex_count_is_rows_times_corners() {
    for (rows, corners) in [(2, 3), (2, 8), (3, 4), (5, 3), (7, 11), (100, 8)] {
        assert_eq!(generate_vertices(rows, corners).len(), rows * corners);
    }
}

#[test]
fn each_grid_position_has_its_place() {
    for (rows, corners) in [(2, 3), (3, 4), (7, 11), (100, 8)] {
        let grid = generate_vertices(rows, corners);
        for row in 0..rows {
            for corner in 0..corners {
                assert_eq!(grid[row * corners + corner], GridVertex { row, corner });
            }
        }
    }
}

#[test]
fn vertices_are_the_same_on_every_call() {
    for (rows, corners) in [(2, 3), (3, 4), (100, 8)] {
        assert_eq!(generate_vertices(rows, corners), generate_vertices(rows, corners));
    }
}

#[test]
fn three_rings_of_four_corners_unit_segments() {
    let (rows, corners) = (3, 4);
    let grid = generate_vertices(rows, corners);
    assert_eq!(grid.len(), 12);
    for (i, v) in grid.iter().enumerate() {
        let (x, y, z) = position(*v, corners, 1.0);
        match i / corners {
            0 => assert_eq!(x, 0.0),
            1 => assert_eq!(x, 1.0),
            _ => assert_eq!(x, 2.0),
        }
        if i % corners == 0 {
            assert_eq!((y, z), (1.0, 0.0));
        }
        if i % corners == 2 {
            assert!((y + 1.0).abs() < 1e-6);
            assert!(z.abs() < 1e-6);
        }
    }
    let tris = generate_indices(rows, corners);
    assert_eq!(tris.len(), 16);
    for t in &tris {
        assert!(t.a < 12 && t.b < 12 && t.c < 12);
    }
}

#[test]
fn every_ring_lies_on_the_unit_circle() {
    let (rows, corners) = (100, 8);
    for v in generate_vertices(rows, corners) {
        let (_, y, z) = position(v, corners, 0.37);
        assert!(((y * y + z * z).sqrt() - 1.0).abs() < 1e-6);
    }
}

#[test]
fn same_corner_same_place_on_every_ring() {
    let (rows, corners) = (5, 6);
    let grid = generate_vertices(rows, corners);
    for row in 1..rows {
        for corner in 0..corners {
            let (_, y0, z0) = position(grid[corner], corners, 0.5);
            let (_, y, z) = position(grid[row * corners + corner], corners, 0.5);
            assert_eq!((y, z), (y0, z0));
        }
    }
}

#[test]
fn later_rings_lie_further_along_the_axis() {
    let (rows, corners) = (6, 4);
    let grid = generate_vertices(rows, corners);
    // A segment length that binary floating point holds exactly, so that the
    // distances are exact as well.
    let segment_length = 0.25;
    for row1 in 0..rows {
        for row2 in row1 + 1..rows {
            for c1 in 0..corners {
                for c2 in 0..corners {
                    let near = grid[row1 * corners + c1];
                    let far = grid[row2 * corners + c2];
                    assert_eq!(far.row - near.row, row2 - row1);
                    let (x1, _, _) = position(near, corners, segment_length);
                    let (x2, _, _) = position(far, corners, segment_length);
                    assert!(x2 > x1);
                    assert_eq!(x2 - x1, (row2 - row1) as f32 * segment_length);
                }
            }
        }
    }
}

#[test]
fn triangles_of_a_quad_name_its_four_corners() {
    let (rows, corners) = (4, 5);
    let grid = generate_vertices(rows, corners);
    let tris = generate_indices(rows, corners);
    for row in 0..rows - 1 {
        for corner in 0..corners {
            let next = (corner + 1) % corners;
            let k = 2 * (row * corners + corner);
            let (first, second) = (tris[k], tris[k + 1]);
            assert_eq!(grid[first.a], GridVertex { row, corner });
            assert_eq!(grid[first.b], GridVertex { row, corner: next });
            assert_eq!(grid[first.c], GridVertex { row: row + 1, corner: next });
            assert_eq!(grid[second.a], GridVertex { row, corner });
            assert_eq!(grid[second.b], GridVertex { row: row + 1, corner: next });
            assert_eq!(grid[second.c], GridVertex { row: row + 1, corner });
        }
    }
}
