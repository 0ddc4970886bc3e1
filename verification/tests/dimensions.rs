use cylinder_mesh::grid::{
    check_dimensions, count_triangles, count_vertices, DimensionError, MIN_CORNERS, MIN_ROWS,
};

#[test]
fn smallest_tube_is_accepted() {
    assert_eq!(MIN_ROWS, 2);
    assert_eq!(MIN_CORNERS, 3);
    assert_eq!(check_dimensions(2, 3), Ok(()));
}

#[test]
fn usual_sizes_are_accepted() {
    assert_eq!(check_dimensions(3, 4), Ok(()));
    assert_eq!(check_dimensions(100, 8), Ok(()));
    assert_eq!(check_dimensions(2, 1_000_000), Ok(()));
    assert_eq!(check_dimensions(1_000_000, 3), Ok(()));
}

#[test]
fn too_few_rows_are_rejected() {
    assert_eq!(check_dimensions(0, 8), Err(DimensionError::TooSmall));
    assert_eq!(check_dimensions(1, 8), Err(DimensionError::TooSmall));
    assert_eq!(check_dimensions(1, 3), Err(DimensionError::TooSmall));
}

#[test]
fn too_few_corners_are_rejected() {
    assert_eq!(check_dimensions(100, 0), Err(DimensionError::TooSmall));
    assert_eq!(check_dimensions(100, 1), Err(DimensionError::TooSmall));
    assert_eq!(check_dimensions(100, 2), Err(DimensionError::TooSmall));
    assert_eq!(check_dimensions(2, 2), Err(DimensionError::TooSmall));
}

#[test]
fn both_too_small_is_rejected() {
    assert_eq!(check_dimensions(0, 0), Err(DimensionError::TooSmall));
    assert_eq!(check_dimensions(1, 2), Err(DimensionError::TooSmall));
}

#[test]
fn too_small_comes_before_too_large() {
    assert_eq!(check_dimensions(1, usize::MAX), Err(DimensionError::TooSmall));
    assert_eq!(check_dimensions(usize::MAX, 2), Err(DimensionError::TooSmall));
}

#[test]
fn sizes_beyond_usize_are_rejected() {
    assert_eq!(check_dimensions(usize::MAX, 3), Err(DimensionError::TooLarge));
    assert_eq!(check_dimensions(2, usize::MAX), Err(DimensionError::TooLarge));
    assert_eq!(check_dimensions(usize::MAX, usize::MAX), Err(DimensionError::TooLarge));
    // The quads alone can be counted, twice as many triangles cannot.
    assert_eq!(check_dimensions(2, usize::MAX / 2 + 1), Err(DimensionError::TooLarge));
    assert_eq!(check_dimensions(usize::MAX / 6 + 2, 3), Err(DimensionError::TooLarge));
}

#[test]
fn largest_triangle_count_is_accepted() {
    // One strip of this width has usize::MAX - 1 triangles.
    assert_eq!(check_dimensions(2, usize::MAX / 2), Ok(()));
    assert_eq!(check_dimensions(usize::MAX / 6 + 1, 3), Ok(()));
}

#[test]
fn counts_of_small_grids() {
    assert_eq!(count_vertices(2, 3), 6);
    assert_eq!(count_triangles(2, 3), 6);
    assert_eq!(count_vertices(3, 4), 12);
    assert_eq!(count_triangles(3, 4), 16);
    assert_eq!(count_vertices(100, 8), 800);
    assert_eq!(count_triangles(100, 8), 1584);
}

#[test]
fn counts_at_the_limit() {
    assert_eq!(count_triangles(2, usize::MAX / 2), usize::MAX - 1);
    assert_eq!(count_vertices(2, usize::MAX / 2), usize::MAX - 1);
    assert_eq!(count_vertices(1, usize::MAX), usize::MAX);
}
