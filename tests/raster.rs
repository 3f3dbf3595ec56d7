use polygon_editor::raster::{bresenham_points, LineAlgorithm};

#[test]
fn shallow_line() {
    assert_eq!(
        bresenham_points(0, 0, 5, 2),
        vec![(0, 0), (1, 0), (2, 1), (3, 1), (4, 2), (5, 2)]
    );
}

#[test]
fn reversed_line_is_walked_left_to_right() {
    assert_eq!(
        bresenham_points(5, 2, 0, 0),
        vec![(0, 0), (1, 0), (2, 1), (3, 1), (4, 2), (5, 2)]
    );
}

#[test]
fn steep_line() {
    assert_eq!(bresenham_points(0, 0, 1, 3), vec![(0, 0), (0, 1), (1, 2), (1, 3)]);
}

#[test]
fn falling_line() {
    assert_eq!(
        bresenham_points(0, 0, 4, -2),
        vec![(0, 0), (1, -1), (2, -1), (3, -2), (4, -2)]
    );
}

#[test]
fn single_pixel() {
    assert_eq!(bresenham_points(4, 4, 4, 4), vec![(4, 4)]);
}

#[test]
fn vertical_and_diagonal() {
    assert_eq!(bresenham_points(2, 3, 2, 0), vec![(2, 0), (2, 1), (2, 2), (2, 3)]);
    assert_eq!(bresenham_points(0, 0, 3, 3), vec![(0, 0), (1, 1), (2, 2), (3, 3)]);
}

#[test]
fn extreme_coordinates() {
    let pts = bresenham_points(i32::MAX - 2, i32::MIN, i32::MAX, i32::MIN + 1);
    assert_eq!(pts, vec![(i32::MAX - 2, i32::MIN), (i32::MAX - 1, i32::MIN + 1), (i32::MAX, i32::MIN + 1)]);
}

#[test]
fn line_algorithm_default() {
    assert_eq!(LineAlgorithm::default(), LineAlgorithm::Default);
}
