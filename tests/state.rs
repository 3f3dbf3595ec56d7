use polygon_editor::polygon::Polygon;
use polygon_editor::state::{CreatingState, StateTransition};

type P = (i64, i64);

fn near(pointer: P) -> impl Fn(P) -> bool {
    move |q: P| (q.0 - pointer.0).abs() <= 4 && (q.1 - pointer.1).abs() <= 4
}

#[test]
fn clicks_add_vertices_until_the_first_is_hit() {
    let mut s: CreatingState<P, i64> = CreatingState::new();
    assert_eq!(s.handle_add_point((0, 0), &near((0, 0))), None);
    assert_eq!(s.handle_add_point((1, 1), &near((1, 1))), None);
    assert_eq!(s.vertices.len(), 2);
    assert_eq!(s.handle_add_point((2, 0), &near((2, 0))), None);
    assert_eq!(s.handle_add_point((60, 0), &near((60, 0))), None);
    assert_eq!(s.vertices.len(), 4);
    assert_eq!(s.handle_add_point((1, 2), &near((1, 2))), Some(StateTransition::ToEditing));
    assert_eq!(s.vertices.len(), 4);
    assert!(Polygon::new(s.vertices).is_some());
}

#[test]
fn closing_needs_three_vertices() {
    let mut s: CreatingState<P, i64> = CreatingState::new();
    assert_eq!(s.handle_add_point((0, 0), &near((0, 0))), None);
    assert_eq!(s.handle_add_point((10, 0), &near((10, 0))), None);
    assert_eq!(s.handle_add_point((0, 1), &near((0, 1))), None);
    assert_eq!(s.vertices.len(), 3);
    assert_eq!(s.vertices[2].p, (0, 1));
}
