use polygon_editor::path::{ArcFrame, EdgePath};
use polygon_editor::polygon::Polygon;
use polygon_editor::rules::{DragFix, DragRule, EdgeFix, EdgeRule, Joint};
use polygon_editor::vertex::{CubicBezier, EdgeConstraint, Vertex, VertexConstraint};

type P = (i64, i64);

fn sub(a: P, b: P) -> P {
    (a.0 - b.0, a.1 - b.1)
}

fn add(a: P, b: P) -> P {
    (a.0 + b.0, a.1 + b.1)
}

// Integer stand-in for the geometry kernel: vertical edges and C1 joints
// against straight edges, exact on multiples of three.
fn c1_handle(far: P, joint: P) -> P {
    let v = sub(joint, far);
    add(joint, (v.0 / 3, v.1 / 3))
}

fn joint_holds(j: Joint<P>) -> bool {
    match j {
        Joint::Line { far, joint, control, continuity: VertexConstraint::C1 } => {
            control == c1_handle(far, joint)
        }
        _ => true,
    }
}

fn holds(rule: EdgeRule<P, i64>) -> bool {
    match rule {
        EdgeRule::Free => true,
        EdgeRule::Shape { kind: EdgeConstraint::Vertical, fixed, free } => fixed.0 == free.0,
        EdgeRule::Shape { .. } => true,
        EdgeRule::Curve { start, end } => joint_holds(start) && joint_holds(end),
    }
}

fn fix_joint(j: Joint<P>, at_start: bool) -> P {
    match j {
        Joint::Line { far, joint, continuity: VertexConstraint::C1, .. } => c1_handle(far, joint),
        Joint::Line { control, .. } => control,
        Joint::Curves { incoming, outgoing, .. } => {
            if at_start {
                outgoing
            } else {
                incoming
            }
        }
    }
}

fn fix(rule: EdgeRule<P, i64>) -> EdgeFix<P> {
    match rule {
        EdgeRule::Shape { kind: EdgeConstraint::Vertical, fixed, free } => {
            EdgeFix::Free((fixed.0, free.1))
        }
        EdgeRule::Curve { start, end } => {
            EdgeFix::Controls([fix_joint(start, true), fix_joint(end, false)])
        }
        _ => EdgeFix::Keep,
    }
}

fn never(rule: EdgeRule<P, i64>) -> bool {
    matches!(rule, EdgeRule::Free)
}

fn nudge(rule: EdgeRule<P, i64>) -> EdgeFix<P> {
    match rule {
        EdgeRule::Shape { free, .. } => EdgeFix::Free((free.0 + 1, free.1)),
        _ => EdgeFix::Keep,
    }
}

fn drag(rule: DragRule<P, i64>) -> DragFix<P> {
    match rule {
        DragRule::Alone => DragFix::Keep,
        DragRule::Joint { joint, handle, .. } => DragFix::Partner(sub(joint, sub(handle, joint))),
        DragRule::Line { fixed, handle, .. } => {
            let v = sub(fixed, handle);
            DragFix::Line { fixed, free: add(fixed, (3 * v.0, 3 * v.1)), handle }
        }
    }
}

fn polygon(points: &[P]) -> Polygon<P, i64> {
    let vertices: Vec<Vertex<P, i64>> = points.iter().map(|p| Vertex::new(*p)).collect();
    Polygon::new(vertices).expect("a valid outline")
}

fn square() -> Polygon<P, i64> {
    polygon(&[(100, 100), (200, 100), (200, 200), (100, 200)])
}

fn positions(p: &Polygon<P, i64>) -> Vec<P> {
    p.vertices().iter().map(|v| v.p).collect()
}

fn controls(p: &Polygon<P, i64>, i: usize) -> [P; 2] {
    p.vertices()[i].bezier.expect("a curve").control
}

fn all_hold(p: &Polygon<P, i64>) -> bool {
    (0..p.len()).all(|i| p.check_constraint(i, &holds))
}

#[test]
fn new_refuses_fewer_than_three_vertices() {
    let two = vec![Vertex::<P, i64>::new((0, 0)), Vertex::new((1, 1))];
    assert!(Polygon::new(two).is_none());
    let empty: Vec<Vertex<P, i64>> = Vec::new();
    assert!(Polygon::new(empty).is_none());
}

#[test]
fn new_refuses_c1_at_an_arc() {
    let mut vs: Vec<Vertex<P, i64>> = vec![Vertex::new((0, 0)), Vertex::new((3, 0)), Vertex::new((0, 3))];
    vs[0].arc = Some(polygon_editor::vertex::CircleArc);
    assert!(Polygon::new(vs.clone()).is_none());
    vs[0].vertex_c = VertexConstraint::G1;
    vs[1].vertex_c = VertexConstraint::G0;
    assert!(Polygon::new(vs).is_some());
}

#[test]
fn cyclic_indices_wrap() {
    let p = square();
    assert_eq!(p.next_i(3), 0);
    assert_eq!(p.next_i(1), 2);
    assert_eq!(p.prev_i(0), 3);
    assert_eq!(p.prev_i(2), 1);
}

#[test]
fn vertical_edge_drags_its_end_along() {
    let mut p = square();
    assert!(p.try_set_edge_constraint(0, EdgeConstraint::Vertical, &holds, &fix));
    assert_eq!(positions(&p), vec![(100, 100), (100, 100), (200, 200), (100, 200)]);
    assert!(p.check_constraint(0, &holds));
    assert!(p.try_move_vertex(0, (150, 80), &holds, &fix));
    assert_eq!(positions(&p), vec![(150, 80), (150, 100), (200, 200), (100, 200)]);
    assert!(p.check_constraint(0, &holds));
    assert!(all_hold(&p));
}

#[test]
fn triangle_keeps_its_vertices() {
    let mut p = polygon(&[(0, 0), (30, 0), (0, 30)]);
    assert!(!p.remove_vertex(1, &holds, &fix));
    assert_eq!(p.len(), 3);
    assert_eq!(positions(&p), vec![(0, 0), (30, 0), (0, 30)]);
}

#[test]
fn removal_stops_at_a_triangle() {
    let mut p = polygon(&[(0, 0), (30, 0), (60, 0), (60, 30), (0, 30)]);
    assert!(p.remove_vertex(4, &holds, &fix));
    assert!(p.remove_vertex(0, &holds, &fix));
    assert_eq!(p.len(), 3);
    assert!(!p.remove_vertex(0, &holds, &fix));
    assert_eq!(positions(&p), vec![(30, 0), (60, 0), (60, 30)]);
}

#[test]
fn removal_clears_the_edge_into_the_vertex() {
    let mut p = square();
    assert!(p.try_set_edge_constraint(1, EdgeConstraint::Vertical, &holds, &fix));
    assert!(p.remove_vertex(2, &holds, &fix));
    assert_eq!(p.len(), 3);
    assert!(p.vertices()[1].edge_c.is_none());
    assert_eq!(positions(&p), vec![(100, 100), (200, 100), (100, 200)]);
}

#[test]
fn c1_handle_follows_the_straight_edge() {
    let mut p = polygon(&[(0, 0), (300, 0), (300, 300), (0, 300)]);
    p.init_bezier(0, &c1_handle);
    assert_eq!(controls(&p, 0), [(0, -100), (300, -100)]);
    assert!(p.try_set_vertex_constraint(0, VertexConstraint::C1, &holds, &fix));
    assert!(p.try_move_vertex(3, (-30, 90), &holds, &fix));
    let c = controls(&p, 0);
    assert_eq!(c[0], (10, -30));
    assert_eq!(sub(c[0], (0, 0)), ((0 - -30) / 3, (0 - 90) / 3));
    assert!(all_hold(&p));
}

#[test]
fn failed_move_restores_everything() {
    let mut p = square();
    assert!(p.try_set_edge_constraint(2, EdgeConstraint::Vertical, &holds, &fix));
    let before = positions(&p);
    assert!(!p.try_move_vertex(0, (7, 9), &never, &nudge));
    assert_eq!(positions(&p), before);
    assert!(matches!(p.vertices()[2].edge_c, Some(EdgeConstraint::Vertical)));
    assert!(p.vertices()[0].edge_c.is_none());
}

#[test]
fn failed_edge_constraint_is_not_kept() {
    let mut p = square();
    assert!(!p.try_set_edge_constraint(1, EdgeConstraint::DiagonalUp, &never, &nudge));
    assert!(p.vertices()[1].edge_c.is_none());
    assert_eq!(positions(&p), vec![(100, 100), (200, 100), (200, 200), (100, 200)]);
}

#[test]
fn failed_control_move_restores_everything() {
    let mut p = square();
    p.init_bezier(0, &c1_handle);
    assert!(p.try_set_edge_constraint(2, EdgeConstraint::Vertical, &holds, &fix));
    let before = positions(&p);
    let before_c = controls(&p, 0);
    assert!(!p.try_move_control_vertex(0, 0, (1, 2), &drag, &never, &nudge));
    assert_eq!(positions(&p), before);
    assert_eq!(controls(&p, 0), before_c);
}

#[test]
fn resolution_without_constraints_changes_nothing() {
    let mut p = square();
    assert!(p.resolve_constraints(2, &never, &nudge));
    assert_eq!(positions(&p), vec![(100, 100), (200, 100), (200, 200), (100, 200)]);
}

#[test]
fn control_drag_carries_the_straight_neighbour() {
    let mut p = polygon(&[(0, 0), (300, 0), (300, 300), (0, 300)]);
    p.init_bezier(0, &c1_handle);
    assert!(p.try_move_control_vertex(0, 0, (10, 10), &drag, &holds, &fix));
    // C1 at vertex 0: the edge 3 -> 0 turns to (0,0) + 3 * ((0,0) - (10,10)).
    assert_eq!(p.vertices()[3].p, (-30, -30));
    assert_eq!(controls(&p, 0)[0], (10, 10));
    assert!(all_hold(&p));
}

#[test]
fn control_drag_at_g0_moves_the_handle_alone() {
    let mut p = polygon(&[(0, 0), (300, 0), (300, 300), (0, 300)]);
    p.init_bezier(0, &c1_handle);
    assert!(p.try_set_vertex_constraint(0, VertexConstraint::G0, &holds, &fix));
    assert!(p.try_move_control_vertex(0, 0, (5, 7), &drag, &holds, &fix));
    assert_eq!(controls(&p, 0)[0], (5, 7));
    assert_eq!(positions(&p), vec![(0, 0), (300, 0), (300, 300), (0, 300)]);
}

#[test]
fn control_drag_mirrors_the_partner_curve() {
    let mut p = polygon(&[(0, 0), (300, 0), (300, 300), (0, 300)]);
    p.init_bezier(0, &c1_handle);
    p.init_bezier(3, &c1_handle);
    assert!(p.try_move_control_vertex(0, 0, (20, 40), &drag, &holds, &fix));
    assert_eq!(controls(&p, 0)[0], (20, 40));
    assert_eq!(controls(&p, 3)[1], (-20, -40));
}

#[test]
fn subdivision_inserts_a_plain_midpoint() {
    let mut p = square();
    assert!(p.try_set_edge_constraint(1, EdgeConstraint::Vertical, &holds, &fix));
    let mid = |a: P, b: P| ((a.0 + b.0) / 2, (a.1 + b.1) / 2);
    p.subdivide_edge(1, &mid);
    assert_eq!(positions(&p), vec![(100, 100), (200, 100), (200, 150), (200, 200), (100, 200)]);
    assert!(p.vertices()[1].edge_c.is_none());
    assert_eq!(p.vertices()[2].vertex_c, VertexConstraint::C1);
}

#[test]
fn subdividing_the_closing_edge_inserts_at_the_front() {
    let mut p = square();
    let mid = |a: P, b: P| ((a.0 + b.0) / 2, (a.1 + b.1) / 2);
    p.subdivide_edge(3, &mid);
    assert_eq!(positions(&p), vec![(100, 150), (100, 100), (200, 100), (200, 200), (100, 200)]);
}

#[test]
fn setting_one_payload_clears_the_others() {
    let mut p = square();
    p.make_arc(1);
    assert!(p.is_arc_start(1));
    p.init_bezier(1, &c1_handle);
    assert!(p.is_bezier_start(1));
    assert!(!p.is_arc_start(1));
    assert!(p.try_set_edge_constraint(1, EdgeConstraint::DiagonalDown, &holds, &fix));
    assert!(!p.is_bezier_start(1));
    assert!(matches!(p.vertices()[1].edge_c, Some(EdgeConstraint::DiagonalDown)));
}

#[test]
fn arc_demotes_c1_ends() {
    let mut p = square();
    p.make_arc(0);
    assert_eq!(p.vertices()[0].vertex_c, VertexConstraint::G1);
    assert_eq!(p.vertices()[1].vertex_c, VertexConstraint::G0);
    assert!(p.is_arc_start(0));
    assert!(p.is_arc_end(1));
}

#[test]
fn arc_keeps_a_g1_end() {
    let mut p = square();
    assert!(p.try_set_vertex_constraint(0, VertexConstraint::G0, &holds, &fix));
    assert!(p.try_set_vertex_constraint(1, VertexConstraint::G1, &holds, &fix));
    p.make_arc(0);
    assert_eq!(p.vertices()[0].vertex_c, VertexConstraint::G0);
    assert_eq!(p.vertices()[1].vertex_c, VertexConstraint::G1);
    assert!(!p.can_be_g1(0));
}

#[test]
fn arc_ends_refuse_c1() {
    let mut p = square();
    p.make_arc(0);
    assert!(!p.can_be_c1(0));
    assert!(!p.can_be_c1(1));
    assert!(p.can_be_c1(2));
    assert!(!p.try_set_vertex_constraint(1, VertexConstraint::C1, &holds, &fix));
    assert_eq!(p.vertices()[1].vertex_c, VertexConstraint::G0);
    assert!(!p.can_be_g1(1));
    assert!(!p.try_set_vertex_constraint(1, VertexConstraint::G1, &holds, &fix));
    assert!(p.try_set_vertex_constraint(0, VertexConstraint::G0, &holds, &fix));
    assert!(p.can_be_g1(1));
    p.clear_arc(0);
    assert!(p.can_be_c1(1));
}

#[test]
fn arc_frame_follows_the_g1_end() {
    let mut p = square();
    p.make_arc(1);
    match p.edge_path(1) {
        EdgePath::Arc { from, to, frame: ArcFrame::Tangent { at, other, before } } => {
            assert_eq!((from, to), ((200, 100), (200, 200)));
            assert_eq!((at, other, before), ((200, 100), (200, 200), (100, 100)));
        }
        other => panic!("unexpected path {:?}", other),
    }
    assert!(p.try_set_vertex_constraint(1, VertexConstraint::G0, &holds, &fix));
    match p.edge_path(1) {
        EdgePath::Arc { frame: ArcFrame::Chord { from, to }, .. } => {
            assert_eq!((from, to), ((200, 100), (200, 200)));
        }
        other => panic!("unexpected path {:?}", other),
    }
}

#[test]
fn edge_paths_by_kind() {
    let mut p = square();
    p.init_bezier(2, &c1_handle);
    assert!(matches!(p.edge_path(0), EdgePath::Straight { from: (100, 100), to: (200, 100) }));
    match p.edge_path(2) {
        EdgePath::Bezier { from, to, control } => {
            assert_eq!((from, to), ((200, 200), (100, 200)));
            assert_eq!(control, controls(&p, 2));
        }
        other => panic!("unexpected path {:?}", other),
    }
}

#[test]
fn edge_rule_describes_the_joints() {
    let mut p = square();
    p.init_bezier(0, &c1_handle);
    p.init_bezier(1, &c1_handle);
    match p.edge_rule(0) {
        EdgeRule::Curve { start: Joint::Line { far, joint, .. }, end: Joint::Curves { incoming, outgoing, joint: j2, .. } } => {
            assert_eq!((far, joint), ((100, 200), (100, 100)));
            assert_eq!(incoming, controls(&p, 0)[1]);
            assert_eq!(outgoing, controls(&p, 1)[0]);
            assert_eq!(j2, (200, 100));
        }
        other => panic!("unexpected rule {:?}", other),
    }
    assert!(matches!(p.edge_rule(3), EdgeRule::Free));
}

#[test]
fn vertical_neighbours_and_joints() {
    let mut p = square();
    assert!(p.try_set_edge_constraint(0, EdgeConstraint::Vertical, &holds, &fix));
    assert!(p.has_vertical_neighbor(1));
    assert!(p.has_vertical_neighbor(3));
    assert!(!p.has_vertical_neighbor(2));
    assert!(!p.is_curve_joint(2));
    p.init_bezier(2, &c1_handle);
    assert!(p.is_curve_joint(2));
    assert!(p.is_curve_joint(3));
    assert!(!p.is_curve_joint(1));
}

#[test]
fn translation_moves_points_and_handles() {
    let mut p = polygon(&[(0, 0), (300, 0), (300, 300), (0, 300)]);
    p.init_bezier(0, &c1_handle);
    p.move_polygon(&|q: P| add(q, (5, -5)));
    assert_eq!(positions(&p), vec![(5, -5), (305, -5), (305, 295), (5, 295)]);
    assert_eq!(controls(&p, 0), [(5, -105), (305, -105)]);
}

#[test]
fn clearing_payloads() {
    let mut p = square();
    p.init_bezier(0, &c1_handle);
    p.clear_bezier(0);
    assert!(!p.is_bezier_start(0));
    assert!(p.try_set_edge_constraint(1, EdgeConstraint::Vertical, &holds, &fix));
    p.clear_edge_constraint(1);
    assert!(p.vertices()[1].edge_c.is_none());
}

#[test]
fn handle_under_the_pointer() {
    let b = CubicBezier::new([(10, 10), (50, 50)]);
    let near = |pointer: P| move |q: P| (q.0 - pointer.0).abs() <= 6 && (q.1 - pointer.1).abs() <= 6;
    assert_eq!(b.nearby_control_vertex(&near((12, 8))), Some(0));
    assert_eq!(b.nearby_control_vertex(&near((48, 55))), Some(1));
    assert_eq!(b.nearby_control_vertex(&near((30, 30))), None);
}

#[test]
fn moving_one_handle_of_a_vertex() {
    let mut v: Vertex<P, i64> = Vertex::new((0, 0));
    v.move_bezier_control_vertex(1, (4, 4));
    assert!(v.bezier.is_none());
    v.bezier = Some(CubicBezier::new([(1, 1), (2, 2)]));
    v.move_bezier_control_vertex(1, (4, 4));
    assert_eq!(v.bezier.unwrap().control, [(1, 1), (4, 4)]);
}

#[test]
fn default_continuity_is_c1() {
    assert_eq!(VertexConstraint::default(), VertexConstraint::C1);
    assert_eq!(Vertex::<P, i64>::new((1, 2)).vertex_c, VertexConstraint::C1);
}

#[test]
fn apply_moves_only_the_free_end() {
    let mut p = square();
    assert!(p.try_set_edge_constraint(0, EdgeConstraint::Vertical, &never_vertical, &fix));
    assert_eq!(positions(&p), vec![(100, 100), (200, 100), (200, 200), (100, 200)]);
    assert!(!p.check_constraint(0, &holds));
    assert!(!p.check_all(&holds));
    p.apply_constraint(0, &fix);
    assert_eq!(positions(&p), vec![(100, 100), (100, 100), (200, 200), (100, 200)]);
    assert!(p.check_constraint(0, &holds));
    assert!(p.check_all(&holds));
}

// reports vertical edges as holding whatever their ends
fn never_vertical(rule: EdgeRule<P, i64>) -> bool {
    let _ = rule;
    true
}

#[test]
fn applying_a_holding_rule_changes_nothing() {
    let mut p = polygon(&[(0, 0), (300, 0), (300, 300), (0, 300)]);
    p.init_bezier(0, &c1_handle);
    assert!(p.try_set_edge_constraint(2, EdgeConstraint::Vertical, &holds, &fix));
    let before = positions(&p);
    let before_c = controls(&p, 0);
    for i in 0..p.len() {
        assert!(p.check_constraint(i, &holds));
        p.apply_constraint(i, &fix);
    }
    assert_eq!(positions(&p), before);
    assert_eq!(controls(&p, 0), before_c);
}

#[test]
fn drag_rule_by_continuity() {
    let mut p = polygon(&[(0, 0), (300, 0), (300, 300), (0, 300)]);
    p.init_bezier(0, &c1_handle);
    match p.drag_rule(0, 1, (9, 9)) {
        DragRule::Line { continuity, fixed, free, handle, shape } => {
            assert_eq!(continuity, VertexConstraint::C1);
            assert_eq!((fixed, free, handle), ((300, 0), (300, 300), (9, 9)));
            assert!(shape.is_none());
        }
        other => panic!("unexpected rule {:?}", other),
    }
    assert!(p.try_set_vertex_constraint(1, VertexConstraint::G0, &holds, &fix));
    assert!(matches!(p.drag_rule(0, 1, (9, 9)), DragRule::Alone));
    p.init_bezier(1, &c1_handle);
    assert!(p.try_set_vertex_constraint(1, VertexConstraint::G1, &holds, &fix));
    match p.drag_rule(0, 1, (9, 9)) {
        DragRule::Joint { continuity, joint, handle, partner } => {
            assert_eq!(continuity, VertexConstraint::G1);
            assert_eq!((joint, handle, partner), ((300, 0), (9, 9), controls(&p, 1)[0]));
        }
        other => panic!("unexpected rule {:?}", other),
    }
}

#[test]
fn labels_allowed_next_to_arcs() {
    let mut p = square();
    p.make_arc(2);
    assert_eq!(p.vertices()[2].vertex_c, VertexConstraint::G1);
    assert_eq!(p.vertices()[3].vertex_c, VertexConstraint::G0);
    assert!(p.label_allowed(3, VertexConstraint::G0));
    assert!(!p.label_allowed(3, VertexConstraint::G1));
    assert!(!p.label_allowed(3, VertexConstraint::C1));
    assert!(p.label_allowed(2, VertexConstraint::G1));
    assert!(p.label_allowed(0, VertexConstraint::C1));
}

#[test]
fn c1_handle_lands_a_third_along_the_new_edge() {
    let mut p = square();
    p.init_bezier(0, &c1_handle);
    assert!(p.try_set_vertex_constraint(0, VertexConstraint::C1, &holds, &fix));
    assert!(p.try_move_vertex(3, (100, 400), &holds, &fix));
    assert_eq!(p.vertices()[3].p, (100, 400));
    assert_eq!(controls(&p, 0)[0], (100, 0));
    assert!(all_hold(&p));
}

#[test]
fn removal_resolves_from_the_successor() {
    let mut p = polygon(&[(0, 0), (300, 0), (300, 300), (0, 300)]);
    p.init_bezier(0, &c1_handle);
    assert!(p.remove_vertex(3, &holds, &fix));
    // the curve now starts after the straight edge (300, 300) -> (0, 0)
    assert_eq!(positions(&p), vec![(0, 0), (300, 0), (300, 300)]);
    assert_eq!(controls(&p, 0)[0], (-100, -100));
    assert!(all_hold(&p));
}
