use astra::{created_shape, ShapeKind, ToolKind, ToolSession};

#[test]
fn session_starts_with_select_idle() {
    let s = ToolSession::new();
    assert_eq!(s.tool(), ToolKind::Select);
    assert!(!s.is_active());
    assert_eq!(ToolKind::default(), ToolKind::Select);
}

#[test]
fn rectangle_drag_makes_rectangle_with_seed() {
    let mut s = ToolSession::new();
    s.set_tool(ToolKind::Rectangle);
    assert!(!s.is_active());
    s.begin(42);
    assert!(s.is_active());
    assert_eq!(s.preview(), Some((ShapeKind::Rectangle, 42)));
    assert_eq!(s.end(), Some((ShapeKind::Rectangle, 42)));
    assert!(!s.is_active());
    assert_eq!(s.end(), None);
}

#[test]
fn select_drag_makes_nothing_and_cancel_stops() {
    let mut s = ToolSession::new();
    s.begin(1);
    assert_eq!(s.end(), None);
    s.set_tool(ToolKind::Ellipse);
    s.begin(2);
    s.cancel();
    assert!(!s.is_active());
    assert_eq!(s.end(), None);
}

#[test]
fn freehand_needs_two_points() {
    let mut s = ToolSession::new();
    s.set_tool(ToolKind::Highlighter);
    s.begin(7);
    assert_eq!(s.stroke_points(), 1);
    assert_eq!(s.preview(), None);
    s.add_stroke_point();
    assert_eq!(s.preview(), Some((ShapeKind::Freehand, 7)));
    assert_eq!(s.end(), Some((ShapeKind::Freehand, 7)));
    assert_eq!(s.stroke_points(), 0);
}

#[test]
fn created_shape_per_tool() {
    assert_eq!(created_shape(ToolKind::Diamond, 0), Some(ShapeKind::Diamond));
    assert_eq!(created_shape(ToolKind::Line, 0), Some(ShapeKind::Line));
    assert_eq!(created_shape(ToolKind::Arrow, 0), Some(ShapeKind::Arrow));
    assert_eq!(created_shape(ToolKind::Text, 0), Some(ShapeKind::Text));
    assert_eq!(created_shape(ToolKind::Freehand, 1), None);
    assert_eq!(created_shape(ToolKind::Freehand, 2), Some(ShapeKind::Freehand));
    for t in [
        ToolKind::Select,
        ToolKind::Pan,
        ToolKind::Eraser,
        ToolKind::Math,
        ToolKind::LaserPointer,
        ToolKind::InsertImage,
    ] {
        assert_eq!(created_shape(t, 5), None);
    }
}

#[test]
fn test_tool_selection() {
    let mut tm = ToolSession::new();
    assert_eq!(tm.tool(), ToolKind::Select);

    tm.set_tool(ToolKind::Rectangle);
    assert_eq!(tm.tool(), ToolKind::Rectangle);
}

#[test]
fn test_tool_interaction() {
    let mut tm = ToolSession::new();
    tm.set_tool(ToolKind::Rectangle);

    assert!(!tm.is_active());

    tm.begin(11);
    assert!(tm.is_active());

    let preview = tm.preview();
    assert!(preview.is_some());

    let shape = tm.end();
    assert!(shape.is_some());
    assert!(!tm.is_active());
}

#[test]
fn test_cancel_interaction() {
    let mut tm = ToolSession::new();
    tm.set_tool(ToolKind::Rectangle);

    tm.begin(11);
    assert!(tm.is_active());

    tm.cancel();
    assert!(!tm.is_active());
}

#[test]
fn test_select_tool_no_shape() {
    let mut tm = ToolSession::new();
    tm.set_tool(ToolKind::Select);

    tm.begin(11);
    let shape = tm.end();
    assert!(shape.is_none());
}

#[test]
fn stroke_point_ignored_when_idle_or_not_drawing() {
    let mut s = ToolSession::new();
    s.set_tool(ToolKind::Freehand);
    s.add_stroke_point();
    assert_eq!(s.stroke_points(), 0);
    s.set_tool(ToolKind::Rectangle);
    s.begin(3);
    s.add_stroke_point();
    assert_eq!(s.stroke_points(), 0);
    assert_eq!(s.end(), Some((ShapeKind::Rectangle, 3)));
}
