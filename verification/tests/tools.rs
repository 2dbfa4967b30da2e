use roughnote::model::CanvasTable;
use roughnote::numbering::numbered;
use roughnote::tool::{ShapeKind, Tool};

#[test]
fn default_tool_is_pen() {
    assert_eq!(Tool::default(), Tool::Pen);
}

#[test]
fn shape_tools_map_to_their_shapes() {
    assert_eq!(ShapeKind::for_tool(&Tool::Line), ShapeKind::Line);
    assert_eq!(ShapeKind::for_tool(&Tool::Rectangle), ShapeKind::Rectangle);
    assert_eq!(ShapeKind::for_tool(&Tool::Circle), ShapeKind::Circle);
    assert_eq!(ShapeKind::for_tool(&Tool::Arrow), ShapeKind::Arrow);
    assert_eq!(ShapeKind::for_tool(&Tool::Star), ShapeKind::Star);
    assert_eq!(ShapeKind::for_tool(&Tool::Heart), ShapeKind::Heart);
    assert_eq!(ShapeKind::for_tool(&Tool::Triangle), ShapeKind::Triangle);
    assert_eq!(ShapeKind::for_tool(&Tool::Diamond), ShapeKind::Diamond);
}

#[test]
fn palette_shapes_map_to_their_shapes() {
    assert_eq!(ShapeKind::for_tool(&Tool::Cloud), ShapeKind::Cloud);
    assert_eq!(ShapeKind::for_tool(&Tool::Database), ShapeKind::Database);
    assert_eq!(ShapeKind::for_tool(&Tool::Actor), ShapeKind::Actor);
    assert_eq!(ShapeKind::for_tool(&Tool::UmlClass), ShapeKind::UmlClass);
    assert_eq!(ShapeKind::for_tool(&Tool::RoundedRect), ShapeKind::RoundedRect);
}

#[test]
fn other_tools_draw_lines() {
    for t in [Tool::Text, Tool::Fill, Tool::Sticky, Tool::Highlighter] {
        assert_eq!(ShapeKind::for_tool(&t), ShapeKind::Line);
    }
}

#[test]
fn cursors_follow_the_tool() {
    assert_eq!(Tool::Select.cursor_name(), "default");
    assert_eq!(Tool::Text.cursor_name(), "text");
    assert_eq!(Tool::Fill.cursor_name(), "cell");
    assert_eq!(Tool::Pen.cursor_name(), "crosshair");
    assert_eq!(Tool::Eraser.cursor_name(), "crosshair");
    assert_eq!(Tool::Heart.cursor_name(), "crosshair");
}

#[test]
fn table_new_has_empty_cells() {
    let t: CanvasTable<f64> = CanvasTable::new(3, 2, 10.0, 20.0);
    assert_eq!((t.rows, t.cols), (3, 2));
    assert_eq!((t.x, t.y), (10.0, 20.0));
    assert_eq!(t.cell_w, 120.0);
    assert_eq!(t.cell_h, 36.0);
    assert_eq!(t.cells.len(), 3);
    assert!(t.cells.iter().all(|r| r.len() == 2 && r.iter().all(|c| c.is_empty())));
    let e: CanvasTable<f64> = CanvasTable::new(0, 4, 0.0, 0.0);
    assert!(e.cells.is_empty());
}

#[test]
fn numbered_labels() {
    assert_eq!(numbered("Note ", 0), "Note 0");
    assert_eq!(numbered("Note ", 7), "Note 7");
    assert_eq!(numbered("Session ", 10), "Session 10");
    assert_eq!(numbered("", 1234567890), "1234567890");
    assert_eq!(numbered("x", usize::MAX), format!("x{}", usize::MAX));
}
