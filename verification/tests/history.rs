use roughnote::model::{Color, Point, Stroke};
use roughnote::note::{Note, Snapshot, HISTORY_LIMIT};

fn black() -> Color<f64> {
    Color { r: 0.0, g: 0.0, b: 0.0, a: 1.0 }
}

fn stroke_at(x: f64) -> Stroke<f64> {
    Stroke { points: vec![Point { x, y: 1.0 }], color: black(), width: 2.0, is_highlighter: false }
}

fn xs(n: &Note<f64>) -> Vec<f64> {
    n.strokes.iter().map(|s| s.points[0].x).collect()
}

#[test]
fn new_note_is_blank() {
    let n: Note<f64> = Note::new("Page");
    assert_eq!(n.name, "Page");
    assert!(n.bg_color.is_none() && n.rule_gap.is_none());
    assert!(n.strokes.is_empty() && n.shapes.is_empty() && n.images.is_empty());
    assert!(n.tables.is_empty() && n.texts.is_empty() && n.sprays.is_empty());
    assert!(n.undo_stack.is_empty() && n.redo_stack.is_empty());
    assert_eq!(n.revision, 0);
    let d: Note<f64> = Note::default();
    assert_eq!(d.name, "");
}

#[test]
fn undo_after_push_restores_content() {
    let mut n: Note<f64> = Note::new("a");
    n.strokes.push(stroke_at(1.0));
    n.push_undo();
    n.strokes.push(stroke_at(2.0));
    assert_eq!(xs(&n), vec![1.0, 2.0]);
    n.undo();
    assert_eq!(xs(&n), vec![1.0]);
    assert_eq!(n.undo_stack.len(), 0);
    assert_eq!(n.redo_stack.len(), 1);
    n.redo();
    assert_eq!(xs(&n), vec![1.0, 2.0]);
    assert_eq!(n.undo_stack.len(), 1);
    assert_eq!(n.redo_stack.len(), 0);
    assert_eq!(n.revision, 3);
}

#[test]
fn undo_with_empty_history_changes_only_revision() {
    let mut n: Note<f64> = Note::new("a");
    n.strokes.push(stroke_at(5.0));
    n.undo();
    assert_eq!(xs(&n), vec![5.0]);
    assert_eq!(n.revision, 1);
    n.redo();
    assert_eq!(xs(&n), vec![5.0]);
    assert_eq!(n.revision, 2);
}

#[test]
fn push_undo_clears_redo() {
    let mut n: Note<f64> = Note::new("a");
    n.push_undo();
    n.strokes.push(stroke_at(1.0));
    n.undo();
    assert_eq!(n.redo_stack.len(), 1);
    n.push_undo();
    assert_eq!(n.redo_stack.len(), 0);
    assert_eq!(n.undo_stack.len(), 1);
}

#[test]
fn undo_stack_keeps_at_most_the_limit() {
    let mut n: Note<f64> = Note::new("a");
    for i in 0..(HISTORY_LIMIT + 5) {
        n.strokes.push(stroke_at(i as f64));
        n.push_undo();
    }
    assert_eq!(HISTORY_LIMIT, 50);
    assert_eq!(n.undo_stack.len(), HISTORY_LIMIT);
    // the oldest five snapshots were dropped: the oldest left holds six strokes
    assert_eq!(n.undo_stack[0].strokes.len(), 6);
    for _ in 0..(HISTORY_LIMIT + 3) {
        n.undo();
    }
    assert_eq!(n.undo_stack.len(), 0);
    assert_eq!(n.strokes.len(), 6);
    assert_eq!(n.redo_stack.len(), HISTORY_LIMIT);
}

#[test]
fn redo_stack_keeps_at_most_the_limit() {
    let mut n: Note<f64> = Note::new("a");
    for i in 0..HISTORY_LIMIT {
        n.push_undo();
        n.strokes.push(stroke_at(i as f64));
    }
    for _ in 0..HISTORY_LIMIT {
        n.undo();
    }
    assert_eq!(n.redo_stack.len(), HISTORY_LIMIT);
    assert!(n.strokes.is_empty());
    // the most recently undone content is the one with all but the last stroke
    assert_eq!(n.redo_stack[HISTORY_LIMIT - 1].strokes.len(), 1);
    assert_eq!(n.redo_stack[0].strokes.len(), HISTORY_LIMIT);
    // one more undone content on a full redo stack drops its oldest entry
    n.undo_stack.push(Snapshot {
        bg_color: None,
        rule_gap: Some(7.0),
        strokes: vec![],
        shapes: vec![],
        images: vec![],
        tables: vec![],
        texts: vec![],
        sprays: vec![],
    });
    n.undo();
    assert_eq!(n.rule_gap, Some(7.0));
    assert_eq!(n.redo_stack.len(), HISTORY_LIMIT);
    assert_eq!(n.redo_stack[0].strokes.len(), HISTORY_LIMIT - 1);
}

#[test]
fn background_is_part_of_history() {
    let mut n: Note<f64> = Note::new("a");
    n.fill_background(Color { r: 1.0, g: 0.5, b: 0.0, a: 1.0 });
    assert_eq!(n.bg_color.as_ref().map(|c| c.g), Some(0.5));
    n.undo();
    assert!(n.bg_color.is_none());
    n.redo();
    assert_eq!(n.bg_color.as_ref().map(|c| c.r), Some(1.0));
}

#[test]
fn undo_after_redo_restores() {
    let mut n: Note<f64> = Note::new("a");
    n.push_undo();
    n.strokes.push(stroke_at(1.0));
    n.push_undo();
    n.strokes.push(stroke_at(2.0));
    n.undo();
    n.undo();
    assert!(n.strokes.is_empty());
    n.redo();
    assert_eq!(xs(&n), vec![1.0]);
    n.undo();
    assert!(n.strokes.is_empty());
    assert_eq!(n.redo_stack.len(), 2);
    n.redo();
    n.redo();
    assert_eq!(xs(&n), vec![1.0, 2.0]);
}

#[test]
fn redo_after_undo_on_full_redo_stack_loses_oldest_redo() {
    let mut n: Note<f64> = Note::new("a");
    for i in 0..HISTORY_LIMIT {
        n.push_undo();
        n.strokes.push(stroke_at(i as f64));
    }
    for _ in 0..HISTORY_LIMIT {
        n.undo();
    }
    assert_eq!(n.redo_stack.len(), HISTORY_LIMIT);
    n.undo_stack.push(Snapshot {
        bg_color: None,
        rule_gap: None,
        strokes: vec![stroke_at(42.0)],
        shapes: vec![],
        images: vec![],
        tables: vec![],
        texts: vec![],
        sprays: vec![],
    });
    n.undo();
    n.redo();
    // content and undo stack are back, but the oldest redo entry is gone
    assert!(n.strokes.is_empty());
    assert_eq!(n.undo_stack.len(), 1);
    assert_eq!(n.redo_stack.len(), HISTORY_LIMIT - 1);
    assert_eq!(n.redo_stack[0].strokes.len(), HISTORY_LIMIT - 1);
}
