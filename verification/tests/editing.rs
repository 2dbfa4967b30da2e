use roughnote::model::{CanvasImage, CanvasText, Color, Point, Shape, Spray, Stroke};
use roughnote::note::Note;
use roughnote::selection::{remove_selected, take_selected, Selection};
use roughnote::tool::ShapeKind;
use std::collections::HashSet;

fn black() -> Color<f64> {
    Color { r: 0.0, g: 0.0, b: 0.0, a: 1.0 }
}

fn stroke_at(x: f64) -> Stroke<f64> {
    Stroke { points: vec![Point { x, y: 1.0 }], color: black(), width: 2.0, is_highlighter: false }
}

fn shape_at(x: f64) -> Shape<f64> {
    Shape { kind: ShapeKind::Rectangle, x1: x, y1: 0.0, x2: x + 1.0, y2: 1.0, color: black(), width: 1.0 }
}

fn text(t: &str) -> CanvasText<f64> {
    CanvasText {
        text: t.to_string(),
        x: 3.0,
        y: 4.0,
        font_family: "serif".to_string(),
        font_size: 24.0,
        color: black(),
        bg_color: None,
    }
}

fn xs(v: &[Stroke<f64>]) -> Vec<f64> {
    v.iter().map(|s| s.points[0].x).collect()
}

fn set(items: &[usize]) -> HashSet<usize> {
    items.iter().copied().collect()
}

fn note_with_strokes(n: usize) -> Note<f64> {
    let mut note = Note::new("n");
    for i in 0..n {
        note.strokes.push(stroke_at(i as f64));
    }
    note
}

#[test]
fn remove_selected_keeps_order_of_the_rest() {
    let mut v = vec![10, 11, 12, 13, 14];
    remove_selected(&mut v, &set(&[1, 3]));
    assert_eq!(v, vec![10, 12, 14]);
    let mut w = vec![1, 2, 3];
    remove_selected(&mut w, &set(&[]));
    assert_eq!(w, vec![1, 2, 3]);
    remove_selected(&mut w, &set(&[0, 1, 2]));
    assert!(w.is_empty());
}

#[test]
fn take_selected_gives_items_from_highest_position_down() {
    let mut v = vec!['a', 'b', 'c', 'd', 'e'];
    let taken = take_selected(&mut v, &set(&[0, 2, 4]));
    assert_eq!(taken, vec!['e', 'c', 'a']);
    assert_eq!(v, vec!['b', 'd']);
}

#[test]
fn commit_drawing_keeps_only_nonempty_ink() {
    let mut n: Note<f64> = Note::new("n");
    let empty = Stroke { points: vec![], color: black(), width: 2.0, is_highlighter: false };
    let spray = Spray { points: vec![Point { x: 1.0, y: 2.0 }], color: black(), radius: 6.0 };
    n.commit_drawing(Some(empty), Some(spray), None);
    assert!(n.strokes.is_empty());
    assert_eq!(n.sprays.len(), 1);
    assert!(n.shapes.is_empty());
    assert_eq!(n.undo_stack.len(), 1);
    n.commit_drawing(Some(stroke_at(4.0)), None, Some(shape_at(2.0)));
    assert_eq!(xs(&n.strokes), vec![4.0]);
    assert_eq!(n.shapes.len(), 1);
    assert_eq!(n.undo_stack.len(), 2);
    n.undo();
    assert!(n.strokes.is_empty() && n.shapes.is_empty());
    assert_eq!(n.sprays.len(), 1);
}

#[test]
fn commit_drawing_with_nothing_still_records() {
    let mut n: Note<f64> = Note::new("n");
    n.commit_drawing(None, None, None);
    assert_eq!(n.undo_stack.len(), 1);
    assert_eq!(n.revision, 1);
}

#[test]
fn add_text_refuses_empty_text() {
    let mut n: Note<f64> = Note::new("n");
    assert!(!n.add_text(text("")));
    assert!(n.texts.is_empty());
    assert_eq!(n.revision, 0);
    assert!(n.undo_stack.is_empty());
    assert!(n.add_text(text("hello")));
    assert_eq!(n.texts.len(), 1);
    assert_eq!(n.texts[0].text, "hello");
    assert_eq!(n.undo_stack.len(), 1);
}

#[test]
fn delete_selected_then_undo_restores() {
    let mut n = note_with_strokes(4);
    n.shapes.push(shape_at(0.0));
    n.shapes.push(shape_at(5.0));
    let mut sel = Selection::new();
    sel.strokes.insert(0);
    sel.strokes.insert(2);
    sel.shapes.insert(1);
    n.delete_selected(&sel);
    assert_eq!(xs(&n.strokes), vec![1.0, 3.0]);
    assert_eq!(n.shapes.len(), 1);
    assert_eq!(n.shapes[0].x1, 0.0);
    n.undo();
    assert_eq!(xs(&n.strokes), vec![0.0, 1.0, 2.0, 3.0]);
    assert_eq!(n.shapes.len(), 2);
}

#[test]
fn cut_moves_selection_into_clipboard_note() {
    let mut n = note_with_strokes(5);
    n.images.push(CanvasImage { x: 0.0, y: 0.0, width: 4.0, height: 4.0, png_data: vec![1, 2] });
    n.bg_color = Some(black());
    let mut sel = Selection::new();
    sel.strokes.insert(1);
    sel.strokes.insert(3);
    sel.images.insert(0);
    let clip = n.cut_selected(&sel);
    assert_eq!(xs(&n.strokes), vec![0.0, 2.0, 4.0]);
    assert!(n.images.is_empty());
    assert!(n.bg_color.is_some());
    assert_eq!(xs(&clip.strokes), vec![3.0, 1.0]);
    assert_eq!(clip.images.len(), 1);
    assert_eq!(clip.images[0].png_data, vec![1, 2]);
    assert_eq!(clip.name, "");
    assert!(clip.bg_color.is_none());
    assert!(clip.undo_stack.is_empty());
}

#[test]
fn cut_then_paste_keeps_every_item() {
    let mut n = note_with_strokes(5);
    let mut sel = Selection::new();
    sel.strokes.insert(0);
    sel.strokes.insert(4);
    let clip = n.cut_selected(&sel);
    assert!(n.paste_items(clip));
    assert_eq!(xs(&n.strokes), vec![1.0, 2.0, 3.0, 4.0, 0.0]);
    let mut sorted = xs(&n.strokes);
    sorted.sort_by(|a, b| a.partial_cmp(b).unwrap());
    assert_eq!(sorted, vec![0.0, 1.0, 2.0, 3.0, 4.0]);
}

#[test]
fn paste_of_nothing_changes_nothing() {
    let mut n = note_with_strokes(2);
    let mut only_sprays: Note<f64> = Note::default();
    only_sprays.sprays.push(Spray { points: vec![], color: black(), radius: 1.0 });
    assert!(!n.paste_items(only_sprays));
    assert_eq!(n.revision, 0);
    assert!(n.undo_stack.is_empty());
    assert!(n.sprays.is_empty());
    assert_eq!(n.strokes.len(), 2);
}

#[test]
fn paste_appends_in_clipboard_order() {
    let mut n = note_with_strokes(1);
    let mut clip: Note<f64> = Note::default();
    clip.strokes.push(stroke_at(9.0));
    clip.strokes.push(stroke_at(8.0));
    clip.texts.push(text("t"));
    assert!(n.paste_items(clip));
    assert_eq!(xs(&n.strokes), vec![0.0, 9.0, 8.0]);
    assert_eq!(n.texts.len(), 1);
    n.undo();
    assert_eq!(xs(&n.strokes), vec![0.0]);
    assert!(n.texts.is_empty());
}

#[test]
fn selection_empty_and_clear() {
    let mut sel = Selection::default();
    assert!(sel.is_empty());
    sel.texts.insert(3);
    assert!(!sel.is_empty());
    sel.clear();
    assert!(sel.is_empty());
}

#[test]
fn selected_with_positions_in_increasing_order() {
    let items = vec![stroke_at(0.0), stroke_at(1.0), stroke_at(2.0), stroke_at(3.0)];
    let picked = roughnote::selection::selected_with_positions(&items, &set(&[3, 1, 9]));
    let seen: Vec<(usize, f64)> = picked.iter().map(|(i, s)| (*i, s.points[0].x)).collect();
    assert_eq!(seen, vec![(1, 1.0), (3, 3.0)]);
    assert!(roughnote::selection::selected_with_positions(&items, &set(&[])).is_empty());
}

#[test]
fn selection_fits_checks_every_kind() {
    let n = note_with_strokes(3);
    let mut sel = Selection::new();
    assert!(n.selection_fits(&sel));
    sel.strokes.insert(2);
    assert!(n.selection_fits(&sel));
    sel.strokes.insert(3);
    assert!(!n.selection_fits(&sel));
    sel.strokes.remove(&3);
    sel.texts.insert(0);
    assert!(!n.selection_fits(&sel));
}

#[test]
fn recordable_until_the_counter_is_full() {
    let mut n = note_with_strokes(0);
    assert!(n.is_recordable());
    n.revision = u64::MAX - 1;
    assert!(n.is_recordable());
    n.push_undo();
    assert!(!n.is_recordable());
}

#[test]
fn clones_keep_every_field() {
    let mut t = text("note");
    t.bg_color = Some(black());
    let c = t.clone();
    assert_eq!(c.text, "note");
    assert_eq!(c.font_family, "serif");
    assert_eq!((c.x, c.y, c.font_size), (3.0, 4.0, 24.0));
    assert!(c.bg_color.is_some());
    let s = stroke_at(7.0).clone();
    assert_eq!(s.points.len(), 1);
    assert_eq!(s.points[0].x, 7.0);
    let mut table: roughnote::model::CanvasTable<f64> = roughnote::model::CanvasTable::new(2, 2, 1.0, 1.0);
    table.cells[1][0] = "x".to_string();
    let tc = table.clone();
    assert_eq!(tc.cells, table.cells);
    assert_eq!(tc.cell_w, 120.0);
}
