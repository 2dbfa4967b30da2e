use roughnote::model::{Color, Point, Stroke};
use roughnote::note::Note;
use roughnote::selection::Selection;
use roughnote::session::{AppState, Session};
use roughnote::tool::Tool;
use std::collections::HashSet;

fn black() -> Color<f64> {
    Color { r: 0.05, g: 0.05, b: 0.05, a: 1.0 }
}

fn app() -> AppState<f64> {
    AppState::new(black(), 2.0, 1.0, 1600.0, 1200.0)
}

fn stroke_at(x: f64) -> Stroke<f64> {
    Stroke { points: vec![Point { x, y: 1.0 }], color: black(), width: 2.0, is_highlighter: false }
}

fn names(a: &AppState<f64>) -> Vec<String> {
    a.sessions.iter().map(|s| s.name.clone()).collect()
}

#[test]
fn new_app_has_one_session_with_one_note() {
    let a = app();
    assert_eq!(names(&a), vec!["Session 1".to_string()]);
    assert_eq!(a.current_session_idx, 0);
    assert_eq!(a.current_tool, Tool::Pen);
    assert_eq!(a.line_width, 2.0);
    assert_eq!(a.zoom_level, 1.0);
    assert_eq!(a.canvas_width, 1600.0);
    assert_eq!(a.canvas_height, 1200.0);
    assert_eq!(a.current_session().name, "Session 1");
    assert_eq!(a.current_note().name, "Note 1");
    assert!(a.clipboard_note.strokes.is_empty());
}

#[test]
fn session_new_holds_note_one() {
    let s: Session<f64> = Session::new("Work");
    assert_eq!(s.name, "Work");
    assert_eq!(s.notes.len(), 1);
    assert_eq!(s.notes[0].name, "Note 1");
    assert_eq!(s.current_note_idx, 0);
    assert!(s.save_path.is_none());
}

#[test]
fn add_session_numbers_and_selects() {
    let mut a = app();
    a.add_session();
    a.add_session();
    assert_eq!(names(&a), vec!["Session 1", "Session 2", "Session 3"]);
    assert_eq!(a.current_session_idx, 2);
    for _ in 0..8 {
        a.add_session();
    }
    assert_eq!(a.sessions[10].name, "Session 11");
    assert_eq!(a.current_session_idx, 10);
}

#[test]
fn add_note_numbers_and_selects() {
    let mut a = app();
    a.add_session();
    a.add_note(0);
    assert_eq!(a.current_session_idx, 0);
    assert_eq!(a.sessions[0].notes.len(), 2);
    assert_eq!(a.sessions[0].notes[1].name, "Note 2");
    assert_eq!(a.sessions[0].current_note_idx, 1);
    assert_eq!(a.current_note().name, "Note 2");
}

#[test]
fn close_session_keeps_the_last_one() {
    let mut a = app();
    assert!(!a.close_session(0));
    assert_eq!(a.sessions.len(), 1);
}

#[test]
fn close_session_clamps_current() {
    let mut a = app();
    a.add_session();
    a.add_session();
    assert_eq!(a.current_session_idx, 2);
    assert!(a.close_session(2));
    assert_eq!(names(&a), vec!["Session 1", "Session 2"]);
    assert_eq!(a.current_session_idx, 1);
    // closing an earlier session keeps the index, which now names the next session
    a.add_session();
    a.select_session(1);
    assert!(a.close_session(0));
    assert_eq!(names(&a), vec!["Session 2", "Session 3"]);
    assert_eq!(a.current_session_idx, 1);
}

#[test]
fn rename_refuses_empty_names() {
    let mut a = app();
    assert!(!a.rename_session(0, String::new()));
    assert_eq!(a.sessions[0].name, "Session 1");
    assert!(a.rename_session(0, "Ideas".to_string()));
    assert_eq!(a.sessions[0].name, "Ideas");
    assert!(!a.rename_note(0, 0, String::new()));
    assert_eq!(a.sessions[0].notes[0].name, "Note 1");
    assert!(a.rename_note(0, 0, "Sketch".to_string()));
    assert_eq!(a.current_note().name, "Sketch");
}

#[test]
fn select_note_switches_session_too() {
    let mut a = app();
    a.add_session();
    a.add_note(1);
    a.select_note(0, 0);
    assert_eq!(a.current_session_idx, 0);
    a.select_note(1, 0);
    assert_eq!(a.current_session_idx, 1);
    assert_eq!(a.sessions[1].current_note_idx, 0);
}

#[test]
fn open_session_appends_and_remembers_path() {
    let mut a = app();
    let loaded: Session<f64> = Session::new("Loaded");
    a.open_session(loaded, "/tmp/x.json".to_string());
    assert_eq!(a.sessions.len(), 2);
    assert_eq!(a.current_session_idx, 1);
    assert_eq!(a.current_session().save_path.as_deref(), Some("/tmp/x.json"));
    a.select_session(0);
    a.record_save_path("/tmp/y.json".to_string());
    assert_eq!(a.sessions[0].save_path.as_deref(), Some("/tmp/y.json"));
    assert_eq!(a.sessions[1].save_path.as_deref(), Some("/tmp/x.json"));
}

#[test]
fn current_note_mut_edits_the_current_note() {
    let mut a = app();
    a.add_note(0);
    a.current_note_mut().strokes.push(stroke_at(1.0));
    assert_eq!(a.sessions[0].notes[1].strokes.len(), 1);
    assert!(a.sessions[0].notes[0].strokes.is_empty());
}

#[test]
fn delete_selection_on_current_note() {
    let mut a = app();
    for i in 0..3 {
        a.current_note_mut().strokes.push(stroke_at(i as f64));
    }
    let mut sel = Selection::new();
    assert!(!a.delete_selection(&mut sel));
    assert_eq!(a.current_note().revision, 0);
    sel.strokes.insert(1);
    assert!(a.delete_selection(&mut sel));
    assert!(sel.is_empty());
    let left: Vec<f64> = a.current_note().strokes.iter().map(|s| s.points[0].x).collect();
    assert_eq!(left, vec![0.0, 2.0]);
    a.current_note_mut().undo();
    assert_eq!(a.current_note().strokes.len(), 3);
}

#[test]
fn cut_and_paste_through_the_clipboard() {
    let mut a = app();
    for i in 0..3 {
        a.current_note_mut().strokes.push(stroke_at(i as f64));
    }
    let mut sel = Selection::new();
    assert!(!a.cut_selection(&mut sel));
    sel.strokes.insert(0);
    sel.strokes.insert(2);
    assert!(a.cut_selection(&mut sel));
    assert!(sel.is_empty());
    assert_eq!(a.current_note().strokes.len(), 1);
    assert_eq!(a.clipboard_note.strokes.len(), 2);
    assert_eq!(a.clipboard_note.strokes[0].points[0].x, 2.0);
    a.add_note(0);
    let items: Note<f64> = Note {
        strokes: a.clipboard_note.strokes.clone(),
        ..Note::default()
    };
    sel.texts.insert(0);
    assert!(a.paste(items, &mut sel));
    assert!(sel.is_empty());
    assert_eq!(a.current_note().strokes.len(), 2);
    assert!(!a.paste(Note::default(), &mut sel));
    assert_eq!(a.current_note().undo_stack.len(), 1);
}

#[test]
fn finish_drawing_commits_unless_selecting() {
    let mut a = app();
    let mut sel = Selection::new();
    sel.shapes.insert(0);
    assert!(a.finish_drawing(Some(stroke_at(1.0)), None, None, &mut sel));
    assert!(sel.is_empty());
    assert_eq!(a.current_note().strokes.len(), 1);
    a.current_tool = Tool::Select;
    sel.shapes.insert(0);
    assert!(!a.finish_drawing(Some(stroke_at(2.0)), None, None, &mut sel));
    assert_eq!(a.current_note().strokes.len(), 1);
    assert!(!sel.is_empty());
    a.current_tool = Tool::Eraser;
    let undo_before = a.current_note().undo_stack.len();
    assert!(!a.finish_drawing(None, None, None, &mut sel));
    assert!(sel.is_empty());
    assert_eq!(a.current_note().undo_stack.len(), undo_before);
}

#[test]
fn eraser_drag_can_be_undone() {
    let mut a = app();
    for i in 0..4 {
        a.current_note_mut().strokes.push(stroke_at(i as f64));
    }
    a.current_tool = Tool::Pen;
    assert!(!a.start_drag());
    assert_eq!(a.current_note().revision, 0);
    a.current_tool = Tool::Eraser;
    assert!(a.start_drag());
    assert_eq!(a.current_note().undo_stack.len(), 1);
    let none: HashSet<usize> = HashSet::new();
    a.current_note_mut().erase(&[1usize].into_iter().collect(), &none);
    a.current_note_mut().erase(&[0usize, 2].into_iter().collect(), &none);
    let left: Vec<f64> = a.current_note().strokes.iter().map(|s| s.points[0].x).collect();
    assert_eq!(left, vec![2.0]);
    let mut sel = Selection::new();
    assert!(!a.finish_drawing(None, None, None, &mut sel));
    a.current_note_mut().undo();
    assert_eq!(a.current_note().strokes.len(), 4);
}

#[test]
fn clones_copy_the_whole_editor() {
    let mut a = app();
    a.current_note_mut().strokes.push(stroke_at(3.0));
    a.current_note_mut().push_undo();
    a.add_session();
    a.record_save_path("/tmp/z.json".to_string());
    let b = a.clone();
    assert_eq!(b.sessions.len(), 2);
    assert_eq!(b.current_session_idx, 1);
    assert_eq!(b.sessions[1].save_path.as_deref(), Some("/tmp/z.json"));
    assert_eq!(b.sessions[0].notes[0].strokes[0].points[0].x, 3.0);
    assert_eq!(b.sessions[0].notes[0].undo_stack.len(), 1);
    assert_eq!(b.sessions[0].notes[0].revision, 1);
    let s = a.sessions[0].clone();
    assert_eq!(s.name, "Session 1");
    let n = a.sessions[0].notes[0].clone();
    assert_eq!(n.undo_stack[0].strokes.len(), 1);
    assert!(!format!("{:?}", n).is_empty());
}

#[test]
fn sidebar_lists_sessions_and_notes() {
    let mut a = app();
    a.add_note(0);
    a.add_session();
    a.select_note(0, 1);
    let rows = a.sidebar_rows();
    let view: Vec<(usize, Option<usize>, String, bool)> =
        rows.iter().map(|r| (r.session, r.note, r.label.clone(), r.selected)).collect();
    assert_eq!(
        view,
        vec![
            (0, None, "Session 1".to_string(), true),
            (0, Some(0), "Note 1".to_string(), false),
            (0, Some(1), "Note 2".to_string(), true),
            (1, None, "Session 2".to_string(), false),
            (1, Some(0), "Note 1".to_string(), false),
        ]
    );
}
