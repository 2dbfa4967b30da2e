use vstd::prelude::*;

use crate::model::{Color, Shape, Spray, Stroke};
use crate::note::Note;
use crate::numbering::{decimal, numbered};
use crate::selection::Selection;
use crate::tool::Tool;

verus! {

/// A named collection of notes, one of which is the current one.
#[derive(Debug)]
pub struct Session<F> {
    pub name: String,
    pub notes: Vec<Note<F>>,
    pub current_note_idx: usize,
    /// The file the session was last saved to or opened from.
    pub save_path: Option<String>,
}

/// `s` is a session just made under the name `name`: one blank note, "Note 1",
/// current, and no file.
pub open spec fn is_new_session<F>(s: Session<F>, name: Seq<char>) -> bool {
    &&& s.name@ == name
    &&& s.notes@.len() == 1
    &&& s.notes@[0].name@ == "Note 1"@
    &&& s.notes@[0].is_fresh()
    &&& s.current_note_idx == 0
    &&& s.save_path.is_none()
}

impl<F> Session<F> {
    /// The current note exists.
    pub open spec fn wf(self) -> bool {
        self.current_note_idx < self.notes@.len()
    }

    /// A session named `name` holding one blank note, "Note 1", which is current.
    pub fn new(name: &str) -> (s: Session<F>)
        ensures
            is_new_session(s, name@),
            s.wf(),
    {
        Session {
            name: String::from_str(name),
            notes: vec![Note::new("Note 1")],
            current_note_idx: 0,
            save_path: None,
        }
    }
}

/// The whole editor: its sessions, the current one, the drawing settings and the clipboard.
#[derive(Debug)]
pub struct AppState<F> {
    pub sessions: Vec<Session<F>>,
    pub current_session_idx: usize,
    pub current_tool: Tool,
    pub current_color: Color<F>,
    pub line_width: F,
    pub zoom_level: F,
    pub canvas_width: F,
    pub canvas_height: F,
    pub clipboard_note: Note<F>,
}

impl<F> AppState<F> {
    /// The current session and, in every session, the current note exist.
    pub open spec fn wf(self) -> bool {
        &&& self.current_session_idx < self.sessions@.len()
        &&& forall|i: int| 0 <= i < self.sessions@.len() ==> #[trigger] self.sessions@[i].wf()
    }

    /// The current session and its current note exist.
    pub open spec fn has_current_note(self) -> bool {
        &&& self.current_session_idx < self.sessions@.len()
        &&& self.sessions@[self.current_session_idx as int].wf()
    }

    /// The current session.
    pub open spec fn session_in_use(self) -> Session<F> {
        self.sessions@[self.current_session_idx as int]
    }

    /// The current note of the current session.
    pub open spec fn note_in_use(self) -> Note<F> {
        self.session_in_use().notes@[self.session_in_use().current_note_idx as int]
    }

    /// Tool, colour, width, zoom and canvas size are the same in `a` and `b`.
    pub open spec fn same_settings(a: AppState<F>, b: AppState<F>) -> bool {
        &&& b.current_tool == a.current_tool
        &&& b.current_color == a.current_color
        &&& b.line_width == a.line_width
        &&& b.zoom_level == a.zoom_level
        &&& b.canvas_width == a.canvas_width
        &&& b.canvas_height == a.canvas_height
    }

    /// `new` is `old` with its current note replaced by `n`; all else, the clipboard
    /// aside, the same.
    pub open spec fn with_note_in_use(old: AppState<F>, new: AppState<F>, n: Note<F>) -> bool {
        let si = old.current_session_idx as int;
        let s0 = old.sessions@[si];
        let s1 = new.sessions@[si];
        &&& new.current_session_idx == old.current_session_idx
        &&& new.sessions@.len() == old.sessions@.len()
        &&& forall|i: int|
            0 <= i < old.sessions@.len() && i != si ==> #[trigger] new.sessions@[i]
                == old.sessions@[i]
        &&& s1.name == s0.name
        &&& s1.current_note_idx == s0.current_note_idx
        &&& s1.save_path == s0.save_path
        &&& s1.notes@ == s0.notes@.update(s0.current_note_idx as int, n)
        &&& Self::same_settings(old, new)
    }

    /// `new` is `old` with the session at `si` possibly changed and the current
    /// session possibly another one; the other sessions, settings and clipboard the same.
    pub open spec fn others_kept(old: AppState<F>, new: AppState<F>, si: int) -> bool {
        &&& new.sessions@.len() == old.sessions@.len()
        &&& forall|i: int|
            0 <= i < old.sessions@.len() && i != si ==> #[trigger] new.sessions@[i]
                == old.sessions@[i]
        &&& Self::same_settings(old, new)
        &&& new.clipboard_note == old.clipboard_note
    }

    /// The current session.
    pub fn current_session(&self) -> (s: &Session<F>)
        requires
            self.current_session_idx < self.sessions@.len(),
        ensures
            *s == self.session_in_use(),
    {
        &self.sessions[self.current_session_idx]
    }

    /// The current note of the current session.
    pub fn current_note(&self) -> (n: &Note<F>)
        requires
            self.has_current_note(),
        ensures
            *n == self.note_in_use(),
    {
        let s = self.current_session();
        &s.notes[s.current_note_idx]
    }

    /// The current note of the current session, to be changed in place.
    pub fn current_note_mut(&mut self) -> (n: &mut Note<F>)
        requires
            old(self).has_current_note(),
        ensures
            *n == old(self).note_in_use(),
            Self::with_note_in_use(*old(self), *final(self), *final(n)),
            final(self).clipboard_note == old(self).clipboard_note,
    {
        let si: usize = self.current_session_idx;
        let ni: usize = self.sessions[si].current_note_idx;
        &mut self.sessions[si].notes[ni]
    }
    /// An editor with one new session, "Session 1", current, the pen tool, an empty
    /// clipboard, and the given colour, line width, zoom and canvas size.
    pub fn new(
        current_color: Color<F>,
        line_width: F,
        zoom_level: F,
        canvas_width: F,
        canvas_height: F,
    ) -> (a: AppState<F>)
        ensures
            a.sessions@.len() == 1,
            is_new_session(a.sessions@[0], "Session 1"@),
            a.current_session_idx == 0,
            a.current_tool == Tool::Pen,
            a.current_color == current_color,
            a.line_width == line_width,
            a.zoom_level == zoom_level,
            a.canvas_width == canvas_width,
            a.canvas_height == canvas_height,
            a.clipboard_note.name@.len() == 0,
            a.clipboard_note.is_fresh(),
            a.wf(),
    {
        AppState {
            sessions: vec![Session::new("Session 1")],
            current_session_idx: 0,
            current_tool: Tool::Pen,
            current_color,
            line_width,
            zoom_level,
            canvas_width,
            canvas_height,
            clipboard_note: Note::default(),
        }
    }

    /// Appends a new session numbered after the count of sessions, as in "Session 2",
    /// and makes it current.
    pub fn add_session(&mut self)
        requires
            old(self).sessions@.len() < usize::MAX,
        ensures
            final(self).sessions@.len() == old(self).sessions@.len() + 1,
            forall|i: int|
                0 <= i < old(self).sessions@.len() ==> #[trigger] final(self).sessions@[i]
                    == old(self).sessions@[i],
            is_new_session(
                final(self).sessions@.last(),
                "Session "@ + decimal(old(self).sessions@.len() + 1),
            ),
            final(self).current_session_idx == old(self).sessions@.len(),
            Self::same_settings(*old(self), *final(self)),
            final(self).clipboard_note == old(self).clipboard_note,
            old(self).wf() ==> final(self).wf(),
    {
        let n: usize = self.sessions.len() + 1;
        let name = numbered("Session ", n);
        self.sessions.push(Session::new(name.as_str()));
        self.current_session_idx = self.sessions.len() - 1;
    }

    /// Makes the session at `si` current.
    pub fn select_session(&mut self, si: usize)
        requires
            si < old(self).sessions@.len(),
        ensures
            final(self).sessions == old(self).sessions,
            final(self).current_session_idx == si,
            Self::same_settings(*old(self), *final(self)),
            final(self).clipboard_note == old(self).clipboard_note,
            old(self).wf() ==> final(self).wf(),
    {
        self.current_session_idx = si;
    }

    /// Renames the session at `si`; an empty name is refused and changes nothing.
    pub fn rename_session(&mut self, si: usize, name: String) -> (renamed: bool)
        requires
            si < old(self).sessions@.len(),
        ensures
            renamed == (name@.len() > 0),
            renamed ==> {
                &&& Self::others_kept(*old(self), *final(self), si as int)
                &&& final(self).current_session_idx == old(self).current_session_idx
                &&& final(self).sessions@[si as int].name == name
                &&& final(self).sessions@[si as int].notes == old(self).sessions@[si as int].notes
                &&& final(self).sessions@[si as int].current_note_idx
                    == old(self).sessions@[si as int].current_note_idx
                &&& final(self).sessions@[si as int].save_path
                    == old(self).sessions@[si as int].save_path
            },
            !renamed ==> *final(self) == *old(self),
            old(self).wf() ==> final(self).wf(),
    {
        if name.as_str().is_empty() {
            return false;
        }
        self.sessions[si].name = name;
        proof {
            if old(self).wf() {
                assert forall|i: int| 0 <= i < self.sessions@.len() implies #[trigger] self.sessions@[i].wf() by {
                    if i != si {
                        assert(self.sessions@[i] == old(self).sessions@[i]);
                    } else {
                        assert(old(self).sessions@[i].wf());
                    }
                }
            }
        }
        true
    }

    /// Appends to the session at `si` a new note numbered after the count of its notes,
    /// as in "Note 2", and makes that note and that session current.
    pub fn add_note(&mut self, si: usize)
        requires
            si < old(self).sessions@.len(),
            old(self).sessions@[si as int].notes@.len() < usize::MAX,
        ensures
            Self::others_kept(*old(self), *final(self), si as int),
            final(self).current_session_idx == si,
            ({
                let s0 = old(self).sessions@[si as int];
                let s1 = final(self).sessions@[si as int];
                &&& s1.name == s0.name
                &&& s1.save_path == s0.save_path
                &&& s1.notes@.len() == s0.notes@.len() + 1
                &&& s1.notes@.drop_last() == s0.notes@
                &&& s1.notes@.last().name@ == "Note "@ + decimal(s0.notes@.len() + 1)
                &&& s1.notes@.last().is_fresh()
                &&& s1.current_note_idx == s0.notes@.len()
            }),
            old(self).wf() ==> final(self).wf(),
    {
        let n: usize = self.sessions[si].notes.len() + 1;
        let name = numbered("Note ", n);
        self.sessions[si].notes.push(Note::new(name.as_str()));
        let last: usize = self.sessions[si].notes.len() - 1;
        self.sessions[si].current_note_idx = last;
        self.current_session_idx = si;
        assert(self.sessions@[si as int].notes@.drop_last() =~= old(self).sessions@[si as int].notes@);
    }

    /// Closes the session at `si`, unless it is the only one. When the current session
    /// index then points past the end, the last session becomes current.
    pub fn close_session(&mut self, si: usize) -> (closed: bool)
        requires
            old(self).sessions@.len() != 1 ==> si < old(self).sessions@.len(),
        ensures
            closed == (old(self).sessions@.len() > 1),
            closed ==> {
                &&& final(self).sessions@ == old(self).sessions@.remove(si as int)
                &&& final(self).current_session_idx == if old(self).current_session_idx
                    >= old(self).sessions@.len() - 1 {
                    (old(self).sessions@.len() - 2) as usize
                } else {
                    old(self).current_session_idx
                }
                &&& Self::same_settings(*old(self), *final(self))
                &&& final(self).clipboard_note == old(self).clipboard_note
            },
            !closed ==> *final(self) == *old(self),
            final(self).sessions@.len() >= 1,
            old(self).wf() ==> final(self).wf(),
    {
        if self.sessions.len() == 1 {
            return false;
        }
        self.sessions.remove(si);
        if self.current_session_idx >= self.sessions.len() {
            self.current_session_idx = self.sessions.len() - 1;
        }
        true
    }

    /// Makes the note at `ni` of the session at `si` current, and that session too.
    pub fn select_note(&mut self, si: usize, ni: usize)
        requires
            si < old(self).sessions@.len(),
            ni < old(self).sessions@[si as int].notes@.len(),
        ensures
            Self::others_kept(*old(self), *final(self), si as int),
            final(self).current_session_idx == si,
            final(self).sessions@[si as int].current_note_idx == ni,
            final(self).sessions@[si as int].name == old(self).sessions@[si as int].name,
            final(self).sessions@[si as int].notes == old(self).sessions@[si as int].notes,
            final(self).sessions@[si as int].save_path == old(self).sessions@[si as int].save_path,
            old(self).wf() ==> final(self).wf(),
    {
        self.current_session_idx = si;
        self.sessions[si].current_note_idx = ni;
    }

    /// Renames the note at `ni` of the session at `si`; an empty name is refused and
    /// changes nothing.
    pub fn rename_note(&mut self, si: usize, ni: usize, name: String) -> (renamed: bool)
        requires
            si < old(self).sessions@.len(),
            ni < old(self).sessions@[si as int].notes@.len(),
        ensures
            renamed == (name@.len() > 0),
            renamed ==> {
                let s0 = old(self).sessions@[si as int];
                let s1 = final(self).sessions@[si as int];
                &&& Self::others_kept(*old(self), *final(self), si as int)
                &&& final(self).current_session_idx == old(self).current_session_idx
                &&& s1.name == s0.name
                &&& s1.current_note_idx == s0.current_note_idx
                &&& s1.save_path == s0.save_path
                &&& s1.notes@.len() == s0.notes@.len()
                &&& forall|j: int|
                    0 <= j < s0.notes@.len() && j != ni ==> #[trigger] s1.notes@[j] == s0.notes@[j]
                &&& s1.notes@[ni as int].name == name
                &&& s1.notes@[ni as int].page() == s0.notes@[ni as int].page()
                &&& s1.notes@[ni as int].undo_stack == s0.notes@[ni as int].undo_stack
                &&& s1.notes@[ni as int].redo_stack == s0.notes@[ni as int].redo_stack
                &&& s1.notes@[ni as int].revision == s0.notes@[ni as int].revision
            },
            !renamed ==> *final(self) == *old(self),
            old(self).wf() ==> final(self).wf(),
    {
        if name.as_str().is_empty() {
            return false;
        }
        self.sessions[si].notes[ni].name = name;
        proof {
            if old(self).wf() {
                assert forall|i: int| 0 <= i < self.sessions@.len() implies #[trigger] self.sessions@[i].wf() by {
                    if i != si {
                        assert(self.sessions@[i] == old(self).sessions@[i]);
                    } else {
                        assert(old(self).sessions@[i].wf());
                    }
                }
            }
        }
        true
    }

    /// Appends a session read from the file `path`, remembering that file, and makes it current.
    pub fn open_session(&mut self, session: Session<F>, path: String)
        ensures
            final(self).sessions@.len() == old(self).sessions@.len() + 1,
            final(self).sessions@.drop_last() == old(self).sessions@,
            final(self).sessions@.last().name == session.name,
            final(self).sessions@.last().notes == session.notes,
            final(self).sessions@.last().current_note_idx == session.current_note_idx,
            final(self).sessions@.last().save_path == Some(path),
            final(self).current_session_idx == old(self).sessions@.len(),
            Self::same_settings(*old(self), *final(self)),
            final(self).clipboard_note == old(self).clipboard_note,
            old(self).wf() && session.wf() ==> final(self).wf(),
    {
        let mut session = session;
        session.save_path = Some(path);
        self.sessions.push(session);
        self.current_session_idx = self.sessions.len() - 1;
        assert(self.sessions@.drop_last() =~= old(self).sessions@);
    }

    /// Remembers `path` as the file the current session was saved to.
    pub fn record_save_path(&mut self, path: String)
        requires
            old(self).current_session_idx < old(self).sessions@.len(),
        ensures
            Self::others_kept(*old(self), *final(self), old(self).current_session_idx as int),
            final(self).current_session_idx == old(self).current_session_idx,
            final(self).session_in_use().save_path == Some(path),
            final(self).session_in_use().name == old(self).session_in_use().name,
            final(self).session_in_use().notes == old(self).session_in_use().notes,
            final(self).session_in_use().current_note_idx
                == old(self).session_in_use().current_note_idx,
            old(self).wf() ==> final(self).wf(),
    {
        let si: usize = self.current_session_idx;
        self.sessions[si].save_path = Some(path);
        proof {
            if old(self).wf() {
                assert forall|i: int| 0 <= i < self.sessions@.len() implies #[trigger] self.sessions@[i].wf() by {
                    if i != si {
                        assert(self.sessions@[i] == old(self).sessions@[i]);
                    } else {
                        assert(old(self).sessions@[i].wf());
                    }
                }
            }
        }
    }
}

impl<F: Copy> AppState<F> {
    /// The Delete key: when something is selected, removes the selected items from the
    /// current note, after saving its content for undo, and deselects everything.
    /// With nothing selected, nothing changes.
    pub fn delete_selection(&mut self, sel: &mut Selection) -> (deleted: bool)
        requires
            !old(sel).is_blank() ==> {
                &&& old(self).has_current_note()
                &&& old(self).note_in_use().can_record()
                &&& old(self).note_in_use().fits(*old(sel))
            },
        ensures
            deleted == !old(sel).is_blank(),
            deleted ==> {
                &&& Self::with_note_in_use(*old(self), *final(self), final(self).note_in_use())
                &&& Note::selection_deleted(old(self).note_in_use(), final(self).note_in_use(), *old(sel))
                &&& final(self).clipboard_note == old(self).clipboard_note
                &&& final(sel).is_blank()
            },
            !deleted ==> *final(self) == *old(self) && *final(sel) == *old(sel),
            old(self).wf() ==> final(self).wf(),
    {
        if sel.is_empty() {
            return false;
        }
        let note = self.current_note_mut();
        note.delete_selected(sel);
        sel.clear();
        proof { self.lemma_replacing_note_keeps_wf(*old(self)); }
        true
    }

    /// Cut: when something is selected, moves the selected items of the current note,
    /// after saving its content for undo, into a fresh clipboard note (each kind from
    /// the highest position down) and deselects everything. With nothing selected,
    /// nothing changes.
    pub fn cut_selection(&mut self, sel: &mut Selection) -> (cut: bool)
        requires
            !old(sel).is_blank() ==> {
                &&& old(self).has_current_note()
                &&& old(self).note_in_use().can_record()
                &&& old(self).note_in_use().fits(*old(sel))
            },
        ensures
            cut == !old(sel).is_blank(),
            cut ==> {
                &&& Self::with_note_in_use(*old(self), *final(self), final(self).note_in_use())
                &&& Note::selection_deleted(old(self).note_in_use(), final(self).note_in_use(), *old(sel))
                &&& Note::is_cut_from(final(self).clipboard_note, old(self).note_in_use(), *old(sel))
                &&& final(sel).is_blank()
            },
            !cut ==> *final(self) == *old(self) && *final(sel) == *old(sel),
            old(self).wf() ==> final(self).wf(),
    {
        if sel.is_empty() {
            return false;
        }
        let note = self.current_note_mut();
        let clip = note.cut_selected(sel);
        self.clipboard_note = clip;
        sel.clear();
        proof { self.lemma_replacing_note_keeps_wf(*old(self)); }
        true
    }

    /// Paste from the clipboard: when `items` (the clipboard's contents as they are to be
    /// placed) holds strokes, shapes, images, tables or texts, appends them to the
    /// current note, after saving its content for undo, and deselects everything.
    /// Otherwise nothing changes.
    pub fn paste(&mut self, items: Note<F>, sel: &mut Selection) -> (pasted: bool)
        requires
            items.has_pastable() ==> {
                &&& old(self).has_current_note()
                &&& old(self).note_in_use().can_record()
            },
        ensures
            pasted == items.has_pastable(),
            pasted == (items.strokes@.len() + items.shapes@.len() + items.images@.len()
                + items.tables@.len() + items.texts@.len() > 0),
            pasted ==> final(self).note_in_use().texts@ == old(self).note_in_use().texts@
                + items.texts@,
            pasted ==> {
                &&& Self::with_note_in_use(*old(self), *final(self), final(self).note_in_use())
                &&& Note::items_pasted(old(self).note_in_use(), final(self).note_in_use(), items)
                &&& final(self).clipboard_note == old(self).clipboard_note
                &&& final(sel).is_blank()
            },
            !pasted ==> *final(self) == *old(self) && *final(sel) == *old(sel),
            old(self).wf() ==> final(self).wf(),
    {
        if !items.is_pastable() {
            return false;
        }
        let note = self.current_note_mut();
        note.paste_items(items);
        sel.clear();
        proof { self.lemma_replacing_note_keeps_wf(*old(self)); }
        true
    }

    /// Start of a drag: with the eraser, saves the current note's content for undo, so
    /// that undo gives back what the drag erases. With any other tool nothing changes.
    pub fn start_drag(&mut self) -> (recorded: bool)
        requires
            old(self).current_tool == Tool::Eraser ==> {
                &&& old(self).has_current_note()
                &&& old(self).note_in_use().can_record()
            },
        ensures
            recorded == (old(self).current_tool == Tool::Eraser),
            recorded ==> {
                &&& Self::with_note_in_use(*old(self), *final(self), final(self).note_in_use())
                &&& Note::recorded(old(self).note_in_use(), final(self).note_in_use())
                &&& final(self).clipboard_note == old(self).clipboard_note
            },
            !recorded ==> *final(self) == *old(self),
            old(self).wf() ==> final(self).wf(),
    {
        if self.current_tool != Tool::Eraser {
            return false;
        }
        let note = self.current_note_mut();
        note.push_undo();
        proof { self.lemma_replacing_note_keeps_wf(*old(self)); }
        true
    }

    /// End of a drag: with any tool but select, deselects everything; with any tool but
    /// select and the eraser, also keeps what the drag drew in the current note (see
    /// `Note::commit_drawing`). An eraser drag saved the content for undo when it began;
    /// with the select tool nothing changes here.
    pub fn finish_drawing(
        &mut self,
        stroke: Option<Stroke<F>>,
        spray: Option<Spray<F>>,
        shape: Option<Shape<F>>,
        sel: &mut Selection,
    ) -> (committed: bool)
        requires
            old(self).current_tool != Tool::Select && old(self).current_tool != Tool::Eraser ==> {
                &&& old(self).has_current_note()
                &&& old(self).note_in_use().can_record()
            },
        ensures
            committed == (old(self).current_tool != Tool::Select && old(self).current_tool
                != Tool::Eraser),
            committed ==> {
                &&& Self::with_note_in_use(*old(self), *final(self), final(self).note_in_use())
                &&& Note::drawing_committed(old(self).note_in_use(), final(self).note_in_use(), stroke, spray, shape)
                &&& final(self).clipboard_note == old(self).clipboard_note
            },
            !committed ==> *final(self) == *old(self),
            old(self).current_tool != Tool::Select ==> final(sel).is_blank(),
            old(self).current_tool == Tool::Select ==> *final(sel) == *old(sel),
            old(self).wf() ==> final(self).wf(),
    {
        if self.current_tool == Tool::Select {
            return false;
        }
        sel.clear();
        if self.current_tool == Tool::Eraser {
            return false;
        }
        let note = self.current_note_mut();
        note.commit_drawing(stroke, spray, shape);
        proof { self.lemma_replacing_note_keeps_wf(*old(self)); }
        true
    }

    /// Replacing the current note keeps the editor well formed.
    proof fn lemma_replacing_note_keeps_wf(self, prev: AppState<F>)
        requires
            prev.has_current_note(),
            Self::with_note_in_use(prev, self, self.note_in_use()),
        ensures
            prev.wf() ==> self.wf(),
    {
        if prev.wf() {
            let si = prev.current_session_idx as int;
            assert forall|i: int| 0 <= i < self.sessions@.len() implies #[trigger] self.sessions@[i].wf() by {
                if i != si {
                    assert(self.sessions@[i] == prev.sessions@[i]);
                } else {
                    assert(prev.sessions@[i].wf());
                }
            }
        }
    }
}

impl<F> Session<F> {
    /// `self` is a copy of `other`: same name, file and current note, and a copy of each note.
    pub open spec fn copy_of(self, other: Session<F>) -> bool {
        &&& self.name@ == other.name@
        &&& self.save_path == other.save_path
        &&& self.current_note_idx == other.current_note_idx
        &&& self.notes@.len() == other.notes@.len()
        &&& forall|i: int| 0 <= i < self.notes@.len() ==> (#[trigger] self.notes@[i]).copy_of(other.notes@[i])
    }
}

impl<F: Copy> Clone for Session<F> {
    fn clone(&self) -> (s: Self)
        ensures
            s.copy_of(*self),
    {
        let notes = self.notes.clone();
        Session {
            name: self.name.clone(),
            notes,
            current_note_idx: self.current_note_idx,
            save_path: self.save_path.clone(),
        }
    }
}

impl<F> AppState<F> {
    /// `self` is a copy of `other`: the same settings, a copy of each session and of the clipboard.
    pub open spec fn copy_of(self, other: AppState<F>) -> bool {
        &&& Self::same_settings(other, self)
        &&& self.current_session_idx == other.current_session_idx
        &&& self.sessions@.len() == other.sessions@.len()
        &&& forall|i: int| 0 <= i < self.sessions@.len() ==> (#[trigger] self.sessions@[i]).copy_of(other.sessions@[i])
        &&& self.clipboard_note.copy_of(other.clipboard_note)
    }
}

impl<F: Copy> Clone for AppState<F> {
    fn clone(&self) -> (a: Self)
        ensures
            a.copy_of(*self),
    {
        AppState {
            sessions: self.sessions.clone(),
            current_session_idx: self.current_session_idx,
            current_tool: self.current_tool,
            current_color: self.current_color,
            line_width: self.line_width,
            zoom_level: self.zoom_level,
            canvas_width: self.canvas_width,
            canvas_height: self.canvas_height,
            clipboard_note: self.clipboard_note.clone(),
        }
    }
}

} // verus!
