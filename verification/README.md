# roughnote

The model and editing rules of RoughNote, a drawing and note-taking canvas, as a
library verified with Verus, plus the GTK4 program around it.

- `src/tool.rs` — tools and shape kinds; which shape a drag draws, which cursor a tool shows.
- `src/model.rs` — drawing items (strokes, sprays, shapes, images, texts, tables), generic
  over the coordinate scalar `F`.
- `src/note.rs` — a note's content and its bounded undo/redo history; the edits a note
  takes (finished drags, fill, text, delete, cut, paste), each undoable; history laws.
- `src/selection.rs` — the selection, removing and taking selected items; cut-and-paste law.
- `src/session.rs` — sessions of notes and the editor state: adding, selecting, renaming,
  closing and opening sessions and notes, and the selection commands on the current note.
- `src/sidebar.rs` — the rows of the sidebar listing and which of them are highlighted.
- `src/numbering.rs` — decimal labels such as "Note 12".
- `app/` — the GTK4 user interface, cairo rendering, floating-point geometry and JSON
  saving and loading (serde), with `f64` coordinates.
- `tests/` — tests of the library.
