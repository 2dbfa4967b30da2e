//! Model and editing rules of a drawing and note-taking canvas: tools,
//! drawing items, notes with a bounded undo/redo history, sessions of
//! notes, and the selection that delete, cut and paste act on.
//!
//! Drawing items are generic over the scalar type `F` of their
//! coordinates; the rules here never look at coordinate values.

pub mod tool;
pub mod model;
pub mod note;
pub mod selection;
pub mod numbering;
pub mod session;
pub mod sidebar;
