use vstd::prelude::*;

verus! {

/// The tool that the pointer currently acts with.
#[derive(Clone, Copy, Debug, PartialEq, Eq, Structural, Hash)]
pub enum Tool {
    Pen,
    Eraser,
    Fill,
    Spray,
    Select,
    Text,
    Sticky,
    Highlighter,
    Line,
    Rectangle,
    Circle,
    Arrow,
    Star,
    Heart,
    Triangle,
    Diamond,
    Cloud,
    Database,
    Actor,
    UmlClass,
    RoundedRect,
}

/// The kind of a geometric shape on the canvas.
#[derive(Clone, Copy, Debug, PartialEq, Eq, Structural)]
pub enum ShapeKind {
    Line,
    Rectangle,
    Circle,
    Arrow,
    Star,
    Heart,
    Triangle,
    Diamond,
    Cloud,
    Database,
    Actor,
    UmlClass,
    RoundedRect,
}

impl Default for Tool {
    fn default() -> (t: Tool)
        ensures
            t == Tool::Pen,
    {
        Tool::Pen
    }
}

impl Tool {
    /// The pointer cursor shown while the tool is active.
    pub open spec fn cursor_of(self) -> Seq<char> {
        match self {
            Tool::Select => "default"@,
            Tool::Text => "text"@,
            Tool::Fill => "cell"@,
            _ => "crosshair"@,
        }
    }

    /// The name of the pointer cursor shown while the tool is active.
    pub fn cursor_name(&self) -> (name: &'static str)
        ensures
            name@ == self.cursor_of(),
    {
        match self {
            Tool::Select => "default",
            Tool::Text => "text",
            Tool::Fill => "cell",
            _ => "crosshair",
        }
    }
}

impl ShapeKind {
    /// The shape that dragging with `tool` previews and draws, for the tools that
    /// neither ink, spray, erase nor select. Each shape tool draws its own shape;
    /// every other tool draws a line.
    pub open spec fn of_tool(tool: Tool) -> ShapeKind {
        match tool {
            Tool::Line => ShapeKind::Line,
            Tool::Rectangle => ShapeKind::Rectangle,
            Tool::Circle => ShapeKind::Circle,
            Tool::Arrow => ShapeKind::Arrow,
            Tool::Star => ShapeKind::Star,
            Tool::Heart => ShapeKind::Heart,
            Tool::Triangle => ShapeKind::Triangle,
            Tool::Diamond => ShapeKind::Diamond,
            Tool::Cloud => ShapeKind::Cloud,
            Tool::Database => ShapeKind::Database,
            Tool::Actor => ShapeKind::Actor,
            Tool::UmlClass => ShapeKind::UmlClass,
            Tool::RoundedRect => ShapeKind::RoundedRect,
            _ => ShapeKind::Line,
        }
    }

    /// The shape that dragging with `tool` previews and draws (see `of_tool`).
    pub fn for_tool(tool: &Tool) -> (kind: ShapeKind)
        ensures
            kind == Self::of_tool(*tool),
    {
        match tool {
            Tool::Line => ShapeKind::Line,
            Tool::Rectangle => ShapeKind::Rectangle,
            Tool::Circle => ShapeKind::Circle,
            Tool::Arrow => ShapeKind::Arrow,
            Tool::Star => ShapeKind::Star,
            Tool::Heart => ShapeKind::Heart,
            Tool::Triangle => ShapeKind::Triangle,
            Tool::Diamond => ShapeKind::Diamond,
            Tool::Cloud => ShapeKind::Cloud,
            Tool::Database => ShapeKind::Database,
            Tool::Actor => ShapeKind::Actor,
            Tool::UmlClass => ShapeKind::UmlClass,
            Tool::RoundedRect => ShapeKind::RoundedRect,
            _ => ShapeKind::Line,
        }
    }
}

} // verus!
