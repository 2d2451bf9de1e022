//! Integer-valued parts of the sticky-note model: formatting spans and the
//! resize handles around a selected note.
use vstd::prelude::*;

verus! {

/// Formatting for a range of characters in a sticky note's content.
#[derive(Debug, Clone, Copy, PartialEq, Eq)]
pub struct TextFormat {
    /// Start character position (inclusive).
    pub start: usize,
    /// End character position (exclusive).
    pub end: usize,
    /// Whether the range is bold.
    pub bold: bool,
    /// Whether the range is italic.
    pub italic: bool,
    /// Whether the range is underlined.
    pub underline: bool,
}

/// The eight handles on a selected note's border that resize it.
#[derive(Debug, Clone, Copy, PartialEq, Eq, Structural)]
pub enum ResizeHandle {
    TopLeft,
    Top,
    TopRight,
    Right,
    BottomRight,
    Bottom,
    BottomLeft,
    Left,
}

/// The CSS cursor shown over a handle: diagonal for corners, vertical for
/// the top and bottom edges, horizontal for the side edges.
pub open spec fn handle_cursor(h: ResizeHandle) -> Seq<char> {
    match h {
        ResizeHandle::TopLeft | ResizeHandle::BottomRight => "nw-resize"@,
        ResizeHandle::Top | ResizeHandle::Bottom => "n-resize"@,
        ResizeHandle::TopRight | ResizeHandle::BottomLeft => "ne-resize"@,
        ResizeHandle::Left | ResizeHandle::Right => "e-resize"@,
    }
}

impl ResizeHandle {
    /// The CSS cursor for this handle.
    pub fn cursor(&self) -> (c: &'static str)
        ensures
            c@ == handle_cursor(*self),
    {
        match self {
            ResizeHandle::TopLeft | ResizeHandle::BottomRight => "nw-resize",
            ResizeHandle::Top | ResizeHandle::Bottom => "n-resize",
            ResizeHandle::TopRight | ResizeHandle::BottomLeft => "ne-resize",
            ResizeHandle::Left | ResizeHandle::Right => "e-resize",
        }
    }
}

} // verus!
