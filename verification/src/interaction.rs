//! Decisions taken on user input.
//!
//! The browser shell reads each event, asks these functions what to do, and
//! carries the answer out on the canvas state (pan, zoom, note geometry) and
//! the page.  Every choice that depends only on keys, buttons, element ids and
//! interaction flags is made here.
use vstd::prelude::*;

use crate::sticky_notes::{handle_cursor, ResizeHandle};
use crate::strings::str_eq;

verus! {

/// What a key press on the canvas does.
#[derive(Debug, Clone, Copy, PartialEq, Eq, Structural)]
pub enum KeyCommand {
    PanLeft,
    PanRight,
    PanUp,
    PanDown,
    ZoomIn,
    ZoomOut,
    ResetView,
    DeleteSelected,
    Unhandled,
}

/// The command bound to `key`; Delete and Backspace act only while a note
/// is selected.
pub open spec fn spec_key_command(key: Seq<char>, has_selection: bool) -> KeyCommand {
    if key == "ArrowLeft"@ {
        KeyCommand::PanLeft
    } else if key == "ArrowRight"@ {
        KeyCommand::PanRight
    } else if key == "ArrowUp"@ {
        KeyCommand::PanUp
    } else if key == "ArrowDown"@ {
        KeyCommand::PanDown
    } else if key == "+"@ || key == "="@ {
        KeyCommand::ZoomIn
    } else if key == "-"@ || key == "_"@ {
        KeyCommand::ZoomOut
    } else if key == "0"@ || key == "Home"@ {
        KeyCommand::ResetView
    } else if (key == "Delete"@ || key == "Backspace"@) && has_selection {
        KeyCommand::DeleteSelected
    } else {
        KeyCommand::Unhandled
    }
}

/// Which command a key gives depends on the selection only for the delete
/// keys: pan, zoom and reset keys, and every other key, act the same whether
/// or not a note is selected.
pub proof fn law_only_delete_keys_read_the_selection(key: Seq<char>)
    requires
        key != "Delete"@,
        key != "Backspace"@,
    ensures
        spec_key_command(key, true) == spec_key_command(key, false),
{
}

/// The keys and the commands they give: the arrows pan, `+` and `=` zoom in,
/// `-` and `_` zoom out, `0` and `Home` reset the view, with or without a
/// selected note; `Delete` and `Backspace` delete the selected note when there
/// is one and are not handled otherwise.
pub proof fn law_key_table(has_selection: bool)
    ensures
        spec_key_command("ArrowLeft"@, has_selection) == KeyCommand::PanLeft,
        spec_key_command("ArrowRight"@, has_selection) == KeyCommand::PanRight,
        spec_key_command("ArrowUp"@, has_selection) == KeyCommand::PanUp,
        spec_key_command("ArrowDown"@, has_selection) == KeyCommand::PanDown,
        spec_key_command("+"@, has_selection) == KeyCommand::ZoomIn,
        spec_key_command("="@, has_selection) == KeyCommand::ZoomIn,
        spec_key_command("-"@, has_selection) == KeyCommand::ZoomOut,
        spec_key_command("_"@, has_selection) == KeyCommand::ZoomOut,
        spec_key_command("0"@, has_selection) == KeyCommand::ResetView,
        spec_key_command("Home"@, has_selection) == KeyCommand::ResetView,
        spec_key_command("Delete"@, has_selection) == (if has_selection {
            KeyCommand::DeleteSelected
        } else {
            KeyCommand::Unhandled
        }),
        spec_key_command("Backspace"@, has_selection) == (if has_selection {
            KeyCommand::DeleteSelected
        } else {
            KeyCommand::Unhandled
        }),
{
    reveal_strlit("ArrowLeft");
    reveal_strlit("ArrowRight");
    reveal_strlit("ArrowUp");
    reveal_strlit("ArrowDown");
    reveal_strlit("+");
    reveal_strlit("=");
    reveal_strlit("-");
    reveal_strlit("_");
    reveal_strlit("0");
    reveal_strlit("Home");
    reveal_strlit("Delete");
    reveal_strlit("Backspace");
    assert("ArrowLeft"@.len() == 9 && "ArrowRight"@.len() == 10 && "ArrowUp"@.len() == 7);
    assert("ArrowDown"@.len() == 9 && "ArrowDown"@[5] != "ArrowLeft"@[5]);
    assert("Home"@.len() == 4 && "Delete"@.len() == 6 && "Backspace"@.len() == 9);
    assert("Backspace"@[0] != "ArrowLeft"@[0] && "Backspace"@[0] != "ArrowDown"@[0]);
    assert("+"@.len() == 1 && "="@.len() == 1 && "-"@.len() == 1 && "_"@.len() == 1);
    assert("0"@.len() == 1 && "+"@[0] != "="@[0] && "-"@[0] != "_"@[0]);
    assert("-"@[0] != "+"@[0] && "-"@[0] != "="@[0] && "_"@[0] != "+"@[0] && "_"@[0] != "="@[0]);
    assert("0"@[0] != "+"@[0] && "0"@[0] != "="@[0] && "0"@[0] != "-"@[0] && "0"@[0] != "_"@[0]);
}

impl KeyCommand {
    /// Whether the key was handled, so that the browser default is suppressed
    /// and the canvas redrawn.
    pub fn is_handled(&self) -> (b: bool)
        ensures
            b == !(*self is Unhandled),
    {
        match self {
            KeyCommand::Unhandled => false,
            _ => true,
        }
    }
}

/// The command for a key press on the canvas.
pub fn key_command(key: &str, has_selection: bool) -> (c: KeyCommand)
    ensures
        c == spec_key_command(key@, has_selection),
{
    if str_eq(key, "ArrowLeft") {
        KeyCommand::PanLeft
    } else if str_eq(key, "ArrowRight") {
        KeyCommand::PanRight
    } else if str_eq(key, "ArrowUp") {
        KeyCommand::PanUp
    } else if str_eq(key, "ArrowDown") {
        KeyCommand::PanDown
    } else if str_eq(key, "+") || str_eq(key, "=") {
        KeyCommand::ZoomIn
    } else if str_eq(key, "-") || str_eq(key, "_") {
        KeyCommand::ZoomOut
    } else if str_eq(key, "0") || str_eq(key, "Home") {
        KeyCommand::ResetView
    } else if (str_eq(key, "Delete") || str_eq(key, "Backspace")) && has_selection {
        KeyCommand::DeleteSelected
    } else {
        KeyCommand::Unhandled
    }
}

/// What a mouse press on the canvas starts.
#[derive(Debug, Clone, Copy, PartialEq, Eq, Structural)]
pub enum PressAction {
    /// Not the primary button: nothing happens.
    Ignore,
    /// Resize the given note with the given handle.
    StartResize(u32, ResizeHandle),
    /// Drag the given note (and select it).
    StartNoteDrag(u32),
    /// Clear the selection and pan the canvas.
    StartPan,
}

/// The action for a canvas press with mouse button `button`: a resize handle
/// of the selected note under the cursor wins, then the topmost note under the
/// cursor, then the canvas itself.
pub fn canvas_press_action(
    button: i16,
    handle_hit: Option<(u32, ResizeHandle)>,
    note_hit: Option<u32>,
) -> (a: PressAction)
    ensures
        button != 0 ==> a is Ignore,
        button == 0 ==> a == match handle_hit {
            Some(h) => PressAction::StartResize(h.0, h.1),
            None => match note_hit {
                Some(id) => PressAction::StartNoteDrag(id),
                None => PressAction::StartPan,
            },
        },
{
    if button != 0 {
        return PressAction::Ignore;
    }
    match handle_hit {
        Some(h) => PressAction::StartResize(h.0, h.1),
        None => match note_hit {
            Some(id) => PressAction::StartNoteDrag(id),
            None => PressAction::StartPan,
        },
    }
}

/// What a mouse move updates.
#[derive(Debug, Clone, Copy, PartialEq, Eq, Structural)]
pub enum MoveAction {
    /// The toolbar moved: reposition it and stop.
    MoveToolbar,
    /// Move the dragged note to the cursor.
    DragNote,
    /// Resize the note being resized with this handle.
    ResizeNote(ResizeHandle),
    /// Pan the canvas if a pan is in progress.
    PanCanvas,
}

/// The action for a mouse move: a toolbar drag first, then a note drag, then
/// a resize that has both a target note and a handle, then canvas panning.
pub fn pointer_move_action(
    toolbar_moved: bool,
    note_dragging: bool,
    resizing: bool,
    resize_note: Option<u32>,
    resize_handle: Option<ResizeHandle>,
) -> (a: MoveAction)
    ensures
        a == (if toolbar_moved {
            MoveAction::MoveToolbar
        } else if note_dragging {
            MoveAction::DragNote
        } else if resizing && resize_note is Some && resize_handle is Some {
            MoveAction::ResizeNote(resize_handle.unwrap())
        } else {
            MoveAction::PanCanvas
        }),
{
    if toolbar_moved {
        MoveAction::MoveToolbar
    } else if note_dragging {
        MoveAction::DragNote
    } else if resizing && resize_note.is_some() {
        match resize_handle {
            Some(h) => MoveAction::ResizeNote(h),
            None => MoveAction::PanCanvas,
        }
    } else {
        MoveAction::PanCanvas
    }
}

/// What a press on the floating toolbar does.
#[derive(Debug, Clone, Copy, PartialEq, Eq, Structural)]
pub enum ToolbarPress {
    /// Let the event reach the pressed button.
    Ignore,
    /// Clear the note selection and start dragging the toolbar.
    StartDrag,
    /// Clear the note selection.
    ClearSelection,
}

/// The action for a toolbar press with `button` on the element with id
/// `target_id` (`None` when the target is not an HTML element).
pub fn toolbar_press_action(button: i16, target_id: Option<&str>) -> (a: ToolbarPress)
    ensures
        a == (if button != 0 {
            ToolbarPress::Ignore
        } else {
            match target_id {
                Some(id) => if id@ == "floating-toolbar-handle"@ {
                    ToolbarPress::StartDrag
                } else if id@ == "floating-toolbar"@ {
                    ToolbarPress::ClearSelection
                } else {
                    ToolbarPress::Ignore
                },
                None => ToolbarPress::Ignore,
            }
        }),
{
    if button != 0 {
        return ToolbarPress::Ignore;
    }
    match target_id {
        Some(id) => if str_eq(id, "floating-toolbar-handle") {
            ToolbarPress::StartDrag
        } else if str_eq(id, "floating-toolbar") {
            ToolbarPress::ClearSelection
        } else {
            ToolbarPress::Ignore
        },
        None => ToolbarPress::Ignore,
    }
}

/// The cursor shown over the canvas.
pub open spec fn spec_canvas_cursor(
    hovered_handle: Option<ResizeHandle>,
    over_note: bool,
    panning: bool,
) -> Seq<char> {
    match hovered_handle {
        Some(h) => handle_cursor(h),
        None => if over_note {
            "grab"@
        } else if panning {
            "grabbing"@
        } else {
            "grab"@
        },
    }
}

/// The canvas cursor: the resize cursor over a handle of the selected note,
/// "grab" over a note, "grabbing" while panning, "grab" otherwise.
pub fn canvas_cursor(hovered_handle: Option<ResizeHandle>, over_note: bool, panning: bool) -> (c:
    &'static str)
    ensures
        c@ == spec_canvas_cursor(hovered_handle, over_note, panning),
{
    match hovered_handle {
        Some(h) => h.cursor(),
        None => if over_note {
            "grab"
        } else if panning {
            "grabbing"
        } else {
            "grab"
        },
    }
}

/// The toolbar cursor: "grabbing" while it is dragged, "grab" otherwise.
pub fn toolbar_cursor(dragging: bool) -> (c: &'static str)
    ensures
        c@ == (if dragging {
            "grabbing"@
        } else {
            "grab"@
        }),
{
    if dragging {
        "grabbing"
    } else {
        "grab"
    }
}

/// The drag operations that may be in progress on the canvas.
#[derive(Debug, Clone, Copy, PartialEq, Eq, Structural)]
pub struct DragStatus {
    /// The canvas is being panned.
    pub viewport_dragging: bool,
    /// A note is being dragged.
    pub note_dragging: bool,
    /// A note is being resized.
    pub resizing: bool,
}

/// Ends every drag operation in progress (when the mouse is released, leaves
/// the document, or the window loses focus).  Returns whether any was in
/// progress, in which case the canvas is redrawn.
pub fn end_drag_if_needed(status: &mut DragStatus) -> (render: bool)
    ensures
        !final(status).viewport_dragging,
        !final(status).note_dragging,
        !final(status).resizing,
        render == (old(status).viewport_dragging || old(status).note_dragging
            || old(status).resizing),
{
    let mut render = false;
    if status.viewport_dragging {
        status.viewport_dragging = false;
        render = true;
    }
    if status.note_dragging {
        status.note_dragging = false;
        render = true;
    }
    if status.resizing {
        status.resizing = false;
        render = true;
    }
    render
}

/// Ends a toolbar drag in progress.  Returns whether one was, in which case
/// the toolbar is repositioned.
pub fn end_toolbar_drag_if_needed(dragging: &mut bool) -> (reposition: bool)
    ensures
        !*final(dragging),
        reposition == *old(dragging),
{
    if *dragging {
        *dragging = false;
        true
    } else {
        false
    }
}

/// What a key press inside the note editor does.
#[derive(Debug, Clone, Copy, PartialEq, Eq, Structural)]
pub enum EditorKey {
    /// A clipboard or undo shortcut: left entirely to the browser.
    PassThrough,
    /// Tab: kept inside the editor, its default suppressed.
    KeepTab,
    /// Enter: the edit is kept and the editor closed.
    Confirm,
    /// Escape: the original content is restored and the editor closed.
    Cancel,
    /// Any other key: handled by the editor alone.
    Other,
}

/// The shortcut letters that pass through with Ctrl or Cmd held.
pub open spec fn is_shortcut_letter(key: Seq<char>) -> bool {
    key == "a"@ || key == "c"@ || key == "v"@ || key == "x"@ || key == "z"@ || key == "y"@
}

/// The action for a key press in the note editor.
pub fn editor_key(key: &str, ctrl_or_meta: bool) -> (k: EditorKey)
    ensures
        k == (if ctrl_or_meta && is_shortcut_letter(key@) {
            EditorKey::PassThrough
        } else if key@ == "Tab"@ {
            EditorKey::KeepTab
        } else if key@ == "Enter"@ {
            EditorKey::Confirm
        } else if key@ == "Escape"@ {
            EditorKey::Cancel
        } else {
            EditorKey::Other
        }),
{
    let shortcut = str_eq(key, "a") || str_eq(key, "c") || str_eq(key, "v") || str_eq(key, "x")
        || str_eq(key, "z") || str_eq(key, "y");
    if ctrl_or_meta && shortcut {
        EditorKey::PassThrough
    } else if str_eq(key, "Tab") {
        EditorKey::KeepTab
    } else if str_eq(key, "Enter") {
        EditorKey::Confirm
    } else if str_eq(key, "Escape") {
        EditorKey::Cancel
    } else {
        EditorKey::Other
    }
}

/// What happens after one attempt to draw the canvas.
#[derive(Debug, Clone, Copy, PartialEq, Eq, Structural)]
pub enum RenderStep {
    /// The frame was drawn.
    Done,
    /// Draw again.
    Retry,
    /// Give up retrying: recover the context, then draw once more or fall back.
    Recover,
}

/// The number of failed attempts after which drawing stops retrying.
pub const MAX_RENDER_ATTEMPTS: u32 = 3;

/// The step after a drawing attempt, given the failures before it; returns
/// the step and the failure count after it.
pub fn render_attempt_outcome(succeeded: bool, failures: u32) -> (r: (RenderStep, u32))
    requires
        failures < MAX_RENDER_ATTEMPTS,
    ensures
        succeeded ==> r == (RenderStep::Done, failures),
        !succeeded ==> r.1 == failures + 1 && r.0 == (if failures + 1 >= MAX_RENDER_ATTEMPTS {
            RenderStep::Recover
        } else {
            RenderStep::Retry
        }),
{
    if succeeded {
        (RenderStep::Done, failures)
    } else {
        let count = failures + 1;
        if count >= MAX_RENDER_ATTEMPTS {
            (RenderStep::Recover, count)
        } else {
            (RenderStep::Retry, count)
        }
    }
}

/// How the sign-in controls are shown.
#[derive(Debug, Clone, Copy, PartialEq, Eq)]
pub struct AuthControls {
    /// Whether the sign-in overlay is hidden.
    pub overlay_hidden: bool,
    /// The inline style of the sign-in overlay.
    pub overlay_style: &'static str,
    /// The inline style of the toolbar's sign-in button.
    pub login_button_style: &'static str,
    /// The inline style of the toolbar's sign-out button.
    pub logout_button_style: &'static str,
}

/// The sign-in controls for the given state: a signed-in user sees no overlay
/// and the sign-out button; anyone else sees the overlay and the sign-in button.
pub fn auth_controls(authenticated: bool) -> (c: AuthControls)
    ensures
        c.overlay_hidden == authenticated,
        authenticated ==> c.overlay_style@ == "display: none;"@ && c.login_button_style@
            == "display: none;"@ && c.logout_button_style@ == "display: block;"@,
        !authenticated ==> c.overlay_style@ == "display: block;"@ && c.login_button_style@
            == "display: block;"@ && c.logout_button_style@ == "display: none;"@,
{
    if authenticated {
        AuthControls {
            overlay_hidden: true,
            overlay_style: "display: none;",
            login_button_style: "display: none;",
            logout_button_style: "display: block;",
        }
    } else {
        AuthControls {
            overlay_hidden: false,
            overlay_style: "display: block;",
            login_button_style: "display: block;",
            logout_button_style: "display: none;",
        }
    }
}

/// What a key press in a note's text area does in the component front end.
#[derive(Debug, Clone, Copy, PartialEq, Eq, Structural)]
pub enum NoteEditKey {
    /// Enter without Shift: the draft is saved.
    Save,
    /// Escape: the draft is discarded.
    Cancel,
    /// Any other key: typed into the text area.
    Other,
}

/// The action for a key press in a note's text area.
pub fn note_edit_key(key: &str, shift: bool) -> (k: NoteEditKey)
    ensures
        k == (if key@ == "Enter"@ && !shift {
            NoteEditKey::Save
        } else if key@ == "Escape"@ {
            NoteEditKey::Cancel
        } else {
            NoteEditKey::Other
        }),
{
    if str_eq(key, "Enter") && !shift {
        NoteEditKey::Save
    } else if str_eq(key, "Escape") {
        NoteEditKey::Cancel
    } else {
        NoteEditKey::Other
    }
}

/// A zoom shortcut of the component front end.
#[derive(Debug, Clone, Copy, PartialEq, Eq, Structural)]
pub enum ZoomShortcut {
    ZoomIn,
    ZoomOut,
    /// Not a zoom shortcut: the key is left to the browser.
    NotShortcut,
}

/// The zoom shortcut for a key press on the canvas: with Ctrl or Cmd held,
/// "+" or "=" zooms in and "-" zooms out.
pub fn zoom_shortcut(key: &str, ctrl_or_meta: bool) -> (z: ZoomShortcut)
    ensures
        z == (if ctrl_or_meta && (key@ == "+"@ || key@ == "="@) {
            ZoomShortcut::ZoomIn
        } else if ctrl_or_meta && key@ == "-"@ {
            ZoomShortcut::ZoomOut
        } else {
            ZoomShortcut::NotShortcut
        }),
{
    if !ctrl_or_meta {
        ZoomShortcut::NotShortcut
    } else if str_eq(key, "+") || str_eq(key, "=") {
        ZoomShortcut::ZoomIn
    } else if str_eq(key, "-") {
        ZoomShortcut::ZoomOut
    } else {
        ZoomShortcut::NotShortcut
    }
}

} // verus!
