use cocomiro::interaction::{zoom_shortcut, ZoomShortcut};
use cocomiro::interaction::{note_edit_key, NoteEditKey};
use cocomiro::interaction::{
    auth_controls, canvas_cursor, canvas_press_action, editor_key, end_drag_if_needed,
    end_toolbar_drag_if_needed, key_command, pointer_move_action, render_attempt_outcome,
    toolbar_cursor, toolbar_press_action, DragStatus, EditorKey, KeyCommand, MoveAction,
    PressAction, RenderStep, ToolbarPress,
};
use cocomiro::sticky_notes::ResizeHandle;

#[test]
fn arrow_keys_pan_and_signs_zoom() {
    assert_eq!(key_command("ArrowLeft", false), KeyCommand::PanLeft);
    assert_eq!(key_command("ArrowRight", false), KeyCommand::PanRight);
    assert_eq!(key_command("ArrowUp", true), KeyCommand::PanUp);
    assert_eq!(key_command("ArrowDown", false), KeyCommand::PanDown);
    assert_eq!(key_command("+", false), KeyCommand::ZoomIn);
    assert_eq!(key_command("=", false), KeyCommand::ZoomIn);
    assert_eq!(key_command("-", false), KeyCommand::ZoomOut);
    assert_eq!(key_command("_", false), KeyCommand::ZoomOut);
    assert_eq!(key_command("0", false), KeyCommand::ResetView);
    assert_eq!(key_command("Home", false), KeyCommand::ResetView);
}

#[test]
fn delete_needs_a_selection() {
    assert_eq!(key_command("Delete", true), KeyCommand::DeleteSelected);
    assert_eq!(key_command("Backspace", true), KeyCommand::DeleteSelected);
    assert_eq!(key_command("Delete", false), KeyCommand::Unhandled);
    assert!(!key_command("Backspace", false).is_handled());
    assert!(!key_command("q", true).is_handled());
    assert!(key_command("Home", false).is_handled());
}

#[test]
fn press_priorities() {
    let handle = Some((4, ResizeHandle::Left));
    assert_eq!(canvas_press_action(0, handle, Some(9)), PressAction::StartResize(4, ResizeHandle::Left));
    assert_eq!(canvas_press_action(0, None, Some(9)), PressAction::StartNoteDrag(9));
    assert_eq!(canvas_press_action(0, None, None), PressAction::StartPan);
    assert_eq!(canvas_press_action(2, handle, Some(9)), PressAction::Ignore);
}

#[test]
fn move_priorities() {
    assert_eq!(pointer_move_action(true, true, true, Some(1), Some(ResizeHandle::Top)), MoveAction::MoveToolbar);
    assert_eq!(pointer_move_action(false, true, true, Some(1), Some(ResizeHandle::Top)), MoveAction::DragNote);
    assert_eq!(
        pointer_move_action(false, false, true, Some(1), Some(ResizeHandle::Top)),
        MoveAction::ResizeNote(ResizeHandle::Top)
    );
    assert_eq!(pointer_move_action(false, false, true, None, Some(ResizeHandle::Top)), MoveAction::PanCanvas);
    assert_eq!(pointer_move_action(false, false, false, None, None), MoveAction::PanCanvas);
}

#[test]
fn toolbar_press_targets() {
    assert_eq!(toolbar_press_action(0, Some("floating-toolbar-handle")), ToolbarPress::StartDrag);
    assert_eq!(toolbar_press_action(0, Some("floating-toolbar")), ToolbarPress::ClearSelection);
    assert_eq!(toolbar_press_action(0, Some("add-note-button")), ToolbarPress::Ignore);
    assert_eq!(toolbar_press_action(0, None), ToolbarPress::Ignore);
    assert_eq!(toolbar_press_action(1, Some("floating-toolbar-handle")), ToolbarPress::Ignore);
}

#[test]
fn cursors() {
    assert_eq!(canvas_cursor(Some(ResizeHandle::TopRight), true, true), "ne-resize");
    assert_eq!(canvas_cursor(None, true, true), "grab");
    assert_eq!(canvas_cursor(None, false, true), "grabbing");
    assert_eq!(canvas_cursor(None, false, false), "grab");
    assert_eq!(toolbar_cursor(true), "grabbing");
    assert_eq!(toolbar_cursor(false), "grab");
}

#[test]
fn ending_drags() {
    let mut status = DragStatus { viewport_dragging: false, note_dragging: true, resizing: false };
    assert!(end_drag_if_needed(&mut status));
    assert_eq!(status, DragStatus { viewport_dragging: false, note_dragging: false, resizing: false });
    assert!(!end_drag_if_needed(&mut status));
    let mut toolbar = true;
    assert!(end_toolbar_drag_if_needed(&mut toolbar));
    assert!(!toolbar);
    assert!(!end_toolbar_drag_if_needed(&mut toolbar));
}

#[test]
fn editor_keys() {
    assert_eq!(editor_key("c", true), EditorKey::PassThrough);
    assert_eq!(editor_key("c", false), EditorKey::Other);
    assert_eq!(editor_key("Tab", true), EditorKey::KeepTab);
    assert_eq!(editor_key("Enter", false), EditorKey::Confirm);
    assert_eq!(editor_key("Escape", false), EditorKey::Cancel);
    assert_eq!(editor_key("b", true), EditorKey::Other);
}

#[test]
fn render_retries_then_recovers() {
    assert_eq!(render_attempt_outcome(true, 0), (RenderStep::Done, 0));
    assert_eq!(render_attempt_outcome(false, 0), (RenderStep::Retry, 1));
    assert_eq!(render_attempt_outcome(false, 1), (RenderStep::Retry, 2));
    assert_eq!(render_attempt_outcome(false, 2), (RenderStep::Recover, 3));
}

#[test]
fn sign_in_controls() {
    let signed_in = auth_controls(true);
    assert!(signed_in.overlay_hidden);
    assert_eq!(signed_in.login_button_style, "display: none;");
    assert_eq!(signed_in.logout_button_style, "display: block;");
    let signed_out = auth_controls(false);
    assert!(!signed_out.overlay_hidden);
    assert_eq!(signed_out.overlay_style, "display: block;");
    assert_eq!(signed_out.logout_button_style, "display: none;");
}

#[test]
fn note_textarea_keys() {
    assert_eq!(note_edit_key("Enter", false), NoteEditKey::Save);
    assert_eq!(note_edit_key("Enter", true), NoteEditKey::Other);
    assert_eq!(note_edit_key("Escape", false), NoteEditKey::Cancel);
    assert_eq!(note_edit_key("Escape", true), NoteEditKey::Cancel);
    assert_eq!(note_edit_key("a", false), NoteEditKey::Other);
}

#[test]
fn zoom_shortcuts_need_ctrl_or_cmd() {
    assert_eq!(zoom_shortcut("+", true), ZoomShortcut::ZoomIn);
    assert_eq!(zoom_shortcut("=", true), ZoomShortcut::ZoomIn);
    assert_eq!(zoom_shortcut("-", true), ZoomShortcut::ZoomOut);
    assert_eq!(zoom_shortcut("_", true), ZoomShortcut::NotShortcut);
    assert_eq!(zoom_shortcut("+", false), ZoomShortcut::NotShortcut);
}
