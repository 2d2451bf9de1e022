use cocomiro::board::OutsideClick;
use cocomiro::board::{StickyNotesAction, StickyNotesState};

type Board = StickyNotesState<(f64, f64), (f64, f64)>;

fn board_with_two_notes() -> Board {
    let board = Board::new();
    let board = board.reduce(StickyNotesAction::CreateNote("note-1".to_string(), (10.0, 20.0), (200.0, 150.0)));
    board.reduce(StickyNotesAction::CreateNote("note-2".to_string(), (300.0, 40.0), (200.0, 150.0)))
}

#[test]
fn create_note_appends_a_default_note() {
    let board = board_with_two_notes();
    assert_eq!(board.notes.len(), 2);
    assert_eq!(board.notes[0].id, "note-1");
    assert_eq!(board.notes[0].content, "New sticky note");
    assert_eq!(board.notes[0].position, (10.0, 20.0));
    assert_eq!(board.notes[1].id, "note-2");
    assert_eq!(board.notes[1].size, (200.0, 150.0));
    assert!(board.editing_note_id.is_none());
    assert!(board.selected_note_id.is_none());
}

#[test]
fn saving_an_edit_writes_the_draft() {
    let board = board_with_two_notes();
    let board = board.reduce(StickyNotesAction::StartEdit("note-2".to_string()));
    assert_eq!(board.editing_note_id.as_deref(), Some("note-2"));
    assert_eq!(board.editing_content.as_deref(), Some("New sticky note"));
    let board = board.reduce(StickyNotesAction::UpdateContent("Buy milk".to_string()));
    assert_eq!(board.editing_content.as_deref(), Some("Buy milk"));
    let board = board.reduce(StickyNotesAction::SaveEdit);
    assert_eq!(board.notes[1].content, "Buy milk");
    assert_eq!(board.notes[0].content, "New sticky note");
    assert!(board.editing_note_id.is_none());
    assert!(board.editing_content.is_none());
}

#[test]
fn cancelling_an_edit_keeps_the_content() {
    let board = board_with_two_notes();
    let board = board.reduce(StickyNotesAction::StartEdit("note-1".to_string()));
    let board = board.reduce(StickyNotesAction::UpdateContent("draft".to_string()));
    let board = board.reduce(StickyNotesAction::CancelEdit);
    assert_eq!(board.notes[0].content, "New sticky note");
    assert!(board.editing_note_id.is_none());
    assert!(board.editing_content.is_none());
}

#[test]
fn editing_an_unknown_note_has_no_draft() {
    let board = board_with_two_notes();
    let board = board.reduce(StickyNotesAction::StartEdit("missing".to_string()));
    assert_eq!(board.editing_note_id.as_deref(), Some("missing"));
    assert!(board.editing_content.is_none());
    let board = board.reduce(StickyNotesAction::SaveEdit);
    assert_eq!(board.editing_note_id.as_deref(), Some("missing"));
    assert_eq!(board.notes[0].content, "New sticky note");
    assert_eq!(board.notes[1].content, "New sticky note");
}

#[test]
fn moving_a_note_changes_only_its_position() {
    let board = board_with_two_notes();
    let board = board.reduce(StickyNotesAction::UpdatePosition("note-1".to_string(), (55.5, 66.0)));
    assert_eq!(board.notes[0].position, (55.5, 66.0));
    assert_eq!(board.notes[1].position, (300.0, 40.0));
    assert_eq!(board.notes[0].content, "New sticky note");
}

#[test]
fn selecting_and_deselecting() {
    let board = board_with_two_notes();
    let board = board.reduce(StickyNotesAction::SelectNote("note-2".to_string()));
    assert_eq!(board.selected_note_id.as_deref(), Some("note-2"));
    let board = board.reduce(StickyNotesAction::DeselectNote);
    assert!(board.selected_note_id.is_none());
}

#[test]
fn clicking_outside_saves_then_deselects() {
    let board = board_with_two_notes();
    assert_eq!(board.outside_click(), OutsideClick::Ignore);
    let board = board.reduce(StickyNotesAction::SelectNote("note-1".to_string()));
    assert_eq!(board.outside_click(), OutsideClick::Deselect);
    let board = board.reduce(StickyNotesAction::StartEdit("note-1".to_string()));
    assert_eq!(board.outside_click(), OutsideClick::SaveAndDeselect);
}
