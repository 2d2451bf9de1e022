use cocomiro::note_store::NoteStore;
use cocomiro::sticky_notes::ResizeHandle;

fn store_with(ids: &[u32]) -> NoteStore<&'static str> {
    let mut store = NoteStore::new();
    for id in ids {
        store.add_note(*id, "note");
    }
    store
}

#[test]
fn notes_are_added_on_top() {
    let mut store = NoteStore::new();
    store.add_note(1, "a");
    store.add_note(2, "b");
    assert_eq!(store.notes.len(), 2);
    assert_eq!(store.notes[1].id, 2);
    assert_eq!(store.get_note(2), Some(&"b"));
    assert_eq!(store.get_note(3), None);
    assert_eq!(store.find_index(1), Some(0));
}

#[test]
fn dragging_selects_existing_notes_only() {
    let mut store = store_with(&[5, 6]);
    assert!(!store.start_drag(9));
    assert!(!store.is_dragging);
    assert_eq!(store.selected_note_id, None);
    assert!(store.start_drag(6));
    assert!(store.is_dragging);
    assert_eq!(store.selected_note_id, Some(6));
    store.end_drag();
    assert!(!store.is_dragging);
    assert_eq!(store.selected_note_id, Some(6));
}

#[test]
fn deleting_removes_only_the_selected_note() {
    let mut store = store_with(&[1, 2, 3]);
    store.delete_selected();
    assert_eq!(store.notes.len(), 3);
    store.selected_note_id = Some(2);
    store.delete_selected();
    let ids: Vec<u32> = store.notes.iter().map(|e| e.id).collect();
    assert_eq!(ids, vec![1, 3]);
    assert_eq!(store.selected_note_id, None);
}

#[test]
fn resize_and_clear_selection() {
    let mut store = store_with(&[4]);
    store.start_resize(7, ResizeHandle::Top);
    assert_eq!(store.selected_note_id, None);
    store.start_resize(4, ResizeHandle::Top);
    assert_eq!(store.selected_note_id, Some(4));
    store.end_resize();
    assert_eq!(store.selected_note_id, Some(4));
    store.clear_selection();
    assert_eq!(store.selected_note_id, None);
}

#[test]
fn topmost_hit_prefers_later_notes() {
    let store = store_with(&[10, 20, 30]);
    assert_eq!(store.topmost_hit(&[true, true, false]), Some(20));
    assert_eq!(store.topmost_hit(&[true, false, false]), Some(10));
    assert_eq!(store.topmost_hit(&[false, false, false]), None);
    assert_eq!(store.topmost_hit(&[true, true, true]), Some(30));
}

#[test]
fn sticky_notes_delete_selected_note() {
    let mut state: NoteStore<(f64, f64)> = NoteStore::new();
    let note1_id = 1;
    let note2_id = 2;
    state.add_note(note1_id, (0.0, 0.0));
    state.add_note(note2_id, (100.0, 100.0));
    state.selected_note_id = Some(note2_id);
    state.delete_selected();
    assert_eq!(state.notes.len(), 1);
    assert_eq!(state.notes[0].id, note1_id);
    assert!(state.selected_note_id.is_none());
}

#[test]
fn sticky_note_selection_clearing() {
    let mut state: NoteStore<(f64, f64)> = NoteStore::new();
    let note_id = 7;
    state.add_note(note_id, (100.0, 100.0));
    state.selected_note_id = Some(note_id);
    assert_eq!(state.selected_note_id, Some(note_id));
    state.clear_selection();
    assert!(state.selected_note_id.is_none());
}

#[test]
fn toolbar_background_click_clears_selection() {
    let mut state: NoteStore<(f64, f64)> = NoteStore::new();
    let note_id = 3;
    state.add_note(note_id, (100.0, 100.0));
    state.selected_note_id = Some(note_id);
    assert_eq!(state.selected_note_id, Some(note_id));
    state.clear_selection();
    assert!(state.selected_note_id.is_none());
}

#[test]
fn toolbar_handle_click_clears_selection() {
    let mut state: NoteStore<(f64, f64)> = NoteStore::new();
    let note_id = 4;
    state.add_note(note_id, (100.0, 100.0));
    state.selected_note_id = Some(note_id);
    assert_eq!(state.selected_note_id, Some(note_id));
    state.clear_selection();
    assert!(state.selected_note_id.is_none());
}

#[test]
fn a_deleted_note_is_no_longer_found() {
    let mut store = store_with(&[1, 2, 2, 3]);
    store.selected_note_id = Some(2);
    store.delete_selected();
    assert_eq!(store.get_note(2), None);
    assert_eq!(store.find_index(2), None);
    assert_eq!(store.find_index(3), Some(1));
    store.add_note(2, "again");
    assert_eq!(store.find_index(2), Some(2));
    assert_eq!(store.get_note(2), Some(&"again"));
}
