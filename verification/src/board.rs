//! The component tree's state of the sticky notes: the notes, the note being
//! edited with its draft text, and the selected note, changed one action at a
//! time by a reducer.
//!
//! A note's position and size are the shell's geometry (`P`, `S`); the reducer
//! only copies them.  Every decision it takes reads identifiers and texts.
use vstd::prelude::*;

use crate::shared::{NoteView, StickyNote};

verus! {

/// The sticky notes of the board, the note being edited with its draft, and
/// the selected note.
#[derive(Debug, Clone, PartialEq)]
pub struct StickyNotesState<P, S> {
    pub notes: Vec<StickyNote<P, S>>,
    pub editing_note_id: Option<String>,
    pub editing_content: Option<String>,
    pub selected_note_id: Option<String>,
}

/// What can happen to the board's notes.
#[derive(Debug, Clone)]
pub enum StickyNotesAction<P, S> {
    /// A new note with the given identifier, position and size.
    CreateNote(String, P, S),
    /// Editing of the note with the given identifier begins.
    StartEdit(String),
    /// The draft text of the note being edited changes.
    UpdateContent(String),
    /// The draft becomes the content of the note being edited.
    SaveEdit,
    /// The draft is discarded.
    CancelEdit,
    /// The note with the given identifier moves.
    UpdatePosition(String, P),
    /// The note with the given identifier becomes the selected one.
    SelectNote(String),
    /// No note is selected any more.
    DeselectNote,
}

/// What a click on the board outside any note does.
#[derive(Debug, Clone, Copy, PartialEq, Eq, Structural)]
pub enum OutsideClick {
    /// A note is being edited: save the draft, then deselect.
    SaveAndDeselect,
    /// A note is selected: deselect it.
    Deselect,
    /// Nothing to do; the click keeps its default.
    Ignore,
}

/// The board with its texts taken as character sequences.
pub struct BoardView<P, S> {
    pub notes: Seq<NoteView<P, S>>,
    pub editing_note_id: Option<Seq<char>>,
    pub editing_content: Option<Seq<char>>,
    pub selected_note_id: Option<Seq<char>>,
}

/// The characters of an optional text.
pub open spec fn text_view(t: Option<String>) -> Option<Seq<char>> {
    match t {
        Some(s) => Some(s@),
        None => None,
    }
}

impl<P, S> View for StickyNotesState<P, S> {
    type V = BoardView<P, S>;

    open spec fn view(&self) -> BoardView<P, S> {
        BoardView {
            notes: self.notes@.map_values(|n: StickyNote<P, S>| n@),
            editing_note_id: text_view(self.editing_note_id),
            editing_content: text_view(self.editing_content),
            selected_note_id: text_view(self.selected_note_id),
        }
    }
}

/// The content of the first note with identifier `id`, if there is one.
pub open spec fn content_of<P, S>(notes: Seq<NoteView<P, S>>, id: Seq<char>) -> Option<Seq<char>>
    decreases notes.len(),
{
    if notes.len() == 0 {
        None
    } else if notes[0].id == id {
        Some(notes[0].content)
    } else {
        content_of(notes.drop_first(), id)
    }
}

/// `notes` with the content of every note whose identifier is `id` replaced
/// by `content`.
pub open spec fn with_content<P, S>(
    notes: Seq<NoteView<P, S>>,
    id: Seq<char>,
    content: Seq<char>,
) -> Seq<NoteView<P, S>> {
    notes.map_values(
        |n: NoteView<P, S>|
            if n.id == id {
                NoteView { id: n.id, position: n.position, content, size: n.size }
            } else {
                n
            },
    )
}

/// `notes` with every note whose identifier is `id` moved to `position`.
pub open spec fn with_position<P, S>(
    notes: Seq<NoteView<P, S>>,
    id: Seq<char>,
    position: P,
) -> Seq<NoteView<P, S>> {
    notes.map_values(
        |n: NoteView<P, S>|
            if n.id == id {
                NoteView { id: n.id, position, content: n.content, size: n.size }
            } else {
                n
            },
    )
}

/// The text a new note starts with.
pub open spec fn new_note_text() -> Seq<char> {
    "New sticky note"@
}

/// The board after `action`.
pub open spec fn reduced<P, S>(b: BoardView<P, S>, action: StickyNotesAction<P, S>) -> BoardView<P, S> {
    match action {
        StickyNotesAction::CreateNote(id, position, size) => BoardView {
            notes: b.notes.push(NoteView { id: id@, position, content: new_note_text(), size }),
            ..b
        },
        StickyNotesAction::StartEdit(id) => BoardView {
            editing_note_id: Some(id@),
            editing_content: content_of(b.notes, id@),
            ..b
        },
        StickyNotesAction::UpdateContent(content) => BoardView {
            editing_content: Some(content@),
            ..b
        },
        StickyNotesAction::SaveEdit => match (b.editing_note_id, b.editing_content) {
            (Some(id), Some(content)) => BoardView {
                notes: with_content(b.notes, id, content),
                editing_note_id: None,
                editing_content: None,
                ..b
            },
            _ => b,
        },
        StickyNotesAction::CancelEdit => BoardView {
            editing_note_id: None,
            editing_content: None,
            ..b
        },
        StickyNotesAction::UpdatePosition(id, position) => BoardView {
            notes: with_position(b.notes, id@, position),
            ..b
        },
        StickyNotesAction::SelectNote(id) => BoardView { selected_note_id: Some(id@), ..b },
        StickyNotesAction::DeselectNote => BoardView { selected_note_id: None, ..b },
    }
}

impl<P: Copy, S> StickyNotesState<P, S> {
    /// An empty board: no notes, nothing edited or selected.
    pub fn new() -> (s: Self)
        ensures
            s@.notes.len() == 0,
            s@.editing_note_id is None,
            s@.editing_content is None,
            s@.selected_note_id is None,
    {
        StickyNotesState {
            notes: Vec::new(),
            editing_note_id: None,
            editing_content: None,
            selected_note_id: None,
        }
    }

    /// What a click outside the notes does: an edit in progress is saved and
    /// the selection cleared; otherwise a selection is cleared.
    pub fn outside_click(&self) -> (c: OutsideClick)
        ensures
            c == (if self.editing_note_id is Some {
                OutsideClick::SaveAndDeselect
            } else if self.selected_note_id is Some {
                OutsideClick::Deselect
            } else {
                OutsideClick::Ignore
            }),
    {
        if self.editing_note_id.is_some() {
            OutsideClick::SaveAndDeselect
        } else if self.selected_note_id.is_some() {
            OutsideClick::Deselect
        } else {
            OutsideClick::Ignore
        }
    }

    /// The board after `action`.
    pub fn reduce(self, action: StickyNotesAction<P, S>) -> (r: Self)
        ensures
            r@ == reduced(self@, action),
    {
        let ghost b = self@;
        match action {
            StickyNotesAction::CreateNote(id, position, size) => {
                let mut notes = self.notes;
                notes.push(
                    StickyNote { id, position, content: String::from_str("New sticky note"), size },
                );
                let r = StickyNotesState { notes, ..self };
                assert(r@.notes =~= b.notes.push(notes@.last()@));
                r
            },
            StickyNotesAction::StartEdit(id) => {
                let editing_content = Self::find_content(&self.notes, &id);
                StickyNotesState {
                    editing_note_id: Some(id),
                    editing_content,
                    ..self
                }
            },
            StickyNotesAction::UpdateContent(content) => StickyNotesState {
                editing_content: Some(content),
                ..self
            },
            StickyNotesAction::SaveEdit => {
                match (self.editing_note_id, self.editing_content) {
                    (Some(id), Some(content)) => {
                        let notes = Self::set_content(self.notes, &id, &content);
                        StickyNotesState {
                            notes,
                            editing_note_id: None,
                            editing_content: None,
                            selected_note_id: self.selected_note_id,
                        }
                    },
                    (editing_note_id, editing_content) => StickyNotesState {
                        notes: self.notes,
                        editing_note_id,
                        editing_content,
                        selected_note_id: self.selected_note_id,
                    },
                }
            },
            StickyNotesAction::CancelEdit => StickyNotesState {
                editing_note_id: None,
                editing_content: None,
                ..self
            },
            StickyNotesAction::UpdatePosition(id, position) => {
                let notes = Self::set_position(self.notes, &id, position);
                StickyNotesState { notes, ..self }
            },
            StickyNotesAction::SelectNote(id) => StickyNotesState {
                selected_note_id: Some(id),
                ..self
            },
            StickyNotesAction::DeselectNote => StickyNotesState { selected_note_id: None, ..self },
        }
    }

    /// A copy of the content of the first note with identifier `id`.
    fn find_content(notes: &Vec<StickyNote<P, S>>, id: &String) -> (r: Option<String>)
        ensures
            text_view(r) == content_of(notes@.map_values(|n: StickyNote<P, S>| n@), id@),
    {
        let ghost all = notes@.map_values(|n: StickyNote<P, S>| n@);
        let n = notes.len();
        let mut i: usize = 0;
        assert(all.subrange(0, n as int) =~= all);
        while i < n
            invariant
                n == notes@.len(),
                all == notes@.map_values(|n: StickyNote<P, S>| n@),
                i <= n,
                content_of(all, id@) == content_of(all.subrange(i as int, n as int), id@),
            decreases n - i,
        {
            let ghost rest = all.subrange(i as int, n as int);
            assert(rest.drop_first() =~= all.subrange(i + 1, n as int));
            if notes[i].id == *id {
                return Some(notes[i].content.clone());
            }
            i = i + 1;
        }
        None
    }

    /// `notes` with the content of every note whose identifier is `id` set to
    /// `content`.
    fn set_content(notes: Vec<StickyNote<P, S>>, id: &String, content: &String) -> (r: Vec<
        StickyNote<P, S>,
    >)
        ensures
            r@.map_values(|n: StickyNote<P, S>| n@) == with_content(
                notes@.map_values(|n: StickyNote<P, S>| n@),
                id@,
                content@,
            ),
    {
        let ghost before = notes@;
        let mut notes = notes;
        let n = notes.len();
        let mut i: usize = 0;
        while i < n
            invariant
                n == notes@.len(),
                n == before.len(),
                i <= n,
                forall|j: int|
                    0 <= j < i ==> (#[trigger] notes@[j])@ == (if before[j]@.id == id@ {
                        NoteView {
                            id: before[j]@.id,
                            position: before[j]@.position,
                            content: content@,
                            size: before[j]@.size,
                        }
                    } else {
                        before[j]@
                    }),
                forall|j: int| i <= j < n ==> #[trigger] notes@[j] == before[j],
            decreases n - i,
        {
            if notes[i].id == *id {
                notes[i].content = content.clone();
            }
            i = i + 1;
        }
        assert(notes@.map_values(|n: StickyNote<P, S>| n@) =~= with_content(
            before.map_values(|n: StickyNote<P, S>| n@),
            id@,
            content@,
        ));
        notes
    }

    /// `notes` with every note whose identifier is `id` moved to `position`.
    fn set_position(notes: Vec<StickyNote<P, S>>, id: &String, position: P) -> (r: Vec<
        StickyNote<P, S>,
    >)
        ensures
            r@.map_values(|n: StickyNote<P, S>| n@) == with_position(
                notes@.map_values(|n: StickyNote<P, S>| n@),
                id@,
                position,
            ),
    {
        let ghost before = notes@;
        let mut notes = notes;
        let n = notes.len();
        let mut i: usize = 0;
        while i < n
            invariant
                n == notes@.len(),
                n == before.len(),
                i <= n,
                forall|j: int|
                    0 <= j < i ==> (#[trigger] notes@[j])@ == (if before[j]@.id == id@ {
                        NoteView {
                            id: before[j]@.id,
                            position,
                            content: before[j]@.content,
                            size: before[j]@.size,
                        }
                    } else {
                        before[j]@
                    }),
                forall|j: int| i <= j < n ==> #[trigger] notes@[j] == before[j],
            decreases n - i,
        {
            if notes[i].id == *id {
                notes[i].position = position;
            }
            i = i + 1;
        }
        assert(notes@.map_values(|n: StickyNote<P, S>| n@) =~= with_position(
            before.map_values(|n: StickyNote<P, S>| n@),
            id@,
            position,
        ));
        notes
    }
}

/// Editing a note, changing the draft and saving it writes the draft into
/// every note with that identifier, leaves the other notes as they were, ends
/// the edit and keeps the selection.
pub proof fn law_saved_draft_becomes_content<P, S>(b: BoardView<P, S>, id: String, draft: String)
    ensures
        ({
            let started = reduced(b, StickyNotesAction::StartEdit(id));
            let drafted = reduced(started, StickyNotesAction::UpdateContent(draft));
            let saved = reduced(drafted, StickyNotesAction::SaveEdit);
            &&& saved.notes == with_content(b.notes, id@, draft@)
            &&& saved.notes.len() == b.notes.len()
            &&& forall|i: int|
                0 <= i < b.notes.len() ==> (#[trigger] saved.notes[i]).content == (if b.notes[i].id
                    == id@ {
                    draft@
                } else {
                    b.notes[i].content
                })
            &&& saved.editing_note_id is None
            &&& saved.editing_content is None
            &&& saved.selected_note_id == b.selected_note_id
        }),
{
}

/// Editing a note and cancelling the edit, whatever the draft, leaves the notes
/// and the selection as they were and ends the edit.
pub proof fn law_cancelled_draft_is_discarded<P, S>(b: BoardView<P, S>, id: String, draft: String)
    ensures
        ({
            let started = reduced(b, StickyNotesAction::StartEdit(id));
            let drafted = reduced(started, StickyNotesAction::UpdateContent(draft));
            let cancelled = reduced(drafted, StickyNotesAction::CancelEdit);
            &&& cancelled.notes == b.notes
            &&& cancelled.editing_note_id is None
            &&& cancelled.editing_content is None
            &&& cancelled.selected_note_id == b.selected_note_id
        }),
{
}

/// Moving a note changes no note's identifier, content or size, and no other
/// note's position.
pub proof fn law_move_changes_only_position<P, S>(b: BoardView<P, S>, id: String, position: P)
    ensures
        ({
            let moved = reduced(b, StickyNotesAction::UpdatePosition(id, position));
            &&& moved.notes.len() == b.notes.len()
            &&& forall|i: int|
                0 <= i < b.notes.len() ==> {
                    &&& (#[trigger] moved.notes[i]).id == b.notes[i].id
                    &&& moved.notes[i].content == b.notes[i].content
                    &&& moved.notes[i].size == b.notes[i].size
                    &&& moved.notes[i].position == (if b.notes[i].id == id@ {
                        position
                    } else {
                        b.notes[i].position
                    })
                }
            &&& moved.editing_note_id == b.editing_note_id
            &&& moved.editing_content == b.editing_content
            &&& moved.selected_note_id == b.selected_note_id
        }),
{
}

/// Selecting a note makes it the selected note, whatever was selected before
/// (selecting it again keeps it selected), and changes nothing else;
/// deselecting leaves no note selected and changes nothing else.
pub proof fn law_select_selects<P, S>(b: BoardView<P, S>, id: String)
    ensures
        ({
            let selected = reduced(b, StickyNotesAction::SelectNote(id));
            let again = reduced(selected, StickyNotesAction::SelectNote(id));
            let deselected = reduced(b, StickyNotesAction::DeselectNote);
            &&& selected.selected_note_id == Some(id@)
            &&& again.selected_note_id == Some(id@)
            &&& selected.notes == b.notes
            &&& selected.editing_note_id == b.editing_note_id
            &&& selected.editing_content == b.editing_content
            &&& deselected.selected_note_id is None
            &&& deselected.notes == b.notes
            &&& deselected.editing_note_id == b.editing_note_id
            &&& deselected.editing_content == b.editing_content
        }),
{
}

/// The content found under an identifier after a note is appended: the
/// content found before, if any, or else the new note's if it has that
/// identifier.
proof fn lemma_content_of_push<P, S>(notes: Seq<NoteView<P, S>>, n: NoteView<P, S>, id: Seq<char>)
    ensures
        content_of(notes.push(n), id) == (match content_of(notes, id) {
            Some(c) => Some(c),
            None => if n.id == id {
                Some(n.content)
            } else {
                None
            },
        }),
    decreases notes.len(),
{
    let t = notes.push(n);
    reveal_with_fuel(content_of, 2);
    if notes.len() > 0 {
        assert(t.drop_first() =~= notes.drop_first().push(n));
        assert(t[0] == notes[0]);
        lemma_content_of_push(notes.drop_first(), n, id);
    } else {
        assert(t.drop_first() =~= Seq::<NoteView<P, S>>::empty());
    }
}

/// A note created under an identifier that no note has yet is found by it:
/// editing it starts from the new-note text.
pub proof fn law_created_note_can_be_edited<P, S>(b: BoardView<P, S>, id: String, position: P, size: S)
    requires
        content_of(b.notes, id@) is None,
    ensures
        ({
            let created = reduced(b, StickyNotesAction::CreateNote(id, position, size));
            let started = reduced(created, StickyNotesAction::StartEdit(id));
            &&& started.editing_note_id == Some(id@)
            &&& started.editing_content == Some(new_note_text())
            &&& started.notes == created.notes
            &&& created.notes.len() == b.notes.len() + 1
        }),
{
    lemma_content_of_push(
        b.notes,
        NoteView { id: id@, position, content: new_note_text(), size },
        id@,
    );
}

} // verus!
