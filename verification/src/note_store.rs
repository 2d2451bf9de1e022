//! The collection of sticky notes on the canvas, with the selection and the
//! drag flag.
//!
//! A note's geometry and content are held in the payload `N`, which the
//! application shell defines; the store keeps each payload with the note's
//! identifier and takes every decision that only reads identifiers: lookup,
//! selection, deletion, and which of several notes under the cursor is on top.
use vstd::prelude::*;

use crate::sticky_notes::ResizeHandle;

verus! {

/// A note's payload together with its identifier.
#[derive(Debug, Clone, PartialEq)]
pub struct NoteEntry<N> {
    pub id: u32,
    pub note: N,
}

/// The notes on the canvas, in drawing order (later notes are drawn on top),
/// with the selected note and whether a note is being dragged.
#[derive(Debug, Clone, PartialEq)]
pub struct NoteStore<N> {
    pub notes: Vec<NoteEntry<N>>,
    pub selected_note_id: Option<u32>,
    pub is_dragging: bool,
}

/// The identifiers of `s`, in order.
pub open spec fn ids_of<N>(s: Seq<NoteEntry<N>>) -> Seq<u32> {
    s.map_values(|e: NoteEntry<N>| e.id)
}

/// The index of the first entry of `s` with identifier `id`.
pub open spec fn first_index<N>(s: Seq<NoteEntry<N>>, id: u32) -> Option<int>
    decreases s.len(),
{
    if s.len() == 0 {
        None
    } else if s[0].id == id {
        Some(0)
    } else {
        match first_index(s.drop_first(), id) {
            Some(i) => Some(i + 1),
            None => None,
        }
    }
}

/// `s` without the entries whose identifier is `id`, the others in order.
pub open spec fn without_id<N>(s: Seq<NoteEntry<N>>, id: u32) -> Seq<NoteEntry<N>>
    decreases s.len(),
{
    if s.len() == 0 {
        s
    } else {
        (if s[0].id == id {
            Seq::<NoteEntry<N>>::empty()
        } else {
            seq![s[0]]
        }) + without_id(s.drop_first(), id)
    }
}

/// The identifier of the last entry of `s` whose flag in `hits` is set.
pub open spec fn topmost<N>(s: Seq<NoteEntry<N>>, hits: Seq<bool>) -> Option<u32>
    decreases s.len(),
{
    if s.len() == 0 {
        None
    } else if hits[s.len() - 1] {
        Some(s[s.len() - 1].id)
    } else {
        topmost(s.drop_last(), hits)
    }
}

/// The selection names a note of the store, or nothing is selected.
pub open spec fn selection_valid<N>(notes: Seq<NoteEntry<N>>, selected: Option<u32>) -> bool {
    match selected {
        Some(id) => first_index(notes, id) is Some,
        None => true,
    }
}

/// Appending an entry keeps where every identifier already present is
/// found, and finds the new entry's identifier at the end otherwise.
proof fn lemma_first_index_push<N>(s: Seq<NoteEntry<N>>, e: NoteEntry<N>, x: u32)
    ensures
        first_index(s.push(e), x) == (match first_index(s, x) {
            Some(i) => Some(i),
            None => if e.id == x {
                Some(s.len() as int)
            } else {
                None
            },
        }),
    decreases s.len(),
{
    let t = s.push(e);
    reveal_with_fuel(first_index, 2);
    if s.len() > 0 {
        assert(t.drop_first() =~= s.drop_first().push(e));
        assert(t[0] == s[0]);
        lemma_first_index_push(s.drop_first(), e, x);
    } else {
        assert(t.drop_first() =~= Seq::<NoteEntry<N>>::empty());
    }
}

/// The first entry with a given identifier is found where `first_index` says.
proof fn lemma_first_index<N>(s: Seq<NoteEntry<N>>, id: u32, i: int)
    requires
        0 <= i <= s.len(),
        i < s.len() ==> s[i].id == id,
        forall|j: int| 0 <= j < i ==> s[j].id != id,
    ensures
        first_index(s, id) == (if i < s.len() {
            Some(i)
        } else {
            None::<int>
        }),
    decreases i,
{
    if s.len() > 0 && i > 0 {
        assert(s[0].id != id);
        lemma_first_index(s.drop_first(), id, i - 1);
    }
}

impl<N> NoteStore<N> {
    /// An empty store with nothing selected or dragged.
    pub fn new() -> (s: Self)
        ensures
            selection_valid(s.notes@, s.selected_note_id),
            s.notes@.len() == 0,
            s.selected_note_id is None,
            !s.is_dragging,
    {
        NoteStore { notes: Vec::new(), selected_note_id: None, is_dragging: false }
    }

    /// Adds a note on top of the others.
    pub fn add_note(&mut self, id: u32, note: N)
        ensures
            selection_valid(old(self).notes@, old(self).selected_note_id) ==> selection_valid(
                final(self).notes@,
                final(self).selected_note_id,
            ),
            final(self).notes@ == old(self).notes@.push(NoteEntry { id, note }),
            final(self).selected_note_id == old(self).selected_note_id,
            final(self).is_dragging == old(self).is_dragging,
    {
        proof {
            if let Some(x) = self.selected_note_id {
                lemma_first_index_push(self.notes@, NoteEntry { id, note }, x);
            }
        }
        self.notes.push(NoteEntry { id, note });
    }

    /// The index of the first note with identifier `id`.
    pub fn find_index(&self, id: u32) -> (r: Option<usize>)
        ensures
            match r {
                Some(i) => {
                    &&& first_index(self.notes@, id) == Some(i as int)
                    &&& i < self.notes@.len()
                    &&& self.notes@[i as int].id == id
                },
                None => first_index(self.notes@, id) is None,
            },
    {
        let n = self.notes.len();
        let mut i: usize = 0;
        while i < n
            invariant
                n == self.notes@.len(),
                i <= n,
                forall|j: int| 0 <= j < i ==> self.notes@[j].id != id,
            decreases n - i,
        {
            if self.notes[i].id == id {
                proof {
                    lemma_first_index(self.notes@, id, i as int);
                }
                return Some(i);
            }
            i = i + 1;
        }
        proof {
            lemma_first_index(self.notes@, id, n as int);
        }
        None
    }

    /// The first note with identifier `id`.
    pub fn get_note(&self, id: u32) -> (r: Option<&N>)
        ensures
            match first_index(self.notes@, id) {
                Some(i) => r == Some(&self.notes@[i].note),
                None => r is None,
            },
    {
        match self.find_index(id) {
            Some(i) => Some(&self.notes[i].note),
            None => None,
        }
    }

    /// Starts dragging the note `note_id` and selects it; does nothing when
    /// there is no such note.  Returns whether the note exists.
    pub fn start_drag(&mut self, note_id: u32) -> (found: bool)
        ensures
            selection_valid(old(self).notes@, old(self).selected_note_id) ==> selection_valid(
                final(self).notes@,
                final(self).selected_note_id,
            ),
            found == (first_index(old(self).notes@, note_id) is Some),
            final(self).notes@ == old(self).notes@,
            found ==> final(self).is_dragging && final(self).selected_note_id == Some(note_id),
            !found ==> final(self).is_dragging == old(self).is_dragging
                && final(self).selected_note_id == old(self).selected_note_id,
    {
        match self.find_index(note_id) {
            Some(_) => {
                self.is_dragging = true;
                self.selected_note_id = Some(note_id);
                true
            },
            None => false,
        }
    }

    /// Ends a note drag.
    pub fn end_drag(&mut self)
        ensures
            final(self).notes@ == old(self).notes@,
            final(self).selected_note_id == old(self).selected_note_id,
            !final(self).is_dragging,
    {
        self.is_dragging = false;
    }

    /// Deletes the selected note (every note with its identifier) and clears
    /// the selection; does nothing when nothing is selected.
    pub fn delete_selected(&mut self)
        ensures
            selection_valid(final(self).notes@, final(self).selected_note_id),
            final(self).is_dragging == old(self).is_dragging,
            final(self).selected_note_id is None,
            match old(self).selected_note_id {
                Some(id) => {
                    &&& final(self).notes@ == without_id(old(self).notes@, id)
                    &&& final(self).notes@ == old(self).notes@.filter(
                        |e: NoteEntry<N>| e.id != id,
                    )
                },
                None => final(self).notes@ == old(self).notes@,
            },
    {
        if let Some(id) = self.selected_note_id {
            let mut rest: Vec<NoteEntry<N>> = Vec::new();
            std::mem::swap(&mut rest, &mut self.notes);
            let ghost all = rest@;
            let mut kept: Vec<NoteEntry<N>> = Vec::new();
            assert(kept@ + without_id(rest@, id) =~= without_id(all, id));
            while rest.len() > 0
                invariant
                    kept@ + without_id(rest@, id) == without_id(all, id),
                decreases rest@.len(),
            {
                let ghost before = rest@;
                let entry = rest.remove(0);
                assert(before.drop_first() =~= rest@);
                if entry.id != id {
                    kept.push(entry);
                }
                assert(kept@ + without_id(rest@, id) =~= without_id(all, id));
            }
            assert(without_id(rest@, id) =~= Seq::<NoteEntry<N>>::empty());
            assert(kept@ =~= without_id(all, id));
            proof {
                law_delete_keeps_the_others(all, id);
            }
            self.notes = kept;
            self.selected_note_id = None;
        }
    }

    /// Selects the note `note_id` for resizing with `handle`; does nothing
    /// when there is no such note.
    pub fn start_resize(&mut self, note_id: u32, _handle: ResizeHandle)
        ensures
            selection_valid(old(self).notes@, old(self).selected_note_id) ==> selection_valid(
                final(self).notes@,
                final(self).selected_note_id,
            ),
            final(self).notes@ == old(self).notes@,
            final(self).is_dragging == old(self).is_dragging,
            final(self).selected_note_id == (if first_index(old(self).notes@, note_id) is Some {
                Some(note_id)
            } else {
                old(self).selected_note_id
            }),
    {
        if self.find_index(note_id).is_some() {
            self.selected_note_id = Some(note_id);
        }
    }

    /// Ends a resize; the store keeps no resize state of its own.
    pub fn end_resize(&mut self)
        ensures
            final(self).notes@ == old(self).notes@,
            final(self).selected_note_id == old(self).selected_note_id,
            final(self).is_dragging == old(self).is_dragging,
    {
    }

    /// Clears the selection.
    pub fn clear_selection(&mut self)
        ensures
            selection_valid(final(self).notes@, final(self).selected_note_id),
            final(self).notes@ == old(self).notes@,
            final(self).selected_note_id is None,
            final(self).is_dragging == old(self).is_dragging,
    {
        self.selected_note_id = None;
    }

    /// Among the notes whose flag in `hits` is set (the notes under the
    /// cursor), the identifier of the one drawn on top: the last one.
    pub fn topmost_hit(&self, hits: &[bool]) -> (r: Option<u32>)
        requires
            hits@.len() == self.notes@.len(),
        ensures
            r == topmost(self.notes@, hits@),
    {
        let mut i = self.notes.len();
        assert(self.notes@.take(i as int) =~= self.notes@);
        while i > 0
            invariant
                i <= self.notes@.len(),
                hits@.len() == self.notes@.len(),
                topmost(self.notes@, hits@) == topmost(self.notes@.take(i as int), hits@),
            decreases i,
        {
            let ghost t = self.notes@.take(i as int);
            assert(t.drop_last() =~= self.notes@.take(i - 1));
            if hits[i - 1] {
                return Some(self.notes[i - 1].id);
            }
            i = i - 1;
        }
        None
    }
}

/// Deleting removes every note with the deleted identifier and no other: the
/// remaining notes are exactly the others, each whole (identifier and
/// payload), in their order.
pub proof fn law_delete_keeps_the_others<N>(s: Seq<NoteEntry<N>>, id: u32)
    ensures
        without_id(s, id) == s.filter(|e: NoteEntry<N>| e.id != id),
        forall|i: int| 0 <= i < without_id(s, id).len() ==> without_id(s, id)[i].id != id,
        ids_of(without_id(s, id)) == ids_of(s).filter(|x: u32| x != id),
    decreases s.len(),
{
    let pe = |e: NoteEntry<N>| e.id != id;
    let pi = |x: u32| x != id;
    if s.len() > 0 {
        law_delete_keeps_the_others(s.drop_first(), id);
        let head = if s[0].id == id {
            Seq::<NoteEntry<N>>::empty()
        } else {
            seq![s[0]]
        };
        let tail = without_id(s.drop_first(), id);
        assert forall|i: int| 0 <= i < without_id(s, id).len() implies without_id(s, id)[i].id
            != id by {
            if i < head.len() {
                assert(without_id(s, id)[i] == head[i]);
            } else {
                assert(without_id(s, id)[i] == tail[i - head.len()]);
            }
        }
        lemma_filter_front(s, pe);
        lemma_filter_front(ids_of(s), pi);
        assert(ids_of(s).drop_first() =~= ids_of(s.drop_first()));
        assert(ids_of(head + tail) =~= ids_of(head) + ids_of(tail));
    } else {
        assert(ids_of(s).filter(pi) =~= Seq::<u32>::empty());
        assert(s.filter(pe) =~= Seq::<NoteEntry<N>>::empty());
    }
}

/// Filtering a non-empty sequence: its first element, if kept, then the
/// filtered rest.
proof fn lemma_filter_front<T>(s: Seq<T>, p: spec_fn(T) -> bool)
    requires
        s.len() > 0,
    ensures
        s.filter(p) == (if p(s[0]) {
            seq![s[0]]
        } else {
            Seq::<T>::empty()
        }) + s.drop_first().filter(p),
    decreases s.len(),
{
    reveal_with_fuel(Seq::filter, 2);
    if s.len() == 1 {
        assert(s.drop_last() =~= Seq::<T>::empty());
        assert(s.drop_first() =~= Seq::<T>::empty());
        assert(Seq::<T>::empty().filter(p) =~= Seq::<T>::empty());
    } else {
        lemma_filter_front(s.drop_last(), p);
        assert(s.drop_last().drop_first() =~= s.drop_first().drop_last());
        assert(s.drop_first().last() == s.last());
    }
}

/// The note reported under the cursor is one whose flag is set, and no note
/// drawn above it has its flag set.
pub proof fn law_topmost_is_the_highest_hit<N>(s: Seq<NoteEntry<N>>, hits: Seq<bool>)
    requires
        hits.len() == s.len(),
    ensures
        match topmost(s, hits) {
            Some(id) => exists|i: int|
                0 <= i < s.len() && hits[i] && s[i].id == id && forall|j: int|
                    i < j < s.len() ==> !hits[j],
            None => forall|j: int| 0 <= j < s.len() ==> !hits[j],
        },
    decreases s.len(),
{
    if s.len() > 0 {
        let n = s.len() - 1;
        if !hits[n] {
            law_topmost_is_the_highest_hit(s.drop_last(), hits.take(n as int));
            assert(topmost(s.drop_last(), hits) == topmost(s.drop_last(), hits.take(n as int))) by {
                lemma_topmost_prefix(s.drop_last(), hits, hits.take(n as int));
            }
            match topmost(s, hits) {
                Some(id) => {
                    let i = choose|i: int|
                        0 <= i < n && hits.take(n as int)[i] && s.drop_last()[i].id == id
                            && forall|j: int| i < j < n ==> !hits.take(n as int)[j];
                    assert(0 <= i < s.len() && hits[i] && s[i].id == id);
                    assert forall|j: int| i < j < s.len() implies !hits[j] by {
                        if j < n {
                            assert(!hits.take(n as int)[j]);
                        }
                    }
                },
                None => {
                    assert forall|j: int| 0 <= j < s.len() implies !hits[j] by {
                        if j < n {
                            assert(!hits.take(n as int)[j]);
                        }
                    }
                },
            }
        }
    }
}

/// `topmost` reads only the flags of the entries it is given.
proof fn lemma_topmost_prefix<N>(s: Seq<NoteEntry<N>>, h1: Seq<bool>, h2: Seq<bool>)
    requires
        h1.len() >= s.len(),
        h2.len() >= s.len(),
        forall|j: int| 0 <= j < s.len() ==> h1[j] == h2[j],
    ensures
        topmost(s, h1) == topmost(s, h2),
    decreases s.len(),
{
    if s.len() > 0 {
        lemma_topmost_prefix(s.drop_last(), h1, h2);
    }
}

/// A note added under an identifier that no note has yet is found under it,
/// at the top; every other identifier is found where it was before.
pub proof fn law_added_note_is_found<N>(s: Seq<NoteEntry<N>>, id: u32, note: N, other: u32)
    requires
        first_index(s, id) is None,
    ensures
        first_index(s.push(NoteEntry { id, note }), id) == Some(s.len() as int),
        other != id ==> first_index(s.push(NoteEntry { id, note }), other) == first_index(s, other),
    decreases s.len(),
{
    let t = s.push(NoteEntry { id, note });
    if s.len() > 0 {
        assert(t.drop_first() =~= s.drop_first().push(NoteEntry { id, note }));
        assert(t[0] == s[0]);
        law_added_note_is_found(s.drop_first(), id, note, other);
        if other != id && s[0].id != other {
            assert(first_index(t.drop_first(), other) == first_index(s.drop_first(), other));
        }
    } else {
        assert(t.drop_first() =~= Seq::<NoteEntry<N>>::empty());
        assert(first_index(t.drop_first(), other) is None);
    }
}

/// After the selected note is deleted, no note has its identifier.
pub proof fn law_deleted_note_is_gone<N>(s: Seq<NoteEntry<N>>, id: u32)
    ensures
        first_index(without_id(s, id), id) is None,
{
    law_delete_keeps_the_others(s, id);
    lemma_first_index(without_id(s, id), id, without_id(s, id).len() as int);
}

} // verus!
