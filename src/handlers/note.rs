use vstd::prelude::*;

use crate::handlers::ApiError;
use crate::models::card::Card;
use crate::models::note::{Note, NoteBuilder, NoteView};
use crate::state::{card_views, create, State};

verus! {

/// The views of a list of notes.
pub open spec fn note_views(notes: Seq<Note>) -> Seq<NoteView> {
    notes.map_values(|n: Note| n@)
}

/// All notes, in ascending id order.
pub fn get_all_notes(state: &State) -> (r: Vec<Note>)
    requires
        state.wf(),
    ensures
        note_views(r@) == state@.notes,
        forall|i: int, j: int| 0 <= i < j < r@.len() ==> r@[i]@.id < r@[j]@.id,
{
    proof {
        state.lemma_view_wf();
    }
    let count = state.note_count();
    let mut all_notes: Vec<Note> = Vec::new();
    let mut n: u64 = 0;
    while n < count
        invariant
            state.wf(),
            count == state@.notes.len(),
            n <= count,
            note_views(all_notes@) == state@.notes.take(n as int),
        decreases count - n,
    {
        let ghost prev = all_notes@;
        match state.note(n + 1) {
            Some(note) => {
                let copy = note.clone();
                all_notes.push(copy);
                assert(all_notes@ == prev.push(copy));
                assert(note_views(all_notes@) =~= note_views(prev).push(copy@));
            },
            None => {
                assert(false);
            },
        }
        n += 1;
        assert(note_views(all_notes@) =~= state@.notes.take(n as int));
    }
    assert(state@.notes.take(count as int) =~= state@.notes);
    assert forall|i: int, j: int| 0 <= i < j < all_notes@.len() implies all_notes@[i]@.id
        < all_notes@[j]@.id by {
        assert(note_views(all_notes@)[i] == all_notes@[i]@);
        assert(note_views(all_notes@)[j] == all_notes@[j]@);
    }
    all_notes
}

/// The note stored under `id`.
pub fn get_note(id: u64, state: &State) -> (r: Result<Note, ApiError>)
    requires
        state.wf(),
    ensures
        match state@.note_at(id) {
            Some(n) => r matches Ok(note) && note@ == n,
            None => r == Err::<Note, ApiError>(ApiError::NotFound),
        },
{
    match state.note(id) {
        Some(note) => Ok(note.clone()),
        None => Err(ApiError::NotFound),
    }
}

/// A created note with the cards derived from it.
#[derive(Debug)]
pub struct NoteCreateResult {
    pub note: Note,
    pub cards: Vec<Card>,
}

/// Creates a note and its cards from `payload`; fails with `Conflict`, and
/// changes nothing, where a note with the same term exists.
pub fn create_note(payload: NoteBuilder, state: &mut State) -> (r: Result<NoteCreateResult, ApiError>)
    requires
        old(state).wf(),
        old(state)@.has_room(),
    ensures
        final(state).wf(),
        match create(old(state)@, payload@) {
            None => r == Err::<NoteCreateResult, ApiError>(ApiError::Conflict) && final(state)@
                == old(state)@,
            Some(c) => r matches Ok(res) && res.note@ == c.1 && card_views(res.cards@) == c.2
                && final(state)@ == c.0,
        },
{
    match state.add_note(payload) {
        Some((note, cards)) => Ok(NoteCreateResult { note, cards }),
        None => Err(ApiError::Conflict),
    }
}

} // verus!
