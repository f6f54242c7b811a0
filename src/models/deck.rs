use std::collections::HashMap;

use vstd::prelude::*;

use crate::models::card::Card;
use crate::models::note::Note;

verus! {

broadcast use vstd::std_specs::hash::group_hash_axioms;

#[derive(Copy, Clone, Debug, PartialEq, Eq, Hash, Structural)]
pub struct DeckId(pub u64);

/// A collection of notes and cards, each keyed by the number of its id.
#[derive(Debug)]
pub struct Deck {
    pub id: DeckId,
    pub cards_by_id: HashMap<u64, Card>,
    pub notes_by_id: HashMap<u64, Note>,
}

/// The map `m` after inserting each of `cards` under its id, in order.
pub open spec fn with_cards(m: Map<u64, Card>, cards: Seq<Card>) -> Map<u64, Card>
    decreases cards.len(),
{
    if cards.len() == 0 {
        m
    } else {
        with_cards(m, cards.drop_last()).insert(cards.last()@.id, cards.last())
    }
}

impl Deck {
    pub fn new(id: DeckId) -> (r: Self)
        ensures
            r.id == id,
            r.cards_by_id@ == Map::<u64, Card>::empty(),
            r.notes_by_id@ == Map::<u64, Note>::empty(),
    {
        Self { id, cards_by_id: HashMap::new(), notes_by_id: HashMap::new() }
    }

    /// Stores a note and its cards, each under its id; an entry already held
    /// under one of those ids is replaced.
    pub fn add(&mut self, note: Note, cards: Vec<Card>)
        ensures
            final(self).id == old(self).id,
            final(self).notes_by_id@ == old(self).notes_by_id@.insert(note@.id, note),
            final(self).cards_by_id@ == with_cards(old(self).cards_by_id@, cards@),
    {
        let note_id = note.id();
        self.notes_by_id.insert(note_id.0, note);
        let mut i: usize = 0;
        while i < cards.len()
            invariant
                i <= cards@.len(),
                self.id == old(self).id,
                self.notes_by_id@ == old(self).notes_by_id@.insert(note@.id, note),
                self.cards_by_id@ == with_cards(old(self).cards_by_id@, cards@.take(i as int)),
            decreases cards@.len() - i,
        {
            let card = cards[i];
            self.cards_by_id.insert(card.id().0, card);
            assert(cards@.take(i + 1).drop_last() =~= cards@.take(i as int));
            i += 1;
        }
        assert(cards@.take(cards@.len() as int) =~= cards@);
    }
}

} // verus!
