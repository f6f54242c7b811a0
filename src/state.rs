use vstd::prelude::*;

use crate::models::card::{card_kinds, derive_cards, Card, CardId, CardKind, CardView};
use crate::models::deck::{with_cards, Deck, DeckId};
use crate::models::note::{
    note_of, CreateCardsKind, Note, NoteBuilder, NoteBuilderView, NoteId, NoteView,
};

verus! {

broadcast use vstd::std_specs::hash::group_hash_axioms;

/// The abstract value of the repository: the notes and the cards in the order
/// of their ids, so that the note with id `k` stands at index `k - 1`.
pub struct StateView {
    pub notes: Seq<NoteView>,
    pub cards: Seq<CardView>,
}

/// Whether some note already holds `term`.
pub open spec fn term_in_use(notes: Seq<NoteView>, term: Seq<char>) -> bool {
    exists|i: int| 0 <= i < notes.len() && #[trigger] notes[i].term == term
}

/// The cards of the given kinds for one note, numbered on from `last_card_id`.
pub open spec fn cards_for(note_id: u64, last_card_id: int, kinds: Seq<CardKind>) -> Seq<CardView> {
    Seq::new(
        kinds.len(),
        |i: int| CardView { id: (last_card_id + i + 1) as u64, note_id, kind: kinds[i] },
    )
}

/// What creating a note does to the repository: `None` where its term is
/// taken; else the repository after the step, the new note and its cards.
pub open spec fn create(s: StateView, b: NoteBuilderView) -> Option<(StateView, NoteView, Seq<CardView>)> {
    if term_in_use(s.notes, b.term) {
        None
    } else {
        let note = note_of(b, (s.notes.len() + 1) as u64);
        let cards = cards_for(note.id, s.cards.len() as int, card_kinds(b.cards_kind));
        Some((StateView { notes: s.notes.push(note), cards: s.cards + cards }, note, cards))
    }
}

/// The views of a list of cards.
pub open spec fn card_views(cards: Seq<Card>) -> Seq<CardView> {
    cards.map_values(|c: Card| c@)
}

/// `r` holds the note `n` and the cards `cs`.
pub open spec fn holds_created(r: Option<(Note, Vec<Card>)>, n: NoteView, cs: Seq<CardView>) -> bool {
    match r {
        Some((note, cards)) => note@ == n && card_views(cards@) == cs,
        None => false,
    }
}

impl StateView {
    /// Ids run from 1 without gaps, terms are unique, and every card belongs
    /// to a stored note.
    pub open spec fn wf(self) -> bool {
        &&& forall|i: int| 0 <= i < self.notes.len() ==> #[trigger] self.notes[i].id == i + 1
        &&& forall|j: int| 0 <= j < self.cards.len() ==> #[trigger] self.cards[j].id == j + 1
        &&& forall|i: int, k: int|
            0 <= i < k < self.notes.len() ==> #[trigger] self.notes[i].term != #[trigger] self.notes[k].term
        &&& forall|j: int|
            0 <= j < self.cards.len() ==> 1 <= #[trigger] self.cards[j].note_id <= self.notes.len()
        &&& self.notes.len() <= self.cards.len() <= u64::MAX
    }

    /// The card counter can take the two ids that one creation may need.
    pub open spec fn has_room(self) -> bool {
        self.cards.len() + 2 <= u64::MAX
    }

    pub open spec fn note_at(self, id: u64) -> Option<NoteView> {
        if 1 <= id <= self.notes.len() {
            Some(self.notes[id - 1])
        } else {
            None
        }
    }

    pub open spec fn card_at(self, id: u64) -> Option<CardView> {
        if 1 <= id <= self.cards.len() {
            Some(self.cards[id - 1])
        } else {
            None
        }
    }
}

/// The repository after a creation attempt: the new state where it succeeded,
/// the old one where it did not.
pub open spec fn after_create(s: StateView, b: NoteBuilderView) -> StateView {
    match create(s, b) {
        Some(c) => c.0,
        None => s,
    }
}

/// A successful creation keeps the repository well formed, gives the note
/// the next note id, and gives its cards the next card ids in order: ids
/// grow by one per note and per card, with no gaps.
pub proof fn lemma_create_allocates_next_ids(s: StateView, b: NoteBuilderView)
    requires
        s.wf(),
        s.has_room(),
        create(s, b) is Some,
    ensures
        ({
            let c = create(s, b).unwrap();
            &&& c.0.wf()
            &&& c.1.id == s.notes.len() + 1
            &&& c.2.len() >= 1
            &&& forall|j: int| 0 <= j < c.2.len() ==> #[trigger] c.2[j].id == s.cards.len() + j + 1
            &&& forall|j: int| 0 <= j < c.2.len() ==> #[trigger] c.2[j].note_id == c.1.id
        }),
{
    let c = create(s, b).unwrap();
    let n = c.1;
    let t = c.0;
    assert forall|i: int, k: int| 0 <= i < k < t.notes.len() implies #[trigger] t.notes[i].term
        != #[trigger] t.notes[k].term by {
        if k == s.notes.len() {
            assert(t.notes[i] == s.notes[i]);
            assert(!term_in_use(s.notes, b.term));
        }
    }
    assert forall|j: int| 0 <= j < t.cards.len() implies #[trigger] t.cards[j].id == j + 1 by {
        if j >= s.cards.len() {
            assert(t.cards[j] == c.2[j - s.cards.len()]);
        }
    }
    assert forall|j: int| 0 <= j < t.cards.len() implies 1 <= #[trigger] t.cards[j].note_id
        <= t.notes.len() by {
        if j >= s.cards.len() {
            assert(t.cards[j] == c.2[j - s.cards.len()]);
        }
    }
}

/// Two successful creations in a row take consecutive note ids, and the
/// cards of the second continue the card ids right after those of the first.
pub proof fn lemma_consecutive_creations(s: StateView, b1: NoteBuilderView, b2: NoteBuilderView)
    requires
        s.wf(),
        s.has_room(),
        create(s, b1) is Some,
        create(s, b1).unwrap().0.has_room(),
        create(create(s, b1).unwrap().0, b2) is Some,
    ensures
        ({
            let c1 = create(s, b1).unwrap();
            let c2 = create(c1.0, b2).unwrap();
            &&& c2.1.id == c1.1.id + 1
            &&& c2.2[0].id == c1.2.last().id + 1
        }),
{
    lemma_create_allocates_next_ids(s, b1);
    lemma_create_allocates_next_ids(create(s, b1).unwrap().0, b2);
    let c1 = create(s, b1).unwrap();
    assert(c1.2.last() == c1.2[c1.2.len() - 1]);
}

/// A note created with both cards gets exactly two: the term card, then the
/// definition card, whose id is one more.
pub proof fn lemma_term_and_definition_cards(s: StateView, b: NoteBuilderView)
    requires
        s.wf(),
        s.has_room(),
        b.cards_kind == CreateCardsKind::TermAndDefinition,
        create(s, b) is Some,
    ensures
        ({
            let c = create(s, b).unwrap();
            &&& c.2.len() == 2
            &&& c.2[0].kind == CardKind::Term
            &&& c.2[1].kind == CardKind::Definition
            &&& c.2[0].id == c.2[1].id - 1
            &&& c.2[0].note_id == c.1.id && c.2[1].note_id == c.1.id
        }),
{
}

/// Once a creation with some term has been attempted, whether or not it
/// succeeded, a second creation with the same term fails, and so changes
/// nothing.
pub proof fn lemma_same_term_conflicts(s: StateView, b1: NoteBuilderView, b2: NoteBuilderView)
    requires
        s.wf(),
        b2.term == b1.term,
    ensures
        create(after_create(s, b1), b2) is None,
        after_create(after_create(s, b1), b2) == after_create(s, b1),
{
    if create(s, b1) is Some {
        let t = create(s, b1).unwrap().0;
        assert(t.notes[s.notes.len() as int].term == b2.term);
    }
}

/// A lookup finds exactly the ids issued so far, each holding the item
/// created under it; a creation makes its note and cards found under their
/// ids and leaves every earlier item as it was.
pub proof fn lemma_lookup_after_create(s: StateView, b: NoteBuilderView, id: u64)
    requires
        s.wf(),
        s.has_room(),
    ensures
        s.note_at(id) is Some <==> 1 <= id <= s.notes.len(),
        s.card_at(id) is Some <==> 1 <= id <= s.cards.len(),
        s.note_at(id) matches Some(n) ==> n.id == id,
        s.card_at(id) matches Some(c) ==> c.id == id,
        create(s, b) matches Some(c) ==> {
            &&& c.0.note_at(c.1.id) == Some(c.1)
            &&& forall|j: int| 0 <= j < c.2.len() ==> c.0.card_at(#[trigger] c.2[j].id) == Some(c.2[j])
            &&& s.note_at(id) is Some ==> c.0.note_at(id) == s.note_at(id)
            &&& s.card_at(id) is Some ==> c.0.card_at(id) == s.card_at(id)
        },
{
    if create(s, b) is Some {
        lemma_create_allocates_next_ids(s, b);
        let c = create(s, b).unwrap();
        assert forall|j: int| 0 <= j < c.2.len() implies c.0.card_at(#[trigger] c.2[j].id) == Some(
            c.2[j],
        ) by {
            assert(c.0.cards[s.cards.len() + j] == c.2[j]);
        }
    }
}

/// The repository: all notes and cards, with the counters that their ids are
/// drawn from. Whether a term is taken is decided by a scan of the notes,
/// at a cost linear in their number.
#[derive(Debug)]
pub struct State {
    deck: Deck,
    last_note_id: u64,
    last_card_id: u64,
}

impl View for State {
    type V = StateView;

    closed spec fn view(&self) -> StateView {
        StateView {
            notes: Seq::new(
                self.last_note_id as nat,
                |i: int| self.deck.notes_by_id@[(i + 1) as u64]@,
            ),
            cards: Seq::new(
                self.last_card_id as nat,
                |j: int| self.deck.cards_by_id@[(j + 1) as u64]@,
            ),
        }
    }
}

/// Inserting cards whose ids run on from `base` adds exactly those ids.
proof fn lemma_with_cards(m: Map<u64, Card>, cards: Seq<Card>, base: int)
    requires
        forall|j: int| 0 <= j < cards.len() ==> #[trigger] cards[j]@.id == base + j + 1,
    ensures
        forall|k: u64|
            base < k <= base + cards.len() ==> #[trigger] with_cards(m, cards).contains_key(k)
                && with_cards(m, cards)[k] == cards[k - base - 1],
        forall|k: u64|
            !(base < k <= base + cards.len()) ==> (#[trigger] with_cards(m, cards).contains_key(k)
                <==> m.contains_key(k)) && (m.contains_key(k) ==> with_cards(m, cards)[k] == m[k]),
    decreases cards.len(),
{
    if cards.len() > 0 {
        let rest = cards.drop_last();
        assert forall|j: int| 0 <= j < rest.len() implies #[trigger] rest[j]@.id == base + j + 1 by {
            assert(rest[j] == cards[j]);
        }
        lemma_with_cards(m, rest, base);
        let last = cards.last();
        assert(last@.id == base + cards.len());
        assert(with_cards(m, cards) == with_cards(m, rest).insert(last@.id, last));
        assert forall|k: u64| base < k <= base + cards.len() implies #[trigger] with_cards(
            m,
            cards,
        ).contains_key(k) && with_cards(m, cards)[k] == cards[k - base - 1] by {
            if k < base + cards.len() {
                assert(rest[k - base - 1] == cards[k - base - 1]);
            }
        }
    }
}

impl State {
    /// Ids match positions and keys, and the view is well formed.
    pub closed spec fn wf(&self) -> bool {
        &&& self@.wf()
        &&& forall|k: u64| #[trigger]
            self.deck.notes_by_id@.contains_key(k) <==> 1 <= k <= self.last_note_id
        &&& forall|k: u64| #[trigger]
            self.deck.cards_by_id@.contains_key(k) <==> 1 <= k <= self.last_card_id
    }

    /// A well-formed repository has a well-formed view.
    pub proof fn lemma_view_wf(&self)
        requires
            self.wf(),
        ensures
            self@.wf(),
    {
    }

    pub fn new() -> (r: Self)
        ensures
            r.wf(),
            r@.notes.len() == 0,
            r@.cards.len() == 0,
    {
        let r = Self { deck: Deck::new(DeckId(1)), last_note_id: 0, last_card_id: 0 };
        assert(r@.notes =~= Seq::<NoteView>::empty());
        assert(r@.cards =~= Seq::<CardView>::empty());
        r
    }

    /// The number of stored notes, which is also the largest note id.
    pub fn note_count(&self) -> (r: u64)
        requires
            self.wf(),
        ensures
            r == self@.notes.len(),
    {
        self.last_note_id
    }

    /// The number of stored cards, which is also the largest card id.
    pub fn card_count(&self) -> (r: u64)
        requires
            self.wf(),
        ensures
            r == self@.cards.len(),
    {
        self.last_card_id
    }

    /// The note stored under `id`, if any.
    pub fn note(&self, id: u64) -> (r: Option<&Note>)
        requires
            self.wf(),
        ensures
            match self@.note_at(id) {
                Some(n) => r matches Some(note) && note@ == n,
                None => r is None,
            },
    {
        self.deck.notes_by_id.get(&id)
    }

    /// The card stored under `id`, if any.
    pub fn card(&self, id: u64) -> (r: Option<&Card>)
        requires
            self.wf(),
        ensures
            match self@.card_at(id) {
                Some(c) => r matches Some(card) && card@ == c,
                None => r is None,
            },
    {
        self.deck.cards_by_id.get(&id)
    }

    /// Whether some stored note holds `term`.
    fn has_term(&self, term: &String) -> (r: bool)
        requires
            self.wf(),
        ensures
            r == term_in_use(self@.notes, term@),
    {
        let mut n: u64 = 0;
        while n < self.last_note_id
            invariant
                self.wf(),
                n <= self.last_note_id,
                forall|i: int| 0 <= i < n ==> #[trigger] self@.notes[i].term != term@,
            decreases self.last_note_id - n,
        {
            let id: u64 = n + 1;
            match self.deck.notes_by_id.get(&id) {
                Some(note) => {
                    assert(note@ == self@.notes[n as int]);
                    if note.term().eq(term) {
                        return true;
                    }
                },
                None => {
                    assert(false);
                },
            }
            n += 1;
        }
        false
    }

    /// Saves a note built from `note_builder` and the cards it asks for, as
    /// one step. The note takes the next note id; its cards take the next
    /// card ids, the term card first.
    ///
    /// Returns `None`, and changes nothing, where a stored note already holds
    /// the same term.
    pub fn add_note(&mut self, note_builder: NoteBuilder) -> (r: Option<(Note, Vec<Card>)>)
        requires
            old(self).wf(),
            old(self)@.has_room(),
        ensures
            final(self).wf(),
            match create(old(self)@, note_builder@) {
                None => r is None && final(self)@ == old(self)@,
                Some(c) => holds_created(r, c.1, c.2) && final(self)@ == c.0,
            },
    {
        if self.has_term(note_builder.term()) {
            return None;
        }
        let ghost old_view = self@;
        let ghost b = note_builder@;
        let note_id = NoteId(self.last_note_id + 1);
        let (note, cards_kind) = note_builder.build(note_id);
        let kinds = derive_cards(cards_kind);
        let ghost expected = cards_for(note_id.0, self.last_card_id as int, kinds@);
        let mut cards: Vec<Card> = Vec::new();
        let mut i: usize = 0;
        while i < kinds.len()
            invariant
                i <= kinds@.len() <= 2,
                kinds@ == card_kinds(cards_kind),
                self.last_card_id + 2 <= u64::MAX,
                expected == cards_for(note_id.0, self.last_card_id as int, kinds@),
                cards@.len() == i,
                forall|j: int| 0 <= j < i ==> #[trigger] cards@[j]@ == expected[j],
            decreases kinds@.len() - i,
        {
            let card = Card::new(CardId(self.last_card_id + 1 + i as u64), note_id, kinds[i]);
            cards.push(card);
            i += 1;
        }
        let created_note = note.clone();
        let created_cards = cards.clone();
        assert(card_views(created_cards@) =~= expected) by {
            assert forall|j: int| 0 <= j < created_cards@.len() implies created_cards@[j]
                == cards@[j] by {
                assert(cloned(cards@[j], created_cards@[j]));
            }
        }
        let ghost old_notes = self.deck.notes_by_id@;
        let ghost old_cards = self.deck.cards_by_id@;
        let ghost card_seq = cards@;
        self.deck.add(note, cards);
        proof {
            assert forall|j: int| 0 <= j < card_seq.len() implies #[trigger] card_seq[j]@.id
                == self.last_card_id + j + 1 by {
                assert(card_seq[j]@ == expected[j]);
            }
            lemma_with_cards(old_cards, card_seq, self.last_card_id as int);
        }
        self.last_note_id = note_id.0;
        self.last_card_id = self.last_card_id + kinds.len() as u64;
        proof {
            let c = create(old_view, b).unwrap();
            assert(!term_in_use(old_view.notes, b.term));
            assert(self@.notes =~= c.0.notes) by {
                assert forall|i: int| 0 <= i < old_view.notes.len() implies self@.notes[i]
                    == old_view.notes[i] by {
                    assert(old_notes.contains_key((i + 1) as u64));
                }
            }
            assert(self@.cards =~= c.0.cards) by {
                assert forall|j: int| 0 <= j < c.0.cards.len() implies self@.cards[j]
                    == c.0.cards[j] by {
                    let k = (j + 1) as u64;
                    assert(with_cards(old_cards, card_seq).contains_key(k));
                    if j < old_view.cards.len() {
                        assert(old_cards.contains_key(k));
                    } else {
                        assert(card_seq[j - old_view.cards.len()]@ == expected[j
                            - old_view.cards.len()]);
                    }
                }
            }
            assert(self@ == c.0);
        }
        Some((created_note, created_cards))
    }
}

} // verus!
