use vstd::prelude::*;

use crate::models::note::{CreateCardsKind, NoteId};

verus! {

/// Identifier of a card; allocated from 1 upwards.
#[derive(Copy, Clone, Debug, PartialEq, Eq, Hash, PartialOrd, Ord, Structural)]
pub struct CardId(pub u64);

/// Which side of a note a card shows first.
#[derive(Copy, Clone, Debug, PartialEq, Eq, Hash, Structural)]
pub enum CardKind {
    /// Show the user the term first.
    Term,
    /// Show the user the definition first.
    Definition,
}

/// A reviewable presentation of a note. It refers to its note by id only.
#[derive(Copy, Clone, Debug, PartialEq, Eq, Hash, Structural)]
pub struct Card {
    pub id: CardId,
    note_id: NoteId,
    kind: CardKind,
}

/// The abstract value of a card.
pub struct CardView {
    pub id: u64,
    pub note_id: u64,
    pub kind: CardKind,
}

impl View for Card {
    type V = CardView;

    closed spec fn view(&self) -> CardView {
        CardView { id: self.id.0, note_id: self.note_id.0, kind: self.kind }
    }
}

impl Card {
    pub fn new(id: CardId, note_id: NoteId, kind: CardKind) -> (r: Self)
        ensures
            r@ == (CardView { id: id.0, note_id: note_id.0, kind }),
    {
        Self { id, note_id, kind }
    }

    pub fn note_id(&self) -> (r: NoteId)
        ensures
            r.0 == self@.note_id,
    {
        self.note_id
    }

    pub fn kind(&self) -> (r: CardKind)
        ensures
            r == self@.kind,
    {
        self.kind
    }

    pub fn id(&self) -> (r: CardId)
        ensures
            r.0 == self@.id,
    {
        self.id
    }
}

/// The kinds of the cards that a creation mode derives, in the order in
/// which they receive their ids: the term card comes first.
pub open spec fn card_kinds(mode: CreateCardsKind) -> Seq<CardKind> {
    match mode {
        CreateCardsKind::TermOnly => seq![CardKind::Term],
        CreateCardsKind::DefinitionOnly => seq![CardKind::Definition],
        CreateCardsKind::TermAndDefinition => seq![CardKind::Term, CardKind::Definition],
    }
}

/// The cards implied by a creation mode, as kinds; ids are assigned by the
/// repository in this order.
pub fn derive_cards(mode: CreateCardsKind) -> (r: Vec<CardKind>)
    ensures
        r@ == card_kinds(mode),
{
    let mut r: Vec<CardKind> = Vec::new();
    match mode {
        CreateCardsKind::TermOnly => {
            r.push(CardKind::Term);
        },
        CreateCardsKind::DefinitionOnly => {
            r.push(CardKind::Definition);
        },
        CreateCardsKind::TermAndDefinition => {
            r.push(CardKind::Term);
            r.push(CardKind::Definition);
        },
    }
    assert(r@ =~= card_kinds(mode));
    r
}

} // verus!
