use flashcards::handlers::card::{get_all_cards, get_card};
use flashcards::handlers::note::{create_note, get_all_notes, get_note};
use flashcards::handlers::ApiError;
use flashcards::models::card::{derive_cards, Card, CardId, CardKind};
use flashcards::models::deck::{Deck, DeckId};
use flashcards::models::note::{CreateCardsKind, Note, NoteId};
use flashcards::state::State;

fn strings(items: &[&str]) -> Vec<String> {
    items.iter().map(|s| s.to_string()).collect()
}

fn card(id: u64, note_id: u64, kind: CardKind) -> Card {
    Card::new(CardId(id), NoteId(note_id), kind)
}

fn assert_note(note: &Note, id: u64, term: &str, definitions: &[&str], examples: &[&str]) {
    assert_eq!(note.id, NoteId(id));
    assert_eq!(note.term(), term);
    assert_eq!(note.definitions(), &strings(definitions));
    assert_eq!(note.examples(), &strings(examples));
    assert!(note.notes().is_empty());
    assert!(note.clues().is_empty());
}

#[test]
fn card_test_get_all_cards() {
    let mut state = State::new();
    assert_eq!(get_all_cards(&state), Vec::<Card>::new());

    state.add_note(Note::builder("term1".to_owned(), CreateCardsKind::DefinitionOnly));
    state.add_note(Note::builder("term2".to_owned(), CreateCardsKind::TermAndDefinition));
    assert_eq!(
        get_all_cards(&state),
        vec![
            card(1, 1, CardKind::Definition),
            card(2, 2, CardKind::Term),
            card(3, 2, CardKind::Definition),
        ]
    );
}

#[test]
fn card_test_get_card() {
    let mut state = State::new();
    assert_eq!(get_card(1, &state), Err(ApiError::NotFound));

    state.add_note(Note::builder("term1".to_owned(), CreateCardsKind::TermOnly));
    assert_eq!(get_card(1, &state), Ok(card(1, 1, CardKind::Term)));
}

#[test]
fn note_test_get_all_cards() {
    let mut state = State::new();
    assert!(get_all_notes(&state).is_empty());

    state.add_note(
        Note::builder("term1".to_owned(), CreateCardsKind::TermOnly)
            .definitions(&["def".to_owned()]),
    );
    state.add_note(
        Note::builder("term2".to_owned(), CreateCardsKind::TermOnly).examples(&["ex".to_owned()]),
    );
    let notes = get_all_notes(&state);
    assert_eq!(notes.len(), 2);
    assert_note(&notes[0], 1, "term1", &["def"], &[]);
    assert_note(&notes[1], 2, "term2", &[], &["ex"]);
}

#[test]
fn note_test_get_card() {
    let mut state = State::new();
    assert_eq!(get_note(1, &state), Err(ApiError::NotFound));

    state.add_note(Note::builder("term1".to_owned(), CreateCardsKind::TermOnly));
    let note = get_note(1, &state).unwrap();
    assert_note(&note, 1, "term1", &[], &[]);
}

#[test]
fn test_create_card() {
    let mut state = State::new();
    let request = Note::builder("term".to_owned(), CreateCardsKind::TermAndDefinition)
        .definitions(&["def".to_owned()]);

    let created = create_note(request.clone(), &mut state).unwrap();
    assert_note(&created.note, 1, "term", &["def"], &[]);
    assert_eq!(
        created.cards,
        vec![card(1, 1, CardKind::Term), card(2, 1, CardKind::Definition)]
    );
    assert_eq!(state.note_count(), 1);
    assert_eq!(state.card_count(), 2);

    assert_eq!(create_note(request, &mut state).unwrap_err(), ApiError::Conflict);
    assert_eq!(state.note_count(), 1);
    assert_eq!(state.card_count(), 2);
}

#[test]
fn first_note_with_both_cards() {
    let mut state = State::new();
    let (note, cards) = state
        .add_note(
            Note::builder("la palabra".to_owned(), CreateCardsKind::TermAndDefinition)
                .definitions(&["word".to_owned()]),
        )
        .unwrap();
    assert_note(&note, 1, "la palabra", &["word"], &[]);
    assert_eq!(cards, vec![card(1, 1, CardKind::Term), card(2, 1, CardKind::Definition)]);
}

#[test]
fn repeated_create_conflicts_and_keeps_contents() {
    let mut state = State::new();
    let request = Note::builder("la palabra".to_owned(), CreateCardsKind::TermAndDefinition)
        .definitions(&["word".to_owned()]);
    assert!(state.add_note(request.clone()).is_some());
    assert!(state.add_note(request).is_none());
    assert_eq!(get_all_notes(&state).len(), 1);
    assert_eq!(get_all_cards(&state).len(), 2);
}

#[test]
fn unknown_note_id_is_not_found() {
    let mut state = State::new();
    state.add_note(Note::builder("la palabra".to_owned(), CreateCardsKind::TermOnly));
    assert_eq!(get_note(99, &state), Err(ApiError::NotFound));
    assert_eq!(get_note(0, &state), Err(ApiError::NotFound));
    assert_eq!(get_card(0, &state), Err(ApiError::NotFound));
    assert_eq!(get_card(2, &state), Err(ApiError::NotFound));
}

#[test]
fn ids_increase_without_gaps() {
    let mut state = State::new();
    let modes = [
        CreateCardsKind::TermAndDefinition,
        CreateCardsKind::TermOnly,
        CreateCardsKind::DefinitionOnly,
        CreateCardsKind::TermAndDefinition,
    ];
    let mut next_card: u64 = 1;
    for (i, mode) in modes.iter().enumerate() {
        let (note, cards) = state.add_note(Note::builder(format!("t{}", i), *mode)).unwrap();
        assert_eq!(note.id, NoteId(i as u64 + 1));
        for c in &cards {
            assert_eq!(c.id, CardId(next_card));
            assert_eq!(c.note_id(), note.id);
            next_card += 1;
        }
    }
    assert_eq!(state.note_count(), 4);
    assert_eq!(state.card_count(), 6);
}

#[test]
fn term_and_definition_cards_are_adjacent() {
    let mut state = State::new();
    state.add_note(Note::builder("a".to_owned(), CreateCardsKind::DefinitionOnly));
    let (_, cards) = state
        .add_note(Note::builder("b".to_owned(), CreateCardsKind::TermAndDefinition))
        .unwrap();
    assert_eq!(cards.len(), 2);
    assert_eq!(cards[0].kind(), CardKind::Term);
    assert_eq!(cards[1].kind(), CardKind::Definition);
    assert_eq!(cards[0].id.0 + 1, cards[1].id.0);
}

#[test]
fn duplicate_term_with_other_mode_conflicts() {
    let mut state = State::new();
    state.add_note(Note::builder("casa".to_owned(), CreateCardsKind::TermOnly));
    let again = Note::builder("casa".to_owned(), CreateCardsKind::TermAndDefinition)
        .definitions(&["house".to_owned()]);
    assert!(state.add_note(again).is_none());
    assert_eq!(state.note_count(), 1);
    assert_eq!(state.card_count(), 1);
    // Terms compare exactly, case included.
    assert!(state
        .add_note(Note::builder("Casa".to_owned(), CreateCardsKind::TermOnly))
        .is_some());
}

#[test]
fn empty_term_is_accepted_once() {
    let mut state = State::new();
    assert!(state.add_note(Note::builder(String::new(), CreateCardsKind::TermOnly)).is_some());
    assert!(state.add_note(Note::builder(String::new(), CreateCardsKind::TermOnly)).is_none());
}

#[test]
fn lookups_return_stored_values() {
    let mut state = State::new();
    let (note, cards) = state
        .add_note(
            Note::builder("x".to_owned(), CreateCardsKind::TermAndDefinition)
                .definitions(&["d1".to_owned(), "d2".to_owned()])
                .examples(&["e".to_owned()])
                .notes(&["n".to_owned()])
                .clues(&["c".to_owned()]),
        )
        .unwrap();
    assert_eq!(get_note(1, &state), Ok(note.clone()));
    assert_eq!(note.notes(), &strings(&["n"]));
    assert_eq!(note.clues(), &strings(&["c"]));
    assert_eq!(note.definitions(), &strings(&["d1", "d2"]));
    assert_eq!(get_card(1, &state), Ok(cards[0]));
    assert_eq!(get_card(2, &state), Ok(cards[1]));
}

#[test]
fn listings_are_in_id_order() {
    let mut state = State::new();
    for term in ["c", "a", "b"] {
        state.add_note(Note::builder(term.to_owned(), CreateCardsKind::TermAndDefinition));
    }
    let notes = get_all_notes(&state);
    let ids: Vec<u64> = notes.iter().map(|n| n.id.0).collect();
    assert_eq!(ids, vec![1, 2, 3]);
    let terms: Vec<&str> = notes.iter().map(|n| n.term().as_str()).collect();
    assert_eq!(terms, vec!["c", "a", "b"]);
    let card_ids: Vec<u64> = get_all_cards(&state).iter().map(|c| c.id.0).collect();
    assert_eq!(card_ids, vec![1, 2, 3, 4, 5, 6]);
}

#[test]
fn derive_cards_by_mode() {
    assert_eq!(derive_cards(CreateCardsKind::TermOnly), vec![CardKind::Term]);
    assert_eq!(derive_cards(CreateCardsKind::DefinitionOnly), vec![CardKind::Definition]);
    assert_eq!(
        derive_cards(CreateCardsKind::TermAndDefinition),
        vec![CardKind::Term, CardKind::Definition]
    );
}

#[test]
fn builder_build_keeps_fields() {
    let builder = Note::builder("t".to_owned(), CreateCardsKind::DefinitionOnly)
        .clues(&["clue".to_owned()]);
    assert_eq!(builder.term(), "t");
    assert_eq!(builder.cards_kind(), CreateCardsKind::DefinitionOnly);
    let (note, kind) = builder.build(NoteId(7));
    assert_eq!(kind, CreateCardsKind::DefinitionOnly);
    assert_eq!(note.id(), NoteId(7));
    assert_eq!(note.clues(), &strings(&["clue"]));
    assert!(note.definitions().is_empty());
}

#[test]
fn deck_add_stores_by_id() {
    let mut deck = Deck::new(DeckId(3));
    assert_eq!(deck.id, DeckId(3));
    assert!(deck.notes_by_id.is_empty());
    let (note, _) = Note::builder("w".to_owned(), CreateCardsKind::TermOnly).build(NoteId(5));
    deck.add(note, vec![card(8, 5, CardKind::Term), card(9, 5, CardKind::Definition)]);
    assert_eq!(deck.notes_by_id.get(&5).unwrap().term(), "w");
    assert_eq!(deck.cards_by_id.len(), 2);
    assert_eq!(deck.cards_by_id.get(&9), Some(&card(9, 5, CardKind::Definition)));
}
