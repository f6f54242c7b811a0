use vstd::prelude::*;

verus! {

/// Identifier of a note; allocated from 1 upwards.
#[derive(Copy, Clone, Debug, PartialEq, Eq, Hash, PartialOrd, Ord, Structural)]
pub struct NoteId(pub u64);

/// A Note holds all the information necessary to relate a term with its definition(s).
#[derive(Debug, PartialEq, Eq, Hash)]
pub struct Note {
    pub id: NoteId,
    /// The word or phrase.
    term: String,
    /// What the `term` means. Often, there will be more than one definition.
    definitions: Vec<String>,
    /// Examples using the `term`.
    examples: Vec<String>,
    /// E.g. grammar considerations.
    notes: Vec<String>,
    /// Any clues to be shown when only the definition is shown.
    clues: Vec<String>,
}

/// Which cards to derive from a new note.
#[derive(Copy, Clone, Debug, PartialEq, Eq, Hash, Structural)]
pub enum CreateCardsKind {
    TermOnly,
    DefinitionOnly,
    TermAndDefinition,
}

/// A request to create a note: the note's contents and the cards wanted.
#[derive(Clone, Debug, PartialEq, Eq, Hash)]
pub struct NoteBuilder {
    term: String,
    definitions: Vec<String>,
    examples: Vec<String>,
    notes: Vec<String>,
    clues: Vec<String>,
    cards_kind: CreateCardsKind,
}

/// The abstract value of a note.
pub struct NoteView {
    pub id: u64,
    pub term: Seq<char>,
    pub definitions: Seq<String>,
    pub examples: Seq<String>,
    pub notes: Seq<String>,
    pub clues: Seq<String>,
}

/// The abstract value of a note-creation request.
pub struct NoteBuilderView {
    pub term: Seq<char>,
    pub definitions: Seq<String>,
    pub examples: Seq<String>,
    pub notes: Seq<String>,
    pub clues: Seq<String>,
    pub cards_kind: CreateCardsKind,
}

/// The note that a request yields under the given id.
pub open spec fn note_of(b: NoteBuilderView, id: u64) -> NoteView {
    NoteView {
        id,
        term: b.term,
        definitions: b.definitions,
        examples: b.examples,
        notes: b.notes,
        clues: b.clues,
    }
}

impl View for Note {
    type V = NoteView;

    closed spec fn view(&self) -> NoteView {
        NoteView {
            id: self.id.0,
            term: self.term@,
            definitions: self.definitions@,
            examples: self.examples@,
            notes: self.notes@,
            clues: self.clues@,
        }
    }
}

impl View for NoteBuilder {
    type V = NoteBuilderView;

    closed spec fn view(&self) -> NoteBuilderView {
        NoteBuilderView {
            term: self.term@,
            definitions: self.definitions@,
            examples: self.examples@,
            notes: self.notes@,
            clues: self.clues@,
            cards_kind: self.cards_kind,
        }
    }
}

/// Copies a slice of strings into a new vector.
fn to_vec(items: &[String]) -> (r: Vec<String>)
    ensures
        r@ == items@,
{
    let mut r: Vec<String> = Vec::new();
    let mut i: usize = 0;
    while i < items.len()
        invariant
            i <= items@.len(),
            r@ == items@.subrange(0, i as int),
        decreases items@.len() - i,
    {
        r.push(items[i].clone());
        i += 1;
    }
    assert(r@ =~= items@);
    r
}

impl NoteBuilder {
    fn new(term: String, cards_kind: CreateCardsKind) -> (r: Self)
        ensures
            r@ == (NoteBuilderView {
                term: term@,
                definitions: Seq::empty(),
                examples: Seq::empty(),
                notes: Seq::empty(),
                clues: Seq::empty(),
                cards_kind,
            }),
    {
        Self {
            term,
            cards_kind,
            definitions: Vec::new(),
            examples: Vec::new(),
            notes: Vec::new(),
            clues: Vec::new(),
        }
    }

    pub fn definitions(self, definitions: &[String]) -> (r: Self)
        ensures
            r@ == (NoteBuilderView { definitions: definitions@, ..self@ }),
    {
        Self { definitions: to_vec(definitions), ..self }
    }

    pub fn examples(self, examples: &[String]) -> (r: Self)
        ensures
            r@ == (NoteBuilderView { examples: examples@, ..self@ }),
    {
        Self { examples: to_vec(examples), ..self }
    }

    pub fn notes(self, notes: &[String]) -> (r: Self)
        ensures
            r@ == (NoteBuilderView { notes: notes@, ..self@ }),
    {
        Self { notes: to_vec(notes), ..self }
    }

    pub fn clues(self, clues: &[String]) -> (r: Self)
        ensures
            r@ == (NoteBuilderView { clues: clues@, ..self@ }),
    {
        Self { clues: to_vec(clues), ..self }
    }

    /// The term that the note will be created under.
    pub fn term(&self) -> (r: &String)
        ensures
            r@ == self@.term,
    {
        &self.term
    }

    pub fn cards_kind(&self) -> (r: CreateCardsKind)
        ensures
            r == self@.cards_kind,
    {
        self.cards_kind
    }

    /// Turns the request into the note it describes, under the given id, and
    /// the kind of cards to derive from it.
    pub fn build(self, id: NoteId) -> (r: (Note, CreateCardsKind))
        ensures
            r.0@ == note_of(self@, id.0),
            r.1 == self@.cards_kind,
    {
        let Self { term, definitions, examples, notes, clues, cards_kind } = self;
        let note = Note { id, term, definitions, examples, notes, clues };
        (note, cards_kind)
    }
}

impl Note {
    pub fn builder(term: String, cards_kind: CreateCardsKind) -> (r: NoteBuilder)
        ensures
            r@ == (NoteBuilderView {
                term: term@,
                definitions: Seq::empty(),
                examples: Seq::empty(),
                notes: Seq::empty(),
                clues: Seq::empty(),
                cards_kind,
            }),
    {
        NoteBuilder::new(term, cards_kind)
    }

    pub fn id(&self) -> (r: NoteId)
        ensures
            r.0 == self@.id,
    {
        self.id
    }

    pub fn term(&self) -> (r: &String)
        ensures
            r@ == self@.term,
    {
        &self.term
    }

    pub fn definitions(&self) -> (r: &Vec<String>)
        ensures
            r@ == self@.definitions,
    {
        &self.definitions
    }

    pub fn examples(&self) -> (r: &Vec<String>)
        ensures
            r@ == self@.examples,
    {
        &self.examples
    }

    pub fn notes(&self) -> (r: &Vec<String>)
        ensures
            r@ == self@.notes,
    {
        &self.notes
    }

    pub fn clues(&self) -> (r: &Vec<String>)
        ensures
            r@ == self@.clues,
    {
        &self.clues
    }
}

impl Clone for Note {
    fn clone(&self) -> (r: Self)
        ensures
            r@ == self@,
    {
        let definitions = self.definitions.clone();
        let examples = self.examples.clone();
        let notes = self.notes.clone();
        let clues = self.clues.clone();
        assert(definitions@ =~= self.definitions@);
        assert(examples@ =~= self.examples@);
        assert(notes@ =~= self.notes@);
        assert(clues@ =~= self.clues@);
        Note { id: self.id, term: self.term.clone(), definitions, examples, notes, clues }
    }
}

} // verus!
