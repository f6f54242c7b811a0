//! An in-memory flashcard repository: notes, the cards derived from them, and
//! the queries served over them.
pub mod handlers;
pub mod models;
pub mod state;

