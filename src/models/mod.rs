pub mod card;
pub mod deck;
pub mod note;
