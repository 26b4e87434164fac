//! A spaced-repetition flashcard library.
//!
//! Cards carry a question/answer pair and scheduling state (ease factor,
//! repetition count, interval and review dates); a review rating updates that
//! state, decks select which card positions are due on a given day, and a
//! study session walks a deck's due positions captured at session start.
//! Dates are calendar days counted as day numbers; the ease factor is kept in
//! hundredths of a unit.

pub mod card;
pub mod collection;
pub mod deck;
pub mod persist;
pub mod session;
