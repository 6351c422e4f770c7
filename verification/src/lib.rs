//! Building blocks for trick-taking card games: cards and decks, the
//! trick/hand state machines that record play, and the tressette rules
//! built on top of them.

pub mod cards;
pub mod hands;
pub mod tressette;
