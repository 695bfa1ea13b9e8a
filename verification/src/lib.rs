//! A flashcard quiz session: word pairs are asked one at a time, against a
//! wall-clock time limit and with a bounded number of tries for each word.
//!
//! A session deals with the outside in two ways: through a presentation layer,
//! [`ui::Ui`], and through the clock. All that passes either way is recorded in
//! ghost state, and the contract of [`game::Game::run`] says exactly what is
//! shown in terms of what was heard.

pub mod domain;
pub mod game;
pub mod order;
pub mod proofs;
pub mod session;
pub mod text;
pub mod time;
pub mod ui;
