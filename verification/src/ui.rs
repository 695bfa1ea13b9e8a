//! The presentation layer through which a session reaches the person taking
//! the quiz.

use crate::time::Span;
use vstd::prelude::*;

verus! {

/// What a session needs of a presentation layer. A session puts no demands on
/// how an implementation behaves, and takes whatever line it hands back.
pub trait Ui {
    /// Waits for the next line that the person types, and returns it.
    fn read_input(&self) -> String;

    /// Shows a question: the prompt, the time left, the number of words asked
    /// so far (this one included), the mistakes made so far, and the remark.
    fn start_question(
        &self,
        word: &str,
        time_remaining: Span,
        num_words: i32,
        num_mistakes: i32,
        notes: Option<&str>,
    );

    /// Tells that the time is up, with the final counts.
    fn game_over(&self, num_words: i32, num_mistakes: i32);

    /// Tells that the last line was wrong, and what was expected.
    fn wrong_answer(&self, answer: &str);

    /// Closes a question.
    fn end_question(&self);

    /// Shows the program's banner.
    fn show_banner(&self);
}

} // verus!
