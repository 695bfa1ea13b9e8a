//! The data of a quiz: the word pairs, the question made of one of them, and the
//! running state of a session.

use crate::text::{same_text, trim, trimmed};
use crate::time::now;
use std::time::Instant;
use vstd::prelude::*;

verus! {

/// One entry of the word list: a term, its counterpart, and an optional remark.
#[derive(Debug)]
pub struct Word {
    pub left: String,
    pub right: String,
    pub notes: Option<String>,
}

/// A [`Word`] as plain text.
pub struct WordView {
    pub left: Seq<char>,
    pub right: Seq<char>,
    pub notes: Option<Seq<char>>,
}

/// The text of an optional string.
pub open spec fn notes_text(notes: Option<String>) -> Option<Seq<char>> {
    match notes {
        Some(text) => Some(text@),
        None => None,
    }
}

impl View for Word {
    type V = WordView;

    open spec fn view(&self) -> WordView {
        WordView { left: self.left@, right: self.right@, notes: notes_text(self.notes) }
    }
}

/// The plain text of every word of a list, in the list's order.
pub open spec fn words_text(words: Seq<Word>) -> Seq<WordView> {
    Seq::new(words.len(), |i: int| words[i]@)
}

/// One word put as a question: the side that is shown, the side that is
/// expected back, and the word's remark.
pub struct Question<'a> {
    pub prompt: &'a str,
    pub answer: &'a str,
    pub notes: Option<&'a str>,
}

/// A [`Question`] as plain text.
pub struct QuestionView {
    pub prompt: Seq<char>,
    pub answer: Seq<char>,
    pub notes: Option<Seq<char>>,
}

impl<'a> View for Question<'a> {
    type V = QuestionView;

    open spec fn view(&self) -> QuestionView {
        QuestionView {
            prompt: self.prompt@,
            answer: self.answer@,
            notes: match self.notes {
                Some(text) => Some(text@),
                None => None,
            },
        }
    }
}

/// The question that a word makes. Flipped, the left term is shown and the
/// right one expected; unflipped, the right term is shown and the left one
/// expected. The remark goes along unchanged either way.
pub open spec fn question_for(word: WordView, flip: bool) -> QuestionView {
    if flip {
        QuestionView { prompt: word.left, answer: word.right, notes: word.notes }
    } else {
        QuestionView { prompt: word.right, answer: word.left, notes: word.notes }
    }
}

/// Whether a typed line answers a question: it does when what is left of the
/// line after trimming is the expected answer, character for character.
pub open spec fn answers(question: QuestionView, line: Seq<char>) -> bool {
    trimmed(line) == question.answer
}

impl Word {
    /// The question that this word makes, see [`question_for`].
    pub fn question(&self, flip: bool) -> (question: Question<'_>)
        ensures
            question@ == question_for(self@, flip),
    {
        let notes = match &self.notes {
            Some(text) => Some(text.as_str()),
            None => None,
        };
        if flip {
            Question { prompt: self.left.as_str(), answer: self.right.as_str(), notes }
        } else {
            Question { prompt: self.right.as_str(), answer: self.left.as_str(), notes }
        }
    }
}

impl<'a> Question<'a> {
    /// Whether `text`, taken as it stands, is the expected answer. Nothing is
    /// normalised: case and inner spacing count.
    pub fn is_answer(&self, text: &str) -> (right: bool)
        ensures
            right == (text@ == self@.answer),
    {
        same_text(text, self.answer)
    }

    /// Whether the typed `line` answers the question once the whitespace round
    /// it is gone, see [`answers`].
    pub fn is_answered_by(&self, line: &str) -> (right: bool)
        ensures
            right == answers(self@, line@),
    {
        self.is_answer(trim(line))
    }
}

/// The running state of a session: the two counters and the moment the
/// session began.
pub struct GameState {
    pub num_mistakes: i32,
    pub num_words: i32,
    pub start_time: Instant,
}

impl Default for GameState {
    /// A session that starts now, with nothing asked and nothing got wrong.
    fn default() -> (state: GameState)
        ensures
            state.num_mistakes == 0,
            state.num_words == 0,
    {
        GameState { num_mistakes: 0, num_words: 0, start_time: now() }
    }
}

} // verus!
