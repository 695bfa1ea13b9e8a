//! The quiz itself: a list of words, asked one by one until the list or the
//! time runs out.

use crate::domain::{question_for, words_text, GameState, Question, QuestionView, Word, WordView};
use crate::order::{is_word_order, lemma_rearranged_is_permutation, places, shuffle, thread_rng};
use crate::session::{
    after, between, lemma_one_more_reply, transcript, Event, Reply, Session, Stage, MAX_TRIES,
};
use crate::time::{
    deadline_reached, elapsed_since, is_past, nanos_of, remaining, time_left, Span,
};
use crate::ui::Ui;
use vstd::prelude::*;

verus! {

/// The longest list that a session can work through: with more words the
/// count of mistakes could outgrow its type.
pub const MAX_WORDS: usize = 429_496_729;

/// The questions of a session, in the order in which they are asked: the
/// `k`-th is made of the word at place `order[k]`.
pub open spec fn deck(words: Seq<WordView>, flip: bool, order: Seq<usize>) -> Seq<QuestionView> {
    Seq::new(order.len(), |k: int| question_for(words[order[k] as int], flip))
}

/// A quiz on a list of words.
///
/// Besides its settings and its counters a game keeps, in ghost state, a record
/// of all that it was told ([`Game::heard`]) and of all that it showed
/// ([`Game::shown`]), each in the order in which it happened.
pub struct Game<'a> {
    words: &'a [Word],
    timeout: Span,
    flip: bool,
    shuffle: bool,
    state: GameState,
    ui: &'a dyn Ui,
    heard: Ghost<Seq<Reply>>,
    shown: Ghost<Seq<Event>>,
}

impl<'a> Game<'a> {
    /// The words of the quiz, as plain text.
    pub closed spec fn words(&self) -> Seq<WordView> {
        words_text(self.words@)
    }

    /// The time limit, in nanoseconds.
    pub closed spec fn timeout(&self) -> nat {
        self.timeout@
    }

    /// Whether the left term of a word is the one shown.
    pub closed spec fn flip(&self) -> bool {
        self.flip
    }

    /// Whether the words are asked in a random order.
    pub closed spec fn shuffle(&self) -> bool {
        self.shuffle
    }

    /// The number of words taken up in the session at hand.
    pub closed spec fn num_words(&self) -> int {
        self.state.num_words as int
    }

    /// The number of mistakes made in the session at hand.
    pub closed spec fn num_mistakes(&self) -> int {
        self.state.num_mistakes as int
    }

    /// Whether the counters can be those of a session: neither is negative,
    /// and there are at most `MAX_TRIES` mistakes for each word taken up.
    pub open spec fn counts_valid(&self) -> bool {
        &&& 0 <= self.num_words()
        &&& 0 <= self.num_mistakes() <= MAX_TRIES * self.num_words()
    }

    /// All the clock readings and typed lines that the game has taken so far.
    pub closed spec fn heard(&self) -> Seq<Reply> {
        self.heard@
    }

    /// All that the game has shown so far.
    pub closed spec fn shown(&self) -> Seq<Event> {
        self.shown@
    }

    /// Whether this game has the settings of `other`: the same words, time
    /// limit and switches.
    pub open spec fn same_settings(&self, other: &Self) -> bool {
        &&& self.words() == other.words()
        &&& self.timeout() == other.timeout()
        &&& self.flip() == other.flip()
        &&& self.shuffle() == other.shuffle()
    }

    /// Whether this game differs from `other` in its records at most: the
    /// settings and the counters are the same.
    pub open spec fn same_but_records(&self, other: &Self) -> bool {
        &&& self.same_settings(other)
        &&& self.num_words() == other.num_words()
        &&& self.num_mistakes() == other.num_mistakes()
    }

    /// Whether this game is `before` after one session on `deck`, in which it
    /// was told `replies`: the replies are added to what it had heard, what
    /// they make a session show is added to what it had shown, they bring the
    /// session to its end and no further, and the counters are the session's.
    pub open spec fn played(
        &self,
        before: &Self,
        deck: Seq<QuestionView>,
        replies: Seq<Reply>,
    ) -> bool {
        let end = after(deck, self.timeout(), replies);
        &&& self.same_settings(before)
        &&& self.heard() == before.heard() + replies
        &&& self.shown() == before.shown() + transcript(deck, self.timeout(), replies)
        &&& end.stage is Done
        &&& self.num_words() == end.words_asked
        &&& self.num_mistakes() == end.mistakes
    }

    /// A game on `words`, with the session's clock started and nothing heard
    /// or shown yet.
    pub fn new(
        words: &'a [Word],
        timeout: Span,
        flip: bool,
        shuffle: bool,
        ui: &'a dyn Ui,
    ) -> (game: Self)
        ensures
            game.words() == words_text(words@),
            game.timeout() == timeout@,
            game.flip() == flip,
            game.shuffle() == shuffle,
            game.num_words() == 0,
            game.num_mistakes() == 0,
            game.counts_valid(),
            game.heard() == Seq::<Reply>::empty(),
            game.shown() == Seq::<Event>::empty(),
    {
        Game {
            words,
            timeout,
            flip,
            shuffle,
            state: GameState::default(),
            ui,
            heard: Ghost(Seq::empty()),
            shown: Ghost(Seq::empty()),
        }
    }

    /// The question made of the word at place `index`.
    pub fn get_question(&self, index: usize) -> (question: Question<'a>)
        requires
            index < self.words().len(),
        ensures
            question@ == question_for(self.words()[index as int], self.flip()),
    {
        let words: &'a [Word] = self.words;
        words[index].question(self.flip)
    }

    /// An order in which to ask the words.
    pub fn word_order(&self) -> (order: Vec<usize>)
        ensures
            is_word_order(order@, self.words().len(), self.shuffle()),
    {
        let mut order = places(self.words.len());
        if self.shuffle {
            let mut rng = thread_rng();
            shuffle(&mut order, &mut rng);
            proof {
                lemma_rearranged_is_permutation(order@, self.words().len());
            }
        }
        order
    }

    /// The counters of the session at hand, and the moment it began.
    pub fn state(&self) -> (state: &GameState)
        ensures
            state.num_words == self.num_words(),
            state.num_mistakes == self.num_mistakes(),
    {
        &self.state
    }

    /// Reads the clock: the time gone by since the session began.
    fn elapsed(&mut self) -> (elapsed: Span)
        ensures
            final(self).same_but_records(old(self)),
            final(self).heard() == old(self).heard().push(Reply::Clock(elapsed@)),
            final(self).shown() == old(self).shown(),
    {
        let reading = elapsed_since(&self.state.start_time);
        let elapsed = Span::from_nanos(nanos_of(&reading));
        proof {
            self.heard@ = self.heard@.push(Reply::Clock(elapsed@));
        }
        elapsed
    }

    /// Reads the clock and tells what is left of the time limit.
    pub fn time_remaining(&mut self) -> (left: Span)
        ensures
            final(self).same_but_records(old(self)),
            final(self).shown() == old(self).shown(),
            final(self).heard() == old(self).heard().push(final(self).heard().last()),
            final(self).heard().last() matches Reply::Clock(elapsed) && left@ == time_left(
                old(self).timeout(),
                elapsed,
            ),
    {
        let elapsed = self.elapsed();
        remaining(&self.timeout, &elapsed)
    }

    /// Reads the clock and tells whether the time limit is used up.
    pub fn is_game_over(&mut self) -> (over: bool)
        ensures
            final(self).same_but_records(old(self)),
            final(self).shown() == old(self).shown(),
            final(self).heard() == old(self).heard().push(final(self).heard().last()),
            final(self).heard().last() matches Reply::Clock(elapsed) && over == deadline_reached(
                old(self).timeout(),
                elapsed,
            ),
    {
        let elapsed = self.elapsed();
        is_past(&self.timeout, &elapsed)
    }

    /// Waits for a line from the person at the prompt.
    fn read_answer(&mut self) -> (line: String)
        ensures
            final(self).same_but_records(old(self)),
            final(self).heard() == old(self).heard().push(Reply::Line(line@)),
            final(self).shown() == old(self).shown(),
    {
        let line = self.ui.read_input();
        proof {
            self.heard@ = self.heard@.push(Reply::Line(line@));
        }
        line
    }

    /// Puts a question, with the time left and the counts as given.
    fn show_question(
        &mut self,
        question: &Question<'a>,
        left: Span,
        num_words: i32,
        num_mistakes: i32,
    )
        ensures
            final(self).same_but_records(old(self)),
            final(self).heard() == old(self).heard(),
            final(self).shown() == old(self).shown().push(
                Event::StartQuestion {
                    prompt: question@.prompt,
                    time_remaining: left@,
                    words_asked: num_words as int,
                    mistakes: num_mistakes as int,
                    notes: question@.notes,
                },
            ),
    {
        self.ui.start_question(question.prompt, left, num_words, num_mistakes, question.notes);
        proof {
            self.shown@ = self.shown@.push(
                Event::StartQuestion {
                    prompt: question@.prompt,
                    time_remaining: left@,
                    words_asked: num_words as int,
                    mistakes: num_mistakes as int,
                    notes: question@.notes,
                },
            );
        }
    }

    /// Tells that the last line was wrong, and what was expected.
    fn show_wrong_answer(&mut self, answer: &str)
        ensures
            final(self).same_but_records(old(self)),
            final(self).heard() == old(self).heard(),
            final(self).shown() == old(self).shown().push(Event::WrongAnswer { answer: answer@ }),
    {
        self.ui.wrong_answer(answer);
        proof {
            self.shown@ = self.shown@.push(Event::WrongAnswer { answer: answer@ });
        }
    }

    /// Closes the question at hand.
    fn show_end_of_question(&mut self)
        ensures
            final(self).same_but_records(old(self)),
            final(self).heard() == old(self).heard(),
            final(self).shown() == old(self).shown().push(Event::EndQuestion),
    {
        self.ui.end_question();
        proof {
            self.shown@ = self.shown@.push(Event::EndQuestion);
        }
    }

    /// Tells that the time is up, with the counts as given.
    fn show_game_over(&mut self, num_words: i32, num_mistakes: i32)
        ensures
            final(self).same_but_records(old(self)),
            final(self).heard() == old(self).heard(),
            final(self).shown() == old(self).shown().push(
                Event::GameOver { words_asked: num_words as int, mistakes: num_mistakes as int },
            ),
    {
        self.ui.game_over(num_words, num_mistakes);
        proof {
            self.shown@ = self.shown@.push(
                Event::GameOver { words_asked: num_words as int, mistakes: num_mistakes as int },
            );
        }
    }

    /// Plays one session in which the words are asked in the given order.
    ///
    /// The clock is started afresh and the counters are set to zero. Then, for
    /// each place of `order` in turn: the session ends with a game-over notice
    /// if the time is used up; else the word at that place is put as a
    /// question, again and again, until a line answers it or `MAX_TRIES` lines
    /// have been wrong, and each wrong line counts as a mistake. What happens
    /// is, step for step, what [`after`] and [`transcript`] say of the replies
    /// that the session was given.
    pub fn run_in_order(&mut self, order: &Vec<usize>)
        requires
            order@.len() <= MAX_WORDS,
            forall|k: int| 0 <= k < order@.len() ==> order@[k] < old(self).words().len(),
        ensures
            final(self).counts_valid(),
            exists|replies: Seq<Reply>|
                final(self).played(
                    old(self),
                    deck(old(self).words(), old(self).flip(), order@),
                    replies,
                ),
    {
        let ghost cards = deck(self.words(), self.flip(), order@);
        let ghost timeout = self.timeout();
        let ghost mut replies: Seq<Reply> = Seq::empty();
        self.state = GameState::default();
        let mut position: usize = 0;
        while position < order.len()
            invariant_except_break
                after(cards, timeout, replies) == between(
                    cards,
                    position as nat,
                    self.state.num_words as int,
                    self.state.num_mistakes as int,
                ),
            invariant
                self.same_settings(old(self)),
                timeout == self.timeout(),
                cards == deck(self.words(), self.flip(), order@),
                order@.len() <= MAX_WORDS,
                forall|k: int| 0 <= k < order@.len() ==> order@[k] < self.words().len(),
                position <= order@.len(),
                self.state.num_words == position,
                0 <= self.state.num_mistakes <= MAX_TRIES * position,
                self.heard@ == old(self).heard@ + replies,
                self.shown@ == old(self).shown@ + transcript(cards, timeout, replies),
            ensures
                after(cards, timeout, replies).stage is Done,
                after(cards, timeout, replies).words_asked == self.state.num_words,
                after(cards, timeout, replies).mistakes == self.state.num_mistakes,
            decreases order.len() - position,
        {
            let over = self.is_game_over();
            proof {
                lemma_one_more_reply(cards, timeout, replies, self.heard@.last());
                replies = replies.push(self.heard@.last());
            }
            if over {
                self.show_game_over(self.state.num_words, self.state.num_mistakes);
                assert(self.shown@ =~= old(self).shown@ + transcript(cards, timeout, replies));
                break ;
            }
            self.state.num_words = self.state.num_words + 1;
            let question = self.get_question(order[position]);
            let mut attempts: i32 = 1;
            loop
                invariant_except_break
                    1 <= attempts <= MAX_TRIES,
                    self.shown@ == old(self).shown@ + transcript(cards, timeout, replies),
                    after(cards, timeout, replies) == (Session {
                        stage: Stage::Showing,
                        position: position as nat,
                        words_asked: self.state.num_words as int,
                        mistakes: self.state.num_mistakes as int,
                        attempts: attempts as int,
                    }),
                invariant
                    self.same_settings(old(self)),
                    timeout == self.timeout(),
                    position < order@.len() == cards.len(),
                    order@.len() <= MAX_WORDS,
                    question@ == cards[position as int],
                    self.state.num_words == position + 1,
                    0 <= self.state.num_mistakes <= MAX_TRIES * position,
                    self.heard@ == old(self).heard@ + replies,
                ensures
                    1 <= attempts <= MAX_TRIES + 1,
                    self.shown@.push(Event::EndQuestion) == old(self).shown@ + transcript(
                        cards,
                        timeout,
                        replies,
                    ),
                    after(cards, timeout, replies) == between(
                        cards,
                        (position + 1) as nat,
                        self.state.num_words as int,
                        self.state.num_mistakes + attempts - 1,
                    ),
                decreases MAX_TRIES - attempts,
            {
                let left = self.time_remaining();
                proof {
                    lemma_one_more_reply(cards, timeout, replies, self.heard@.last());
                    replies = replies.push(self.heard@.last());
                }
                self.show_question(
                    &question,
                    left,
                    self.state.num_words,
                    self.state.num_mistakes + attempts - 1,
                );
                let line = self.read_answer();
                proof {
                    lemma_one_more_reply(cards, timeout, replies, self.heard@.last());
                    replies = replies.push(self.heard@.last());
                }
                if question.is_answered_by(line.as_str()) {
                    break ;
                }
                attempts = attempts + 1;
                self.show_wrong_answer(question.answer);
                if attempts > MAX_TRIES {
                    break ;
                }
                assert(self.shown@ =~= old(self).shown@ + transcript(cards, timeout, replies));
            }
            self.state.num_mistakes = self.state.num_mistakes + (attempts - 1);
            self.show_end_of_question();
            position = position + 1;
        }
        assert(self.played(old(self), cards, replies));
    }

    /// Plays one session on the words: in the order of the list or, shuffled,
    /// in a random order in which each word comes once. See
    /// [`Game::run_in_order`] for what a session is.
    pub fn run(&mut self)
        requires
            old(self).words().len() <= MAX_WORDS,
        ensures
            final(self).counts_valid(),
            exists|order: Seq<usize>, replies: Seq<Reply>|
                is_word_order(order, old(self).words().len(), old(self).shuffle())
                    && #[trigger] final(self).played(
                    old(self),
                    deck(old(self).words(), old(self).flip(), order),
                    replies,
                ),
    {
        let order = self.word_order();
        self.run_in_order(&order);
    }
}

} // verus!
