//! The course of a session, as mathematics.
//!
//! A session is driven by what the outside tells it: readings of the clock and
//! lines typed at the prompt. Each such [`Reply`] moves the session one [`step`]
//! on and makes it show some [`Event`]s. The whole of a session is the fold of
//! `step` over the replies, from [`start`].

use crate::domain::{answers, QuestionView};
use crate::time::{deadline_reached, time_left};
use vstd::prelude::*;

verus! {

/// A question is given up when this many lines in a row have been wrong.
pub const MAX_TRIES: i32 = 5;

/// Something the outside tells the session.
pub enum Reply {
    /// The clock, read: the nanoseconds gone by since the session began.
    Clock(nat),
    /// A line typed at the prompt, as it came.
    Line(Seq<char>),
}

/// Something the session shows.
pub enum Event {
    /// A question is put, with the time left and the counts as they stand.
    StartQuestion {
        prompt: Seq<char>,
        time_remaining: nat,
        words_asked: int,
        mistakes: int,
        notes: Option<Seq<char>>,
    },
    /// The last line was wrong; this was expected.
    WrongAnswer { answer: Seq<char> },
    /// The question is closed.
    EndQuestion,
    /// The time is up; these are the final counts.
    GameOver { words_asked: int, mistakes: int },
}

/// Where a session stands between two replies.
pub enum Stage {
    /// About to take up the next question: the clock is read to see whether
    /// there is time left for it.
    Checking,
    /// About to put the question: the clock is read to tell the time left.
    Showing,
    /// The question is put: a line is awaited.
    Listening,
    /// The session is over, by the clock or for want of questions.
    Done,
    /// A reply came that the session was not waiting for.
    Derailed,
}

/// A session between two replies.
pub struct Session {
    pub stage: Stage,
    /// The number of questions closed so far, which is the place in the deck
    /// of the question at hand.
    pub position: nat,
    /// The number of questions taken up so far.
    pub words_asked: int,
    /// The mistakes made on the questions closed so far.
    pub mistakes: int,
    /// The number of times the question at hand has been put, while it is
    /// being put or is awaiting its line; zero otherwise.
    pub attempts: int,
}

/// The session that has closed `position` questions and turns to the next:
/// it checks the clock next while the deck holds another question, and is
/// done when it holds none.
pub open spec fn between(
    deck: Seq<QuestionView>,
    position: nat,
    words_asked: int,
    mistakes: int,
) -> Session {
    Session {
        stage: if position < deck.len() {
            Stage::Checking
        } else {
            Stage::Done
        },
        position,
        words_asked,
        mistakes,
        attempts: 0,
    }
}

/// A session before its first reply.
pub open spec fn start(deck: Seq<QuestionView>) -> Session {
    between(deck, 0, 0, 0)
}

/// The session that a reply leaves behind.
pub open spec fn step(
    deck: Seq<QuestionView>,
    timeout: nat,
    session: Session,
    reply: Reply,
) -> Session {
    match (session.stage, reply) {
        (Stage::Checking, Reply::Clock(elapsed)) => if deadline_reached(timeout, elapsed) {
            Session { stage: Stage::Done, ..session }
        } else {
            Session {
                stage: Stage::Showing,
                words_asked: session.words_asked + 1,
                attempts: 1,
                ..session
            }
        },
        (Stage::Showing, Reply::Clock(_)) => Session { stage: Stage::Listening, ..session },
        (Stage::Listening, Reply::Line(line)) => if answers(deck[session.position as int], line) {
            between(
                deck,
                session.position + 1,
                session.words_asked,
                session.mistakes + session.attempts - 1,
            )
        } else if session.attempts >= MAX_TRIES {
            between(
                deck,
                session.position + 1,
                session.words_asked,
                session.mistakes + session.attempts,
            )
        } else {
            Session { stage: Stage::Showing, attempts: session.attempts + 1, ..session }
        },
        _ => Session { stage: Stage::Derailed, ..session },
    }
}

/// What a reply makes the session show.
pub open spec fn shown_on(
    deck: Seq<QuestionView>,
    timeout: nat,
    session: Session,
    reply: Reply,
) -> Seq<Event> {
    let question = deck[session.position as int];
    match (session.stage, reply) {
        (Stage::Checking, Reply::Clock(elapsed)) => if deadline_reached(timeout, elapsed) {
            seq![Event::GameOver { words_asked: session.words_asked, mistakes: session.mistakes }]
        } else {
            Seq::empty()
        },
        (Stage::Showing, Reply::Clock(elapsed)) => seq![
            Event::StartQuestion {
                prompt: question.prompt,
                time_remaining: time_left(timeout, elapsed),
                words_asked: session.words_asked,
                mistakes: session.mistakes + session.attempts - 1,
                notes: question.notes,
            },
        ],
        (Stage::Listening, Reply::Line(line)) => if answers(question, line) {
            seq![Event::EndQuestion]
        } else if session.attempts >= MAX_TRIES {
            seq![Event::WrongAnswer { answer: question.answer }, Event::EndQuestion]
        } else {
            seq![Event::WrongAnswer { answer: question.answer }]
        },
        _ => Seq::empty(),
    }
}

/// The session after a run of replies.
pub open spec fn after(deck: Seq<QuestionView>, timeout: nat, replies: Seq<Reply>) -> Session
    decreases replies.len(),
{
    if replies.len() == 0 {
        start(deck)
    } else {
        step(deck, timeout, after(deck, timeout, replies.drop_last()), replies.last())
    }
}

/// All that a run of replies makes the session show, in order.
pub open spec fn transcript(deck: Seq<QuestionView>, timeout: nat, replies: Seq<Reply>) -> Seq<
    Event,
>
    decreases replies.len(),
{
    if replies.len() == 0 {
        Seq::empty()
    } else {
        transcript(deck, timeout, replies.drop_last()) + shown_on(
            deck,
            timeout,
            after(deck, timeout, replies.drop_last()),
            replies.last(),
        )
    }
}

/// One more reply moves the session one step on and adds what that step shows.
pub proof fn lemma_one_more_reply(
    deck: Seq<QuestionView>,
    timeout: nat,
    replies: Seq<Reply>,
    reply: Reply,
)
    ensures
        after(deck, timeout, replies.push(reply)) == step(
            deck,
            timeout,
            after(deck, timeout, replies),
            reply,
        ),
        transcript(deck, timeout, replies.push(reply)) == transcript(deck, timeout, replies)
            + shown_on(deck, timeout, after(deck, timeout, replies), reply),
{
    assert(replies.push(reply).drop_last() =~= replies);
}

} // verus!
