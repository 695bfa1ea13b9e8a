//! What holds of every session, whatever it is told.

use crate::domain::{answers, question_for, QuestionView, WordView};
use crate::game::deck;
use crate::order::is_word_order;
use crate::time::time_left;
use crate::session::{
    after, between, lemma_one_more_reply, shown_on, start, step, transcript, Event, Reply,
    Session, Stage, MAX_TRIES,
};
use vstd::prelude::*;

verus! {

/// What holds of a session wherever it stands: it has closed no more
/// questions than the deck holds, it has counted at most `MAX_TRIES` mistakes
/// for each of them, and it has taken up each closed question and, while one is
/// open, that one too. While a question is open it has been put at least once
/// and at most `MAX_TRIES` times.
pub open spec fn is_sound(deck: Seq<QuestionView>, session: Session) -> bool {
    &&& session.position <= deck.len()
    &&& 0 <= session.mistakes <= MAX_TRIES * session.position
    &&& match session.stage {
        Stage::Checking => {
            &&& session.position < deck.len()
            &&& session.words_asked == session.position
            &&& session.attempts == 0
        },
        Stage::Showing | Stage::Listening => {
            &&& session.position < deck.len()
            &&& session.words_asked == session.position + 1
            &&& 1 <= session.attempts <= MAX_TRIES
        },
        Stage::Done => session.words_asked == session.position && session.attempts == 0,
        Stage::Derailed => true,
    }
}

/// The number of questions closed in a run of events.
pub open spec fn closed(events: Seq<Event>) -> nat
    decreases events.len(),
{
    if events.len() == 0 {
        0
    } else {
        closed(events.drop_last()) + if events.last() is EndQuestion {
            1nat
        } else {
            0nat
        }
    }
}

/// Whether `event`, if it puts a question, puts the one at `place` of the
/// deck, as the next word after `place` words, with no more time left than the
/// limit and no more mistakes counted than `MAX_TRIES` for each word so far.
pub open spec fn puts(deck: Seq<QuestionView>, timeout: nat, event: Event, place: nat) -> bool {
    match event {
        Event::StartQuestion { prompt, time_remaining, words_asked, mistakes, notes } => {
            &&& place < deck.len()
            &&& prompt == deck[place as int].prompt
            &&& notes == deck[place as int].notes
            &&& words_asked == place + 1
            &&& time_remaining <= timeout
            &&& 0 <= mistakes < MAX_TRIES * words_asked
        },
        _ => true,
    }
}

/// Whether a session that is done has ended as a session may: with every
/// question of the deck closed, or with a game-over notice that carries the
/// final counts and after which nothing more is shown.
pub open spec fn ended_well(deck: Seq<QuestionView>, end: Session, shown: Seq<Event>) -> bool {
    ||| end.position == deck.len()
    ||| shown.len() > 0 && shown.last() == (Event::GameOver {
        words_asked: end.words_asked,
        mistakes: end.mistakes,
    })
}

/// The number of questions closed in two runs of events, one after the
/// other, is the sum of the two numbers.
pub proof fn lemma_closed_adds_up(first: Seq<Event>, second: Seq<Event>)
    ensures
        closed(first + second) == closed(first) + closed(second),
    decreases second.len(),
{
    if second.len() == 0 {
        assert(first + second =~= first);
    } else {
        lemma_closed_adds_up(first, second.drop_last());
        assert((first + second).drop_last() =~= first + second.drop_last());
    }
}

/// The number of closed questions is one where the only event closes one.
proof fn lemma_closed_one(event: Event)
    ensures
        closed(seq![event]) == if event is EndQuestion {
            1nat
        } else {
            0nat
        },
{
    reveal_with_fuel(closed, 2);
    assert(seq![event].drop_last() =~= Seq::<Event>::empty());
}

/// A step keeps a sound session sound.
pub proof fn lemma_step_keeps_sound(
    deck: Seq<QuestionView>,
    timeout: nat,
    session: Session,
    reply: Reply,
)
    requires
        is_sound(deck, session),
    ensures
        is_sound(deck, step(deck, timeout, session, reply)),
{
}

/// What one step shows: at most two events, of which the second, if there is
/// one, closes the question after a wrong line. A question is put only as the
/// single event of a step, and it is the question at hand. The step moves on
/// by as many questions as it closes. Where it ends the session, it closes the
/// last question or gives the game-over notice.
proof fn lemma_one_step(deck: Seq<QuestionView>, timeout: nat, session: Session, reply: Reply)
    requires
        is_sound(deck, session),
    ensures
        ({
            let next = step(deck, timeout, session, reply);
            let added = shown_on(deck, timeout, session, reply);
            &&& added.len() <= 2
            &&& next.position == session.position + closed(added)
            &&& added.len() >= 1 ==> puts(deck, timeout, added[0], session.position)
            &&& added.len() == 2 ==> added[0] is WrongAnswer && added[1] is EndQuestion
            &&& next.stage is Done && !(session.stage is Done) ==> ended_well(deck, next, added)
            &&& session.stage is Done ==> !(next.stage is Done)
        }),
{
    let added = shown_on(deck, timeout, session, reply);
    if added.len() == 1 {
        assert(added =~= seq![added[0]]);
        lemma_closed_one(added[0]);
    } else if added.len() == 2 {
        assert(added =~= seq![added[0]] + seq![added[1]]);
        lemma_closed_one(added[0]);
        lemma_closed_one(added[1]);
        lemma_closed_adds_up(seq![added[0]], seq![added[1]]);
    } else {
        assert(added =~= Seq::<Event>::empty());
    }
}

/// All that the induction over the replies carries along.
spec fn on_course(deck: Seq<QuestionView>, timeout: nat, replies: Seq<Reply>) -> bool {
    let end = after(deck, timeout, replies);
    let shown = transcript(deck, timeout, replies);
    &&& is_sound(deck, end)
    &&& end.position == closed(shown)
    &&& end.stage is Done ==> ended_well(deck, end, shown)
    &&& forall|i: int|
        0 <= i < shown.len() ==> puts(deck, timeout, #[trigger] shown[i], closed(shown.take(i)))
}

proof fn lemma_on_course(deck: Seq<QuestionView>, timeout: nat, replies: Seq<Reply>)
    ensures
        on_course(deck, timeout, replies),
    decreases replies.len(),
{
    let shown = transcript(deck, timeout, replies);
    if replies.len() == 0 {
        assert(shown.len() == 0);
    } else {
        let earlier = replies.drop_last();
        let reply = replies.last();
        lemma_on_course(deck, timeout, earlier);
        let session = after(deck, timeout, earlier);
        let so_far = transcript(deck, timeout, earlier);
        let added = shown_on(deck, timeout, session, reply);
        let end = step(deck, timeout, session, reply);
        assert(shown == so_far + added);
        assert(end == after(deck, timeout, replies));
        lemma_step_keeps_sound(deck, timeout, session, reply);
        lemma_one_step(deck, timeout, session, reply);
        lemma_closed_adds_up(so_far, added);
        assert(end.stage is Done ==> ended_well(deck, end, shown));
        assert forall|i: int| 0 <= i < shown.len() implies puts(
            deck,
            timeout,
            #[trigger] shown[i],
            closed(shown.take(i)),
        ) by {
            if i < so_far.len() {
                assert(shown.take(i) =~= so_far.take(i));
                assert(shown[i] == so_far[i]);
            } else if i == so_far.len() {
                assert(shown.take(i) =~= so_far);
                assert(shown[i] == added[0]);
            } else {
                assert(shown[i] == added[1]);
            }
        }
    }
}

/// A session is sound after any run of replies.
pub proof fn lemma_always_sound(deck: Seq<QuestionView>, timeout: nat, replies: Seq<Reply>)
    ensures
        is_sound(deck, after(deck, timeout, replies)),
{
    lemma_on_course(deck, timeout, replies);
}

/// The questions are put in the order of the deck, none left out and none
/// taken up again once it is closed: whenever a question is put, it is the one
/// whose place in the deck is the number of questions closed before. The
/// place of the question at hand is the number of questions closed in all.
pub proof fn lemma_questions_in_order(
    deck: Seq<QuestionView>,
    timeout: nat,
    replies: Seq<Reply>,
    i: int,
)
    requires
        0 <= i < transcript(deck, timeout, replies).len(),
    ensures
        puts(
            deck,
            timeout,
            transcript(deck, timeout, replies)[i],
            closed(transcript(deck, timeout, replies).take(i)),
        ),
        after(deck, timeout, replies).position == closed(transcript(deck, timeout, replies)),
{
    lemma_on_course(deck, timeout, replies);
}

/// A session ends when the deck is used up or when the time is: once done,
/// it has closed every question, or the last thing it showed is the game-over
/// notice with the final counts.
pub proof fn lemma_end_of_session(deck: Seq<QuestionView>, timeout: nat, replies: Seq<Reply>)
    requires
        after(deck, timeout, replies).stage is Done,
    ensures
        ended_well(
            deck,
            after(deck, timeout, replies),
            transcript(deck, timeout, replies),
        ),
{
    lemma_on_course(deck, timeout, replies);
}

/// Unshuffled, the deck is the list: the question at each place is made of
/// the word at that place.
pub proof fn lemma_unshuffled_deck(words: Seq<WordView>, flip: bool, order: Seq<usize>)
    requires
        words.len() <= usize::MAX,
        is_word_order(order, words.len(), false),
    ensures
        deck(words, flip, order) == Seq::new(
            words.len(),
            |k: int| question_for(words[k], flip),
        ),
{
    assert(deck(words, flip, order) =~= Seq::new(
        words.len(),
        |k: int| question_for(words[k], flip),
    ));
}

/// Unshuffled, the words are asked in the order of the list, from the first
/// on, for as long as the session lasts: whenever a question is put, it is made
/// of the word whose place in the list is the number of questions closed
/// before.
pub proof fn lemma_unshuffled_in_list_order(
    words: Seq<WordView>,
    flip: bool,
    order: Seq<usize>,
    timeout: nat,
    replies: Seq<Reply>,
    i: int,
)
    requires
        words.len() <= usize::MAX,
        is_word_order(order, words.len(), false),
        0 <= i < transcript(deck(words, flip, order), timeout, replies).len(),
        transcript(deck(words, flip, order), timeout, replies)[i] is StartQuestion,
    ensures
        ({
            let shown = transcript(deck(words, flip, order), timeout, replies);
            let place = closed(shown.take(i));
            &&& place < words.len()
            &&& shown[i]->prompt == question_for(words[place as int], flip).prompt
            &&& shown[i]->notes == question_for(words[place as int], flip).notes
            &&& shown[i]->StartQuestion_words_asked == place + 1
        }),
{
    lemma_unshuffled_deck(words, flip, order);
    lemma_questions_in_order(deck(words, flip, order), timeout, replies, i);
}

/// What a session is told in a number of tries at one question: before each
/// line, the clock as it stood when the question was put.
pub open spec fn tries(clocks: Seq<nat>, lines: Seq<Seq<char>>) -> Seq<Reply>
    recommends
        clocks.len() == lines.len(),
    decreases lines.len(),
{
    if lines.len() == 0 {
        Seq::empty()
    } else {
        tries(clocks.drop_last(), lines.drop_last()).push(Reply::Clock(clocks.last())).push(
            Reply::Line(lines.last()),
        )
    }
}

/// What a session shows in a number of tries at one question, taken up as
/// word number `words_asked` with `mistakes` mistakes made before: for each
/// line the question, with the time left by the clock and one mistake more for
/// each line before; then, after a wrong line, the notice that it was wrong;
/// and the end of the question after a right line or after the last wrong one
/// that there is room for.
pub open spec fn tries_shown(
    question: QuestionView,
    timeout: nat,
    words_asked: int,
    mistakes: int,
    clocks: Seq<nat>,
    lines: Seq<Seq<char>>,
) -> Seq<Event>
    recommends
        clocks.len() == lines.len(),
    decreases lines.len(),
{
    if lines.len() == 0 {
        Seq::empty()
    } else {
        let earlier = tries_shown(
            question,
            timeout,
            words_asked,
            mistakes,
            clocks.drop_last(),
            lines.drop_last(),
        );
        let put = Event::StartQuestion {
            prompt: question.prompt,
            time_remaining: time_left(timeout, clocks.last()),
            words_asked,
            mistakes: mistakes + lines.len() - 1,
            notes: question.notes,
        };
        let wrong = Event::WrongAnswer { answer: question.answer };
        if answers(question, lines.last()) {
            earlier.push(put).push(Event::EndQuestion)
        } else if lines.len() >= MAX_TRIES {
            earlier.push(put).push(wrong).push(Event::EndQuestion)
        } else {
            earlier.push(put).push(wrong)
        }
    }
}

/// Wrong lines keep a question open while tries are left: each is counted as
/// one more attempt, and nothing else changes.
proof fn lemma_wrong_tries(
    deck: Seq<QuestionView>,
    timeout: nat,
    before: Seq<Reply>,
    clocks: Seq<nat>,
    lines: Seq<Seq<char>>,
)
    requires
        after(deck, timeout, before).stage is Showing,
        after(deck, timeout, before).attempts == 1,
        clocks.len() == lines.len(),
        lines.len() < MAX_TRIES,
        forall|i: int|
            0 <= i < lines.len() ==> !answers(
                deck[after(deck, timeout, before).position as int],
                #[trigger] lines[i],
            ),
    ensures
        after(deck, timeout, before + tries(clocks, lines)) == (Session {
            attempts: lines.len() as int + 1,
            ..after(deck, timeout, before)
        }),
        transcript(deck, timeout, before + tries(clocks, lines)) == transcript(
            deck,
            timeout,
            before,
        ) + tries_shown(
            deck[after(deck, timeout, before).position as int],
            timeout,
            after(deck, timeout, before).words_asked,
            after(deck, timeout, before).mistakes,
            clocks,
            lines,
        ),
    decreases lines.len(),
{
    if lines.len() == 0 {
        assert(before + tries(clocks, lines) =~= before);
        assert(transcript(deck, timeout, before) + Seq::<Event>::empty() =~= transcript(
            deck,
            timeout,
            before,
        ));
    } else {
        lemma_wrong_tries(deck, timeout, before, clocks.drop_last(), lines.drop_last());
        lemma_last_try(deck, timeout, before, clocks, lines);
    }
}

/// The last of a number of tries: what it adds to what the tries before it
/// have shown, and where it leaves the session, is one step for the reading of
/// the clock and one for the line.
proof fn lemma_last_try(
    deck: Seq<QuestionView>,
    timeout: nat,
    before: Seq<Reply>,
    clocks: Seq<nat>,
    lines: Seq<Seq<char>>,
)
    requires
        clocks.len() == lines.len(),
        1 <= lines.len() <= MAX_TRIES,
        after(deck, timeout, before + tries(clocks.drop_last(), lines.drop_last())) == (Session {
            attempts: lines.len() as int,
            ..after(deck, timeout, before)
        }),
        after(deck, timeout, before).stage is Showing,
        transcript(deck, timeout, before + tries(clocks.drop_last(), lines.drop_last()))
            == transcript(deck, timeout, before) + tries_shown(
            deck[after(deck, timeout, before).position as int],
            timeout,
            after(deck, timeout, before).words_asked,
            after(deck, timeout, before).mistakes,
            clocks.drop_last(),
            lines.drop_last(),
        ),
    ensures
        after(deck, timeout, before + tries(clocks, lines).drop_last()) == (Session {
            stage: Stage::Listening,
            attempts: lines.len() as int,
            ..after(deck, timeout, before)
        }),
        after(deck, timeout, before + tries(clocks, lines)) == step(
            deck,
            timeout,
            after(deck, timeout, before + tries(clocks, lines).drop_last()),
            Reply::Line(lines.last()),
        ),
        transcript(deck, timeout, before + tries(clocks, lines)) == transcript(
            deck,
            timeout,
            before,
        ) + tries_shown(
            deck[after(deck, timeout, before).position as int],
            timeout,
            after(deck, timeout, before).words_asked,
            after(deck, timeout, before).mistakes,
            clocks,
            lines,
        ),
{
    let earlier = before + tries(clocks.drop_last(), lines.drop_last());
    let clock = Reply::Clock(clocks.last());
    let line = Reply::Line(lines.last());
    lemma_one_more_reply(deck, timeout, earlier, clock);
    lemma_one_more_reply(deck, timeout, earlier.push(clock), line);
    assert(before + tries(clocks, lines) =~= earlier.push(clock).push(line));
    assert(before + tries(clocks, lines).drop_last() =~= earlier.push(clock));
    let so_far = transcript(deck, timeout, before);
    let shown = tries_shown(
        deck[after(deck, timeout, before).position as int],
        timeout,
        after(deck, timeout, before).words_asked,
        after(deck, timeout, before).mistakes,
        clocks,
        lines,
    );
    assert(transcript(deck, timeout, earlier.push(clock).push(line)) =~= so_far + shown);
}

/// A line that answers the question closes it, and each line before it
/// counts as a mistake. If a question is taken up and `lines` are the lines
/// then typed, all wrong but the last and no more than `MAX_TRIES` in all, then
/// the question has been put as often as there are lines when the last one
/// comes, the session turns to the next question with as many mistakes more as
/// there were lines before the right one, and what it has shown meanwhile is
/// what [`tries_shown`] says.
pub proof fn lemma_right_line_closes_question(
    deck: Seq<QuestionView>,
    timeout: nat,
    before: Seq<Reply>,
    clocks: Seq<nat>,
    lines: Seq<Seq<char>>,
)
    requires
        after(deck, timeout, before).stage is Showing,
        after(deck, timeout, before).attempts == 1,
        clocks.len() == lines.len(),
        1 <= lines.len() <= MAX_TRIES,
        forall|i: int|
            0 <= i < lines.len() - 1 ==> !answers(
                deck[after(deck, timeout, before).position as int],
                #[trigger] lines[i],
            ),
        answers(deck[after(deck, timeout, before).position as int], lines.last()),
    ensures
        after(deck, timeout, before + tries(clocks, lines).drop_last()) == (Session {
            stage: Stage::Listening,
            attempts: lines.len() as int,
            ..after(deck, timeout, before)
        }),
        after(deck, timeout, before + tries(clocks, lines)) == between(
            deck,
            after(deck, timeout, before).position + 1,
            after(deck, timeout, before).words_asked,
            after(deck, timeout, before).mistakes + lines.len() - 1,
        ),
        transcript(deck, timeout, before + tries(clocks, lines)) == transcript(
            deck,
            timeout,
            before,
        ) + tries_shown(
            deck[after(deck, timeout, before).position as int],
            timeout,
            after(deck, timeout, before).words_asked,
            after(deck, timeout, before).mistakes,
            clocks,
            lines,
        ),
{
    lemma_wrong_tries(deck, timeout, before, clocks.drop_last(), lines.drop_last());
    lemma_last_try(deck, timeout, before, clocks, lines);
}

/// A question is given up after `MAX_TRIES` wrong lines. If a question is
/// taken up and the next `MAX_TRIES` lines are all wrong, then the question
/// has been put `MAX_TRIES` times when the last of them comes, the session
/// turns to the next question with `MAX_TRIES` mistakes more and asks for no
/// further line on this one, and what it has shown meanwhile is what
/// [`tries_shown`] says.
pub proof fn lemma_wrong_lines_close_question(
    deck: Seq<QuestionView>,
    timeout: nat,
    before: Seq<Reply>,
    clocks: Seq<nat>,
    lines: Seq<Seq<char>>,
)
    requires
        after(deck, timeout, before).stage is Showing,
        after(deck, timeout, before).attempts == 1,
        clocks.len() == lines.len(),
        lines.len() == MAX_TRIES,
        forall|i: int|
            0 <= i < lines.len() ==> !answers(
                deck[after(deck, timeout, before).position as int],
                #[trigger] lines[i],
            ),
    ensures
        after(deck, timeout, before + tries(clocks, lines).drop_last()) == (Session {
            stage: Stage::Listening,
            attempts: MAX_TRIES as int,
            ..after(deck, timeout, before)
        }),
        after(deck, timeout, before + tries(clocks, lines)) == between(
            deck,
            after(deck, timeout, before).position + 1,
            after(deck, timeout, before).words_asked,
            after(deck, timeout, before).mistakes + MAX_TRIES,
        ),
        transcript(deck, timeout, before + tries(clocks, lines)) == transcript(
            deck,
            timeout,
            before,
        ) + tries_shown(
            deck[after(deck, timeout, before).position as int],
            timeout,
            after(deck, timeout, before).words_asked,
            after(deck, timeout, before).mistakes,
            clocks,
            lines,
        ),
{
    lemma_wrong_tries(deck, timeout, before, clocks.drop_last(), lines.drop_last());
    lemma_last_try(deck, timeout, before, clocks, lines);
}

/// Without any time a session can but end: the first reading of the clock
/// ends it, and whatever comes after that derails it.
proof fn lemma_no_time(deck: Seq<QuestionView>, replies: Seq<Reply>)
    requires
        deck.len() > 0,
    ensures
        replies.len() == 1 && replies[0] is Clock ==> after(deck, 0, replies) == (Session {
            stage: Stage::Done,
            ..start(deck)
        }),
        replies.len() == 0 ==> after(deck, 0, replies).stage is Checking,
        replies.len() == 1 && !(replies[0] is Clock) ==> after(deck, 0, replies).stage is Derailed,
        replies.len() >= 2 ==> after(deck, 0, replies).stage is Derailed,
    decreases replies.len(),
{
    if replies.len() > 0 {
        lemma_no_time(deck, replies.drop_last());
        if replies.len() == 2 {
            assert(replies.drop_last()[0] == replies[0]);
        }
    }
}

/// With a time limit of zero no question is put. A session on a deck that
/// is not empty then takes one reading of the clock and shows the game-over
/// notice, with both counts at zero, and nothing else.
pub proof fn lemma_no_time_no_question(deck: Seq<QuestionView>, replies: Seq<Reply>)
    requires
        deck.len() > 0,
        after(deck, 0, replies).stage is Done,
    ensures
        replies.len() == 1,
        replies[0] is Clock,
        after(deck, 0, replies).words_asked == 0,
        after(deck, 0, replies).mistakes == 0,
        transcript(deck, 0, replies) == seq![Event::GameOver { words_asked: 0, mistakes: 0 }],
{
    lemma_no_time(deck, replies);
    assert(replies.drop_last() =~= Seq::<Reply>::empty());
    assert(transcript(deck, 0, replies.drop_last()) =~= Seq::<Event>::empty());
    assert(transcript(deck, 0, replies) =~= seq![Event::GameOver { words_asked: 0, mistakes: 0 }]);
}

} // verus!
