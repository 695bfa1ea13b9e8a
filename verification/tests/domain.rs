use flashquiz::domain::{GameState, Question, Word};

fn cat() -> Word {
    Word {
        left: "cat".to_string(),
        right: "gato".to_string(),
        notes: Some("an animal".to_string()),
    }
}

#[test]
fn a_flipped_word_shows_its_left_term() {
    let word = cat();
    let question = word.question(true);
    assert_eq!(question.prompt, "cat");
    assert_eq!(question.answer, "gato");
    assert_eq!(question.notes, Some("an animal"));
}

#[test]
fn an_unflipped_word_shows_its_right_term() {
    let word = cat();
    let question = word.question(false);
    assert_eq!(question.prompt, "gato");
    assert_eq!(question.answer, "cat");
    assert_eq!(question.notes, Some("an animal"));
}

#[test]
fn a_word_without_a_remark_makes_a_question_without_one() {
    let word = Word { left: "dog".to_string(), right: "perro".to_string(), notes: None };
    assert_eq!(word.question(true).notes, None);
    assert_eq!(word.question(false).notes, None);
}

#[test]
fn flipping_swaps_prompt_and_answer() {
    let word = cat();
    assert_eq!(word.question(true).prompt, word.question(false).answer);
    assert_eq!(word.question(true).answer, word.question(false).prompt);
}

#[test]
fn only_the_very_answer_is_the_answer() {
    let question = Question { prompt: "gato", answer: "cat", notes: None };
    assert!(question.is_answer("cat"));
    assert!(!question.is_answer("gato"));
    assert!(!question.is_answer("Cat"));
    assert!(!question.is_answer("cat "));
    assert!(!question.is_answer(" cat"));
    assert!(!question.is_answer("ca"));
    assert!(!question.is_answer(""));
}

#[test]
fn a_typed_line_is_trimmed_before_it_is_held_against_the_answer() {
    let question = Question { prompt: "gato", answer: "cat", notes: None };
    assert!(question.is_answered_by("cat"));
    assert!(question.is_answered_by("cat\n"));
    assert!(question.is_answered_by("  cat"));
    assert!(question.is_answered_by("\t cat \r\n"));
    assert!(question.is_answered_by("\u{2003}cat\u{3000}"));
    assert!(!question.is_answered_by("c at"));
    assert!(!question.is_answered_by("CAT"));
    assert!(!question.is_answered_by("gato"));
    assert!(!question.is_answered_by(""));
}

#[test]
fn whitespace_inside_an_answer_stays() {
    let question = Question { prompt: "perrito caliente", answer: "hot dog", notes: None };
    assert!(question.is_answered_by(" hot dog "));
    assert!(!question.is_answered_by("hot  dog"));
    assert!(!question.is_answered_by("hotdog"));
}

#[test]
fn an_answer_with_whitespace_round_it_is_out_of_reach() {
    let question = Question { prompt: "x", answer: " cat", notes: None };
    assert!(question.is_answer(" cat"));
    assert!(!question.is_answered_by(" cat"));
    assert!(!question.is_answered_by("cat"));
}

#[test]
fn a_blank_line_answers_an_empty_answer() {
    let question = Question { prompt: "nada", answer: "", notes: None };
    assert!(question.is_answered_by(""));
    assert!(question.is_answered_by(" \t\n"));
    assert!(!question.is_answered_by("x"));
}

#[test]
fn a_fresh_state_has_counted_nothing() {
    let state = GameState::default();
    assert_eq!(state.num_words, 0);
    assert_eq!(state.num_mistakes, 0);
    let later = GameState::default();
    assert!(later.start_time >= state.start_time);
}
