use typetest::drain::drain_queue;
use typetest::model::{AppState, Model, Ratio, TypingState};
use typetest::msg::{AppMsg, Message, TypingMsg};
use typetest::update::update;
use typetest::words::{get_words, WordSource};

const NOW: u64 = 5_000;

fn word(s: &str) -> Vec<char> {
    s.chars().collect()
}

fn small_source() -> WordSource {
    WordSource::new(vec![vec![word("cat"), word("dog")], vec![word("bird")]]).unwrap()
}

#[test]
fn corpus_needs_a_bucket() {
    assert!(WordSource::new(Vec::new()).is_err());
}

#[test]
fn corpus_rejects_empty_bucket() {
    assert!(WordSource::new(vec![vec![word("cat")], Vec::new()]).is_err());
}

#[test]
fn corpus_rejects_empty_word() {
    assert!(WordSource::new(vec![vec![word("cat"), word("")]]).is_err());
}

#[test]
fn corpus_rejects_uppercase_word() {
    assert!(WordSource::new(vec![vec![word("Cat")]]).is_err());
}

#[test]
fn corpus_rejects_nonletter_word() {
    assert!(WordSource::new(vec![vec![word("c4t")]]).is_err());
    assert!(WordSource::new(vec![vec![word("two words")]]).is_err());
}

#[test]
fn corpus_accepts_lowercase_words() {
    let ws = small_source();
    assert_eq!(ws.num_buckets(), 2);
}

#[test]
fn sampled_line_holds_corpus_words() {
    let ws = small_source();
    let line: String = get_words(&ws, 5).into_iter().collect();
    let stripped = line.strip_suffix(' ').expect("line ends with a space");
    let parts: Vec<&str> = stripped.split(' ').collect();
    assert_eq!(parts.len(), 5);
    for p in parts {
        assert!(["cat", "dog", "bird"].contains(&p));
    }
}

#[test]
fn sampling_zero_words_gives_empty_line() {
    let ws = small_source();
    assert!(get_words(&ws, 0).is_empty());
}

#[test]
fn sampling_zero_words_needs_no_corpus() {
    let ws = WordSource::empty();
    assert!(get_words(&ws, 0).is_empty());
}

#[test]
fn reload_replaces_line_and_counts_words() {
    let mut m = Model::default();
    m.word_source = small_source();
    m.num_words_each_line = 3;
    m.app_state = AppState::Running(TypingState::Typing);
    m.current_words = word("old line ");
    m.current_typed = word("old");
    let out = update(&mut m, Message::ReloadWordsMsg, NOW);
    assert_eq!(out, vec![Message::CalWPMMsg]);
    assert!(m.current_typed.is_empty());
    assert_eq!(m.num_words_finished, 3);
    let line: String = m.current_words.iter().collect();
    let stripped = line.strip_suffix(' ').expect("line ends with a space");
    assert_eq!(stripped.split(' ').count(), 3);
    for p in stripped.split(' ') {
        assert!(["cat", "dog", "bird"].contains(&p));
    }
}

#[test]
fn drain_runs_whole_ticks_to_completion() {
    let mut m = Model::default();
    m.word_source = WordSource::new(vec![vec![word("cat")]]).unwrap();
    m.num_words_each_line = 1;
    drain_queue(&mut m, vec![Message::AppMessage(AppMsg::InitMsg)], NOW);
    assert_eq!(m.app_state, AppState::Running(TypingState::Waiting));
    let line = m.current_words.clone();
    assert_eq!(line, word("cat "));
    // one keystroke per tick, as the driving loop feeds them
    for c in line {
        drain_queue(
            &mut m,
            vec![Message::TypingMessage(TypingMsg::InputCharMsg(c))],
            NOW,
        );
    }
    // the completed line reloaded and the statistics were recomputed
    assert!(m.current_typed.is_empty());
    assert_eq!(m.current_words, word("cat "));
    assert_eq!(m.num_words_finished, 1);
    assert_eq!(m.num_correct, 4);
    assert_eq!(m.num_mistake, 0);
    assert_eq!(m.accuracy, Ratio { num: 4, den: 4 });
    assert_eq!(m.wpm, Ratio { num: 0, den: 1 });
    assert_eq!(m.app_state, AppState::Running(TypingState::Typing));
}

#[test]
fn init_samples_first_line_then_runs() {
    let mut m = Model::default();
    m.word_source = small_source();
    m.num_words_each_line = 2;
    let out = update(&mut m, Message::AppMessage(AppMsg::InitMsg), NOW);
    assert_eq!(out, vec![Message::AppMessage(AppMsg::RunMsg)]);
    assert_eq!(m.app_state, AppState::Loading);
    let line: String = m.current_words.iter().collect();
    assert!(line.ends_with(' '));
    assert_eq!(line.trim_end().split(' ').count(), 2);
    let mut stack = out;
    while let Some(msg) = stack.pop() {
        let mut more = update(&mut m, msg, NOW);
        stack.append(&mut more);
    }
    assert_eq!(m.app_state, AppState::Running(TypingState::Waiting));
}
