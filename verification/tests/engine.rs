use typetest::input::{handle_key, Key};
use typetest::model::{AppState, Model, Ratio, TypingState, IDLE_TIMEOUT_MS};
use typetest::msg::{AppMsg, Message, TypingMsg};
use typetest::update::update;

const NOW: u64 = 5_000;

fn chars(s: &str) -> Vec<char> {
    s.chars().collect()
}

fn running_model(words: &str) -> Model {
    let mut m = Model::default();
    m.app_state = AppState::Running(TypingState::Waiting);
    m.current_words = chars(words);
    m
}

/// Feeds one keystroke through the engine in the stack order the
/// driving loop uses, counting rather than processing emitted
/// line-reload messages so the completed line stays observable.
fn type_char(m: &mut Model, c: char) -> usize {
    let mut reloads = 0;
    let mut stack = update(m, Message::TypingMessage(TypingMsg::InputCharMsg(c)), NOW);
    while let Some(msg) = stack.pop() {
        if matches!(msg, Message::ReloadWordsMsg) {
            reloads += 1;
            continue;
        }
        let mut out = update(m, msg, NOW);
        stack.append(&mut out);
    }
    reloads
}

/// Drains a cascade fully; used where no reload can be emitted.
fn drain(m: &mut Model, mut stack: Vec<Message>) {
    while let Some(msg) = stack.pop() {
        assert!(!matches!(msg, Message::ReloadWordsMsg));
        let mut out = update(m, msg, NOW);
        stack.append(&mut out);
    }
}

#[test]
fn correct_line_cat_dog_completes_once() {
    let mut m = running_model("cat dog");
    let mut reloads = 0;
    for c in "cat dog".chars() {
        reloads += type_char(&mut m, c);
    }
    assert_eq!(m.current_typed, chars("cat dog"));
    assert_eq!(m.num_correct, 7);
    assert_eq!(m.num_mistake, 0);
    assert_eq!(reloads, 1);
}

#[test]
fn wrong_second_char_with_typing_allowed() {
    let mut m = running_model("cat");
    assert!(m.allow_typing_after_mistake);
    type_char(&mut m, 'c');
    type_char(&mut m, 'x');
    assert_eq!(m.current_typed, chars("cx"));
    assert_eq!(m.num_correct, 1);
    assert_eq!(m.num_mistake, 1);
    assert_eq!(m.accuracy, Ratio { num: 1, den: 2 });
    assert_eq!(m.accuracy.num as f32 / m.accuracy.den as f32, 0.5);
}

#[test]
fn wrong_char_without_typing_after_mistake() {
    let mut m = running_model("cat");
    m.allow_typing_after_mistake = false;
    type_char(&mut m, 'x');
    assert_eq!(m.current_typed, chars(""));
    assert_eq!(m.num_correct, 0);
    assert_eq!(m.num_mistake, 1);
}

#[test]
fn first_keystroke_starts_typing_and_restarts_timer() {
    let mut m = running_model("cat");
    assert_eq!(m.app_state, AppState::Running(TypingState::Waiting));
    type_char(&mut m, 'c');
    assert_eq!(m.app_state, AppState::Running(TypingState::Typing));
    assert_eq!(m.timer_ms, NOW);
}

#[test]
fn mistyped_final_char_still_completes_line() {
    let mut m = running_model("ab");
    type_char(&mut m, 'a');
    let reloads = type_char(&mut m, 'x');
    assert_eq!(m.current_typed, chars("ax"));
    assert_eq!(reloads, 1);
}

#[test]
fn backspace_takes_back_correct_credit() {
    let mut m = running_model("cat");
    type_char(&mut m, 'c');
    assert_eq!(m.num_correct, 1);
    let out = update(&mut m, Message::TypingMessage(TypingMsg::BackSpaceMsg), NOW);
    drain(&mut m, out);
    assert_eq!(m.current_typed, chars(""));
    assert_eq!(m.num_correct, 0);
    assert_eq!(m.num_mistake, 0);
}

#[test]
fn backspace_keeps_recorded_mistake() {
    let mut m = running_model("cat");
    type_char(&mut m, 'x');
    assert_eq!(m.num_mistake, 1);
    let out = update(&mut m, Message::TypingMessage(TypingMsg::BackSpaceMsg), NOW);
    drain(&mut m, out);
    assert_eq!(m.current_typed, chars(""));
    assert_eq!(m.num_correct, 0);
    assert_eq!(m.num_mistake, 1);
}

#[test]
fn backspace_noop_when_nothing_typed() {
    let mut m = running_model("cat");
    let out = update(&mut m, Message::TypingMessage(TypingMsg::BackSpaceMsg), NOW);
    assert!(out.is_empty());
    assert_eq!(m.current_typed, chars(""));
    assert_eq!(m.num_correct, 0);
    assert_eq!(m.num_mistake, 0);
    assert_eq!(m.app_state, AppState::Running(TypingState::Waiting));
}

#[test]
fn backspace_key_dropped_when_disabled() {
    let mut m = running_model("cat");
    m.enable_backspace = false;
    let msgs = handle_key(&m, Key::Backspace);
    assert!(msgs.is_empty());
}

#[test]
fn engine_ignores_backspace_when_disabled() {
    let mut m = running_model("cat");
    type_char(&mut m, 'c');
    m.enable_backspace = false;
    let out = update(&mut m, Message::TypingMessage(TypingMsg::BackSpaceMsg), NOW);
    assert!(out.is_empty());
    assert_eq!(m.current_typed, chars("c"));
    assert_eq!(m.num_correct, 1);
    assert_eq!(m.num_mistake, 0);
}

#[test]
fn no_transition_out_of_quitting() {
    for msg in [
        Message::WaitMsg,
        Message::TypeMsg,
        Message::AppMessage(AppMsg::RunMsg),
        Message::AppMessage(AppMsg::InfoMsg),
        Message::AppMessage(AppMsg::QuitMsg),
        Message::TypingMessage(TypingMsg::InputCharMsg('c')),
        Message::TypingMessage(TypingMsg::BackSpaceMsg),
        Message::EmptyMsg,
    ] {
        let mut m = running_model("cat");
        m.app_state = AppState::Quiting;
        let out = update(&mut m, msg, NOW);
        assert!(out.is_empty());
        assert_eq!(m.app_state, AppState::Quiting);
    }
}

#[test]
fn info_toggle_only_from_running() {
    let mut m = Model::default();
    assert_eq!(m.app_state, AppState::Loading);
    let out = update(&mut m, Message::AppMessage(AppMsg::InfoMsg), NOW);
    assert!(out.is_empty());
    assert_eq!(m.app_state, AppState::Loading);
}

#[test]
fn wrong_char_emits_one_timer_restart() {
    let mut m = running_model("cat");
    let out = update(&mut m, Message::TypingMessage(TypingMsg::InputCharMsg('x')), NOW);
    assert_eq!(
        out,
        vec![
            Message::TypingMessage(TypingMsg::InputWrongCharMsg('x')),
            Message::RestartTimerMsg,
            Message::TypeMsg,
        ]
    );
}

#[test]
fn backspace_key_forwarded_when_enabled() {
    let m = running_model("cat");
    let msgs = handle_key(&m, Key::Backspace);
    assert_eq!(msgs, vec![Message::TypingMessage(TypingMsg::BackSpaceMsg)]);
}

#[test]
fn escape_leaves_info_for_waiting() {
    let mut m = Model::default();
    m.app_state = AppState::Info;
    let msgs = handle_key(&m, Key::Esc);
    assert_eq!(msgs, vec![Message::AppMessage(AppMsg::RunMsg)]);
    drain(&mut m, msgs);
    assert_eq!(m.app_state, AppState::Running(TypingState::Waiting));
}

#[test]
fn escape_quits_while_typing() {
    let mut m = Model::default();
    m.app_state = AppState::Running(TypingState::Typing);
    let msgs = handle_key(&m, Key::Esc);
    assert_eq!(msgs, vec![Message::AppMessage(AppMsg::QuitMsg)]);
    drain(&mut m, msgs);
    assert_eq!(m.app_state, AppState::Quiting);
}

#[test]
fn escape_ignored_while_loading() {
    let m = Model::default();
    assert!(handle_key(&m, Key::Esc).is_empty());
}

#[test]
fn tab_toggles_between_running_and_info() {
    let mut m = running_model("cat");
    let msgs = handle_key(&m, Key::Tab);
    assert_eq!(msgs, vec![Message::AppMessage(AppMsg::InfoMsg)]);
    drain(&mut m, msgs);
    assert_eq!(m.app_state, AppState::Info);
    let back = handle_key(&m, Key::Tab);
    assert_eq!(back, vec![Message::AppMessage(AppMsg::RunMsg)]);
    drain(&mut m, back);
    assert_eq!(m.app_state, AppState::Running(TypingState::Waiting));
}

#[test]
fn tab_ignored_while_loading() {
    let m = Model::default();
    assert!(handle_key(&m, Key::Tab).is_empty());
}

#[test]
fn only_letters_and_space_forwarded() {
    let m = running_model("cat");
    assert_eq!(
        handle_key(&m, Key::Char('a')),
        vec![Message::TypingMessage(TypingMsg::InputCharMsg('a'))]
    );
    assert_eq!(
        handle_key(&m, Key::Char('Z')),
        vec![Message::TypingMessage(TypingMsg::InputCharMsg('Z'))]
    );
    assert_eq!(
        handle_key(&m, Key::Char(' ')),
        vec![Message::TypingMessage(TypingMsg::InputCharMsg(' '))]
    );
    assert!(handle_key(&m, Key::Char('1')).is_empty());
    assert!(handle_key(&m, Key::Char('%')).is_empty());
    assert!(handle_key(&m, Key::Other).is_empty());
}

#[test]
fn characters_ignored_on_info_screen() {
    let mut m = Model::default();
    m.app_state = AppState::Info;
    m.current_words = chars("cat");
    let out = update(&mut m, Message::TypingMessage(TypingMsg::InputCharMsg('c')), NOW);
    assert!(out.is_empty());
    assert_eq!(m.current_typed, chars(""));
    assert_eq!(m.num_correct, 0);
}

#[test]
fn accuracy_perfect_with_no_attempts() {
    let mut m = Model::default();
    let out = update(&mut m, Message::CalAccuracyMsg, NOW);
    assert!(out.is_empty());
    assert_eq!(m.accuracy, Ratio { num: 1, den: 1 });
    assert_eq!(m.accuracy.num as f32 / m.accuracy.den as f32, 1.0);
}

#[test]
fn accuracy_stays_in_unit_interval() {
    let mut m = running_model("cat dog");
    for c in "cxt".chars() {
        type_char(&mut m, c);
        assert!(m.accuracy.den >= 1);
        assert!(m.accuracy.num <= m.accuracy.den);
    }
}

#[test]
fn wpm_after_a_minute() {
    let mut m = Model::default();
    m.num_words_finished = 10;
    m.time_elapsed_ms = 60_000;
    let out = update(&mut m, Message::CalWPMMsg, NOW);
    assert!(out.is_empty());
    assert_eq!(m.wpm, Ratio { num: 600_000, den: 60_000 });
    assert_eq!(m.wpm.num as f32 / m.wpm.den as f32, 10.0);
}

#[test]
fn wpm_zero_with_no_elapsed_time() {
    let mut m = Model::default();
    m.num_words_finished = 10;
    let out = update(&mut m, Message::CalWPMMsg, NOW);
    assert!(out.is_empty());
    assert_eq!(m.wpm, Ratio { num: 0, den: 1 });
}

#[test]
fn restart_timer_only_moves_reference() {
    let mut m = Model::default();
    m.time_elapsed_ms = 42;
    let out = update(&mut m, Message::RestartTimerMsg, 1_234);
    assert!(out.is_empty());
    assert_eq!(m.timer_ms, 1_234);
    assert_eq!(m.time_elapsed_ms, 42);
}

#[test]
fn wait_and_type_messages_switch_substate() {
    let mut m = running_model("cat");
    let out = update(&mut m, Message::TypeMsg, NOW);
    assert!(out.is_empty());
    assert_eq!(m.app_state, AppState::Running(TypingState::Typing));
    let out = update(&mut m, Message::WaitMsg, NOW);
    assert!(out.is_empty());
    assert_eq!(m.app_state, AppState::Running(TypingState::Waiting));
}

#[test]
fn empty_message_is_noop() {
    let mut m = running_model("cat");
    let out = update(&mut m, Message::EmptyMsg, NOW);
    assert!(out.is_empty());
    assert_eq!(m.app_state, AppState::Running(TypingState::Waiting));
    assert_eq!(m.current_typed, chars(""));
}

#[test]
fn correct_counter_reaches_machine_limit() {
    let mut m = running_model("ab");
    m.num_correct = i32::MAX - 1;
    type_char(&mut m, 'a');
    assert_eq!(m.num_correct, i32::MAX);
    assert_eq!(m.current_typed, chars("a"));
}

#[test]
fn injected_correct_char_ignored_when_line_full() {
    let mut m = running_model("ab");
    type_char(&mut m, 'a');
    m.current_typed = chars("ab");
    let out = update(
        &mut m,
        Message::TypingMessage(TypingMsg::InputCorrectCharMsg('x')),
        NOW,
    );
    assert!(out.is_empty());
    assert_eq!(m.current_typed, chars("ab"));
    assert_eq!(m.num_correct, 1);
}

#[test]
fn injected_wrong_char_ignored_when_it_matches() {
    let mut m = running_model("ab");
    let out = update(
        &mut m,
        Message::TypingMessage(TypingMsg::InputWrongCharMsg('a')),
        NOW,
    );
    assert!(out.is_empty());
    assert_eq!(m.current_typed, chars(""));
    assert_eq!(m.num_mistake, 0);
}

#[test]
fn default_model_configuration() {
    let m = Model::default();
    assert_eq!(m.app_state, AppState::Loading);
    assert!(m.current_words.is_empty());
    assert!(m.current_typed.is_empty());
    assert!(m.allow_typing_after_mistake);
    assert!(m.enable_backspace);
    assert_eq!(m.num_words_each_line, 30);
    assert_eq!(m.num_correct, 0);
    assert_eq!(m.num_mistake, 0);
    assert_eq!(m.accuracy, Ratio { num: 1, den: 1 });
    assert_eq!(m.wpm, Ratio { num: 0, den: 1 });
    assert_eq!(m.time_elapsed_ms, 0);
    assert_eq!(m.num_words_finished, 0);
}

#[test]
fn state_predicates() {
    assert!(AppState::Running(TypingState::Typing).is_running());
    assert!(AppState::Running(TypingState::Waiting).is_running());
    assert!(!AppState::Info.is_running());
    assert!(!AppState::Loading.is_running());
    assert!(!AppState::Quiting.is_running());
    assert!(AppState::Running(TypingState::Typing).is_typing());
    assert!(!AppState::Running(TypingState::Waiting).is_typing());
    assert!(AppState::Running(TypingState::Waiting).is_waiting());
    assert!(!AppState::Running(TypingState::Typing).is_waiting());
}

#[test]
fn length_accessors() {
    let mut m = running_model("cat dog");
    assert_eq!(m.current_words_len(), 7);
    assert_eq!(m.current_typed_len(), 0);
    type_char(&mut m, 'c');
    assert_eq!(m.current_typed_len(), 1);
}

#[test]
fn idle_timeout_only_while_typing() {
    let mut m = running_model("cat");
    m.timer_ms = 1_000;
    m.app_state = AppState::Running(TypingState::Typing);
    assert!(m.idle_timeout_due(1_000 + IDLE_TIMEOUT_MS + 1));
    assert!(!m.idle_timeout_due(1_000 + IDLE_TIMEOUT_MS));
    assert!(!m.idle_timeout_due(500));
    m.app_state = AppState::Running(TypingState::Waiting);
    assert!(!m.idle_timeout_due(1_000 + IDLE_TIMEOUT_MS + 1));
}

#[test]
fn time_accrues_only_while_typing() {
    let mut m = running_model("cat");
    m.accrue_time(50);
    assert_eq!(m.time_elapsed_ms, 0);
    m.app_state = AppState::Running(TypingState::Typing);
    m.accrue_time(50);
    assert_eq!(m.time_elapsed_ms, 50);
    m.accrue_time(25);
    assert_eq!(m.time_elapsed_ms, 75);
}
