//! The update engine: a pure transition function from (model, message)
//! to the mutated model plus a list of cascaded messages, drained to
//! exhaustion by the driving loop.

use vstd::prelude::*;

use crate::model::{
    lemma_matched_count_bounds, lemma_matched_count_push, matched_count, AppState, Model, ModelV,
    Ratio, RatioV, TypingState,
};
use crate::msg::{AppMsg, Message, TypingMsg};
use crate::words::{corpus_wf, get_words, is_line_of};

verus! {

/// The recomputed accuracy: correct over total keystrokes, or exactly
/// one while there has been no attempt at all.
pub open spec fn acc_of(correct: int, mistake: int) -> RatioV {
    if correct + mistake == 0 {
        RatioV { num: 1, den: 1 }
    } else {
        RatioV { num: correct, den: correct + mistake }
    }
}

/// The recomputed words-per-minute rate: finished words over elapsed
/// minutes, or exactly zero while no time has accrued.
pub open spec fn wpm_of(finished: int, elapsed_ms: int) -> RatioV {
    if elapsed_ms == 0 {
        RatioV { num: 0, den: 1 }
    } else {
        RatioV { num: finished * 60000, den: elapsed_ms }
    }
}

/// Messages whose outcome involves sampling a fresh random line; the
/// deterministic transition function does not cover them.
pub open spec fn is_sampling(msg: Message) -> bool {
    msg == Message::ReloadWordsMsg || msg == Message::AppMessage(AppMsg::InitMsg)
}

/// The counter a typing message increments is still clear of its
/// machine limit.
pub open spec fn counters_have_room(m: ModelV, t: TypingMsg) -> bool {
    match t {
        TypingMsg::InputCorrectCharMsg(_) => m.num_correct < i32::MAX,
        TypingMsg::InputWrongCharMsg(_) => m.num_mistake < i32::MAX,
        _ => true,
    }
}

/// The model after a line reload: a fresh target line, nothing typed,
/// and the finished-word count advanced by one line's worth.
pub open spec fn reload_line(m: ModelV, line: Seq<char>) -> ModelV {
    ModelV {
        words: line,
        typed: Seq::<char>::empty(),
        num_words_finished: m.num_words_finished + m.num_words_each_line,
        ..m
    }
}

/// The model after startup sampled its first target line.
pub open spec fn init_line(m: ModelV, line: Seq<char>) -> ModelV {
    ModelV { words: line, ..m }
}

/// The transition for one typing message, taken only while running.
///
/// The scored-keystroke messages act only when consistent with the
/// dispatch that emits them: there is room left on the line, and a
/// wrong character really differs from its target. Those guards never
/// bite in a cascade the engine itself emitted; they keep the typed
/// prefix bounded and the accuracy within the unit interval for any
/// injected message whatsoever. Backspace acts only when the session
/// allows it and something has been typed.
pub open spec fn typing_step(m: ModelV, t: TypingMsg) -> (ModelV, Seq<Message>) {
    match t {
        TypingMsg::InputCharMsg(c) => {
            if m.typed.len() < m.words.len() {
                let follow = if m.app_state.spec_is_waiting() {
                    Message::TypeMsg
                } else {
                    Message::EmptyMsg
                };
                if c == m.words[m.typed.len() as int] {
                    (
                        m,
                        seq![
                            Message::TypingMessage(TypingMsg::InputCorrectCharMsg(c)),
                            Message::RestartTimerMsg,
                            follow,
                        ],
                    )
                } else {
                    (
                        m,
                        seq![
                            Message::TypingMessage(TypingMsg::InputWrongCharMsg(c)),
                            Message::RestartTimerMsg,
                            follow,
                        ],
                    )
                }
            } else {
                (m, Seq::<Message>::empty())
            }
        },
        TypingMsg::InputCorrectCharMsg(c) => {
            if m.typed.len() < m.words.len() {
                let m2 = ModelV { typed: m.typed.push(c), num_correct: m.num_correct + 1, ..m };
                (m2, completion_msgs(m2))
            } else {
                (m, Seq::<Message>::empty())
            }
        },
        TypingMsg::InputWrongCharMsg(c) => {
            if m.typed.len() < m.words.len() && c != m.words[m.typed.len() as int] {
                let m2 = ModelV {
                    typed: if m.allow_typing_after_mistake {
                        m.typed.push(c)
                    } else {
                        m.typed
                    },
                    num_mistake: m.num_mistake + 1,
                    ..m
                };
                (m2, completion_msgs(m2))
            } else {
                (m, Seq::<Message>::empty())
            }
        },
        TypingMsg::BackSpaceMsg => {
            if m.enable_backspace && m.typed.len() > 0 {
                let hit = m.typed.last() == m.words[m.typed.len() - 1];
                let m2 = ModelV {
                    typed: m.typed.drop_last(),
                    num_correct: if hit {
                        m.num_correct - 1
                    } else {
                        m.num_correct
                    },
                    ..m
                };
                (m2, seq![Message::CalAccuracyMsg])
            } else {
                (m, Seq::<Message>::empty())
            }
        },
    }
}

/// After a scored keystroke: reload the line as well when it is now
/// complete, recompute accuracy either way.
pub open spec fn completion_msgs(m: ModelV) -> Seq<Message> {
    if m.typed.len() == m.words.len() {
        seq![Message::ReloadWordsMsg, Message::CalAccuracyMsg]
    } else {
        seq![Message::CalAccuracyMsg]
    }
}

/// The deterministic transition function of the update engine: the new
/// model and the cascaded messages, for every message that does not
/// sample a random line.
///
/// State transitions follow the state machine: the sub-state messages
/// act only while running, the info toggle only from a running state,
/// and the return to running only from the info screen or from
/// loading. In particular no message leads out of the terminal
/// `Quiting` state; a message that is inapplicable in the current
/// state is a no-op.
pub open spec fn step(m: ModelV, msg: Message, now_ms: int) -> (ModelV, Seq<Message>)
    recommends
        !is_sampling(msg),
{
    match msg {
        Message::TypingMessage(t) => {
            if m.app_state.spec_is_running() {
                typing_step(m, t)
            } else {
                (m, Seq::<Message>::empty())
            }
        },
        Message::AppMessage(a) => {
            match a {
                AppMsg::QuitMsg => (ModelV { app_state: AppState::Quiting, ..m }, Seq::<Message>::empty()),
                AppMsg::RunMsg => {
                    if m.app_state == AppState::Info || m.app_state == AppState::Loading {
                        (
                            ModelV { app_state: AppState::Running(TypingState::Waiting), ..m },
                            Seq::<Message>::empty(),
                        )
                    } else {
                        (m, Seq::<Message>::empty())
                    }
                },
                AppMsg::InfoMsg => {
                    if m.app_state.spec_is_running() {
                        (ModelV { app_state: AppState::Info, ..m }, Seq::<Message>::empty())
                    } else {
                        (m, Seq::<Message>::empty())
                    }
                },
                AppMsg::InitMsg => (m, Seq::<Message>::empty()),
            }
        },
        Message::ReloadWordsMsg => (m, Seq::<Message>::empty()),
        Message::CalAccuracyMsg => (
            ModelV { accuracy: acc_of(m.num_correct, m.num_mistake), ..m },
            Seq::<Message>::empty(),
        ),
        Message::CalWPMMsg => (
            ModelV { wpm: wpm_of(m.num_words_finished, m.time_elapsed_ms), ..m },
            Seq::<Message>::empty(),
        ),
        Message::RestartTimerMsg => (ModelV { timer_ms: now_ms, ..m }, Seq::<Message>::empty()),
        Message::WaitMsg => {
            if m.app_state.spec_is_running() {
                (
                    ModelV { app_state: AppState::Running(TypingState::Waiting), ..m },
                    Seq::<Message>::empty(),
                )
            } else {
                (m, Seq::<Message>::empty())
            }
        },
        Message::TypeMsg => {
            if m.app_state.spec_is_running() {
                (
                    ModelV { app_state: AppState::Running(TypingState::Typing), ..m },
                    Seq::<Message>::empty(),
                )
            } else {
                (m, Seq::<Message>::empty())
            }
        },
        Message::EmptyMsg => (m, Seq::<Message>::empty()),
    }
}

/// Every deterministic transition preserves the state invariant,
/// whatever message arrives in whatever state.
pub proof fn lemma_step_preserves_wf(m: ModelV, msg: Message, now_ms: int)
    requires
        m.wf(),
        now_ms >= 0,
    ensures
        !is_sampling(msg) ==> step(m, msg, now_ms).0.wf(),
{
    lemma_matched_count_bounds(m.typed, m.words);
    match msg {
        Message::TypingMessage(t) => {
            if m.app_state.spec_is_running() {
                match t {
                    TypingMsg::InputCharMsg(_) => {},
                    TypingMsg::InputCorrectCharMsg(c) => {
                        if m.typed.len() < m.words.len() {
                            lemma_matched_count_push(m.typed, m.words, c);
                        }
                    },
                    TypingMsg::InputWrongCharMsg(c) => {
                        if m.typed.len() < m.words.len() && c != m.words[m.typed.len() as int]
                            && m.allow_typing_after_mistake {
                            lemma_matched_count_push(m.typed, m.words, c);
                        }
                    },
                    TypingMsg::BackSpaceMsg => {
                        if m.typed.len() > 0 {
                            lemma_matched_count_bounds(m.typed.drop_last(), m.words);
                            assert(matched_count(m.typed, m.words) == matched_count(
                                m.typed.drop_last(),
                                m.words,
                            ) + if m.typed.last() == m.words[m.typed.len() - 1] {
                                1int
                            } else {
                                0int
                            });
                        }
                    },
                }
            }
        },
        _ => {},
    }
}

/// Drains one message: mutates the model as the transition function
/// says and returns the cascaded messages. Total over all messages;
/// inapplicable ones are no-ops.
pub fn update(model: &mut Model, msg: Message, now_ms: u64) -> (out: Vec<Message>)
    requires
        old(model)@.wf(),
        msg matches Message::TypingMessage(t) ==> counters_have_room(old(model)@, t),
        msg == Message::CalWPMMsg ==> old(model)@.num_words_finished * 60000 <= u64::MAX,
        msg == Message::ReloadWordsMsg ==> corpus_wf(old(model)@.corpus) && old(
            model,
        )@.num_words_finished + old(model)@.num_words_each_line <= usize::MAX,
        msg == Message::AppMessage(AppMsg::InitMsg) ==> corpus_wf(old(model)@.corpus) && old(
            model,
        )@.typed.len() == 0,
    ensures
        final(model)@.wf(),
        final(model)@.corpus == old(model)@.corpus,
        !is_sampling(msg) ==> final(model)@ == step(old(model)@, msg, now_ms as int).0 && out@
            == step(old(model)@, msg, now_ms as int).1,
        msg == Message::ReloadWordsMsg ==> out@ == seq![Message::CalWPMMsg] && (exists|
            line: Seq<char>,
        |
            #[trigger] is_line_of(old(model)@.corpus, old(model)@.num_words_each_line as nat, line)
                && final(model)@ == reload_line(old(model)@, line)),
        msg == Message::AppMessage(AppMsg::InitMsg) ==> out@ == seq![
            Message::AppMessage(AppMsg::RunMsg),
        ] && (exists|line: Seq<char>|
            #[trigger] is_line_of(old(model)@.corpus, old(model)@.num_words_each_line as nat, line)
                && final(model)@ == init_line(old(model)@, line)),
{
    let ghost m0 = model@;
    let out = match msg {
        Message::TypingMessage(t) => {
            if model.app_state.is_running() {
                handle_type_msg(model, t)
            } else {
                Vec::new()
            }
        },
        Message::AppMessage(a) => handle_app_msg(model, a),
        Message::ReloadWordsMsg => reload_words(model),
        Message::CalAccuracyMsg => cal_accuracy(model),
        Message::CalWPMMsg => cal_wpm(model),
        Message::RestartTimerMsg => restart_timer(model, now_ms),
        Message::WaitMsg => {
            if model.app_state.is_running() {
                model.app_state = AppState::Running(TypingState::Waiting);
            }
            Vec::new()
        },
        Message::TypeMsg => {
            if model.app_state.is_running() {
                model.app_state = AppState::Running(TypingState::Typing);
            }
            Vec::new()
        },
        Message::EmptyMsg => Vec::new(),
    };
    proof {
        lemma_step_preserves_wf(m0, msg, now_ms as int);
        if !is_sampling(msg) {
            assert(model@ =~= step(m0, msg, now_ms as int).0);
        }
    }
    out
}

/// Scores keystrokes against the target line while the session runs.
fn handle_type_msg(model: &mut Model, t: TypingMsg) -> (out: Vec<Message>)
    requires
        old(model)@.wf(),
        old(model)@.app_state.spec_is_running(),
        counters_have_room(old(model)@, t),
    ensures
        final(model)@ == typing_step(old(model)@, t).0,
        out@ == typing_step(old(model)@, t).1,
{
    let ghost m0 = model@;
    match t {
        TypingMsg::InputCharMsg(c) => {
            if model.current_typed.len() < model.current_words.len() {
                let expected = model.current_words[model.current_typed.len()];
                let follow = if model.app_state.is_waiting() {
                    Message::TypeMsg
                } else {
                    Message::EmptyMsg
                };
                if c == expected {
                    let out = vec![
                        Message::TypingMessage(TypingMsg::InputCorrectCharMsg(c)),
                        Message::RestartTimerMsg,
                        follow,
                    ];
                    proof {
                        assert(out@ =~= typing_step(m0, t).1);
                    }
                    out
                } else {
                    let out = vec![
                        Message::TypingMessage(TypingMsg::InputWrongCharMsg(c)),
                        Message::RestartTimerMsg,
                        follow,
                    ];
                    proof {
                        assert(out@ =~= typing_step(m0, t).1);
                    }
                    out
                }
            } else {
                Vec::new()
            }
        },
        TypingMsg::InputCorrectCharMsg(c) => {
            if model.current_typed.len() < model.current_words.len() {
                model.current_typed.push(c);
                model.num_correct = model.num_correct + 1;
                proof {
                    assert(model@ =~= typing_step(m0, t).0);
                }
                completion_check(model)
            } else {
                Vec::new()
            }
        },
        TypingMsg::InputWrongCharMsg(c) => {
            if model.current_typed.len() < model.current_words.len() {
                let expected = model.current_words[model.current_typed.len()];
                if c != expected {
                    model.num_mistake = model.num_mistake + 1;
                    if model.allow_typing_after_mistake {
                        model.current_typed.push(c);
                    }
                    proof {
                        assert(model@ =~= typing_step(m0, t).0);
                    }
                    completion_check(model)
                } else {
                    Vec::new()
                }
            } else {
                Vec::new()
            }
        },
        TypingMsg::BackSpaceMsg => {
            if model.enable_backspace && model.current_typed.len() > 0 {
                let idx = model.current_typed.len() - 1;
                if model.current_typed[idx] == model.current_words[idx] {
                    proof {
                        lemma_matched_count_bounds(m0.typed.drop_last(), m0.words);
                        assert(matched_count(m0.typed, m0.words) == matched_count(
                            m0.typed.drop_last(),
                            m0.words,
                        ) + 1);
                    }
                    model.num_correct = model.num_correct - 1;
                }
                model.current_typed.pop();
                proof {
                    assert(model@ =~= typing_step(m0, t).0);
                }
                vec![Message::CalAccuracyMsg]
            } else {
                Vec::new()
            }
        },
    }
}

/// The cascade after a scored keystroke: reload when the line is now
/// complete, then recompute accuracy.
fn completion_check(model: &Model) -> (out: Vec<Message>)
    ensures
        out@ == completion_msgs(model@),
{
    if model.current_typed.len() == model.current_words.len() {
        vec![Message::ReloadWordsMsg, Message::CalAccuracyMsg]
    } else {
        vec![Message::CalAccuracyMsg]
    }
}

/// Application-level transitions: quit, toggle the info screen, return
/// to running, and the one-time startup.
fn handle_app_msg(model: &mut Model, a: AppMsg) -> (out: Vec<Message>)
    requires
        old(model)@.wf(),
        a == AppMsg::InitMsg ==> corpus_wf(old(model)@.corpus) && old(model)@.typed.len() == 0,
    ensures
        a != AppMsg::InitMsg ==> final(model)@ == step(
            old(model)@,
            Message::AppMessage(a),
            0,
        ).0 && out@ == step(old(model)@, Message::AppMessage(a), 0).1,
        a == AppMsg::InitMsg ==> final(model)@.wf() && out@ == seq![
            Message::AppMessage(AppMsg::RunMsg),
        ] && (exists|line: Seq<char>|
            #[trigger] is_line_of(old(model)@.corpus, old(model)@.num_words_each_line as nat, line)
                && final(model)@ == init_line(old(model)@, line)),
{
    let ghost m0 = model@;
    match a {
        AppMsg::QuitMsg => {
            model.app_state = AppState::Quiting;
            Vec::new()
        },
        AppMsg::RunMsg => {
            if model.app_state == AppState::Info || model.app_state == AppState::Loading {
                model.app_state = AppState::Running(TypingState::Waiting);
            }
            Vec::new()
        },
        AppMsg::InfoMsg => {
            if model.app_state.is_running() {
                model.app_state = AppState::Info;
            }
            Vec::new()
        },
        AppMsg::InitMsg => {
            let line = get_words(&model.word_source, model.num_words_each_line);
            model.current_words = line;
            proof {
                lemma_matched_count_bounds(m0.typed, m0.words);
                assert(matched_count(model@.typed, model@.words) == 0);
                assert(model@ =~= init_line(m0, model@.words));
                assert(is_line_of(m0.corpus, m0.num_words_each_line as nat, model@.words));
            }
            vec![Message::AppMessage(AppMsg::RunMsg)]
        },
    }
}

/// Samples the next target line, clears the typed prefix, and counts
/// the finished line toward the words-per-minute numerator.
fn reload_words(model: &mut Model) -> (out: Vec<Message>)
    requires
        old(model)@.wf(),
        corpus_wf(old(model)@.corpus),
        old(model)@.num_words_finished + old(model)@.num_words_each_line <= usize::MAX,
    ensures
        final(model)@.wf(),
        out@ == seq![Message::CalWPMMsg],
        exists|line: Seq<char>|
            #[trigger] is_line_of(old(model)@.corpus, old(model)@.num_words_each_line as nat, line)
                && final(model)@ == reload_line(old(model)@, line),
{
    let ghost m0 = model@;
    let line = get_words(&model.word_source, model.num_words_each_line);
    model.current_words = line;
    model.current_typed = Vec::new();
    model.num_words_finished = model.num_words_finished + model.num_words_each_line;
    proof {
        lemma_matched_count_bounds(m0.typed, m0.words);
        assert(matched_count(model@.typed, model@.words) == 0);
        assert(model@ =~= reload_line(m0, model@.words));
        assert(is_line_of(m0.corpus, m0.num_words_each_line as nat, model@.words));
    }
    vec![Message::CalWPMMsg]
}

/// Recomputes the accuracy ratio from the two counters, defining it as
/// perfect while there has been no attempt.
fn cal_accuracy(model: &mut Model) -> (out: Vec<Message>)
    requires
        old(model)@.wf(),
    ensures
        final(model)@ == (ModelV {
            accuracy: acc_of(old(model)@.num_correct, old(model)@.num_mistake),
            ..old(model)@
        }),
        out@ == Seq::<Message>::empty(),
{
    let ghost m0 = model@;
    proof {
        lemma_matched_count_bounds(m0.typed, m0.words);
    }
    let total: u64 = model.num_correct as u64 + model.num_mistake as u64;
    if total == 0 {
        model.accuracy = Ratio { num: 1, den: 1 };
    } else {
        model.accuracy = Ratio { num: model.num_correct as u64, den: total };
    }
    proof {
        assert(model@ =~= (ModelV { accuracy: acc_of(m0.num_correct, m0.num_mistake), ..m0 }));
    }
    Vec::new()
}

/// Recomputes words per minute from finished words and elapsed time,
/// defining it as zero while no time has accrued.
fn cal_wpm(model: &mut Model) -> (out: Vec<Message>)
    requires
        old(model)@.wf(),
        old(model)@.num_words_finished * 60000 <= u64::MAX,
    ensures
        final(model)@ == (ModelV {
            wpm: wpm_of(old(model)@.num_words_finished, old(model)@.time_elapsed_ms),
            ..old(model)@
        }),
        out@ == Seq::<Message>::empty(),
{
    let ghost m0 = model@;
    if model.time_elapsed_ms == 0 {
        model.wpm = Ratio { num: 0, den: 1 };
    } else {
        let f: u64 = model.num_words_finished as u64;
        model.wpm = Ratio { num: f * 60000, den: model.time_elapsed_ms };
    }
    proof {
        assert(model@ =~= (ModelV {
            wpm: wpm_of(m0.num_words_finished, m0.time_elapsed_ms),
            ..m0
        }));
    }
    Vec::new()
}

/// Resets the idle-timer reference point to the given instant; elapsed
/// time is untouched.
fn restart_timer(model: &mut Model, now_ms: u64) -> (out: Vec<Message>)
    ensures
        final(model)@ == (ModelV { timer_ms: now_ms as int, ..old(model)@ }),
        out@ == Seq::<Message>::empty(),
{
    let ghost m0 = model@;
    model.timer_ms = now_ms;
    proof {
        assert(model@ =~= (ModelV { timer_ms: now_ms as int, ..m0 }));
    }
    Vec::new()
}

} // verus!
