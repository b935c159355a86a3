//! Properties of the update engine that hold for every state and every
//! input, proved once here: full-line completion, the effect of wrong
//! keystrokes and backspace, accuracy bounds, and backspace no-ops.

use vstd::prelude::*;

use crate::input::{key_msgs, Key};
use crate::model::{AppState, ModelV, RatioV, TypingState};
use crate::msg::{Message, TypingMsg};
use crate::update::{acc_of, step};

verus! {

/// One keystroke, fully processed: the input message, then its cascade
/// in the stack order the driving loop uses (the sub-state transition,
/// the timer restart, the scored keystroke, the accuracy update). The
/// line-reload message, when emitted, is returned as the completion
/// flag rather than applied, so the completed line is still visible.
pub open spec fn char_step(m: ModelV, c: char, now_ms: int) -> (ModelV, bool) {
    let dispatched = step(m, Message::TypingMessage(TypingMsg::InputCharMsg(c)), now_ms);
    let queue = dispatched.1;
    let m1 = step(dispatched.0, queue.last(), now_ms).0;
    let m2 = step(m1, Message::RestartTimerMsg, now_ms).0;
    let scored = step(m2, queue[0], now_ms);
    let m3 = step(scored.0, Message::CalAccuracyMsg, now_ms).0;
    (m3, scored.1.len() == 2)
}

/// The next `k` expected characters of the target line, each processed
/// through [`char_step`]; the second component counts the emitted
/// line-reload messages.
pub open spec fn type_correct_chars(m: ModelV, now_ms: int, k: nat) -> (ModelV, int)
    decreases k,
{
    if k == 0 {
        (m, 0)
    } else {
        let first = char_step(m, m.words[m.typed.len() as int], now_ms);
        let rest = type_correct_chars(first.0, now_ms, (k - 1) as nat);
        (rest.0, rest.1 + if first.1 { 1int } else { 0int })
    }
}

/// One correct keystroke, evaluated: the character is appended and
/// credited, the session is actively typing, the idle timer is reset,
/// accuracy is recomputed, and the line-completion reload is emitted
/// exactly when the line is now full.
pub proof fn lemma_char_step_correct(m: ModelV, c: char, now_ms: int)
    requires
        m.app_state.spec_is_running(),
        m.typed.len() < m.words.len(),
        c == m.words[m.typed.len() as int],
    ensures
        char_step(m, c, now_ms).0 == (ModelV {
            typed: m.typed.push(c),
            num_correct: m.num_correct + 1,
            app_state: AppState::Running(TypingState::Typing),
            timer_ms: now_ms,
            accuracy: acc_of(m.num_correct + 1, m.num_mistake),
            ..m
        }),
        char_step(m, c, now_ms).1 == (m.typed.len() + 1 == m.words.len()),
{
    let r = char_step(m, c, now_ms);
    assert(r.0 =~= (ModelV {
        typed: m.typed.push(c),
        num_correct: m.num_correct + 1,
        app_state: AppState::Running(TypingState::Typing),
        timer_ms: now_ms,
        accuracy: acc_of(m.num_correct + 1, m.num_mistake),
        ..m
    }));
}

/// One wrong keystroke, evaluated: the mistake is recorded, the
/// character is appended only when typing after a mistake is allowed,
/// the session is actively typing, the idle timer is reset, and
/// accuracy is recomputed.
pub proof fn lemma_char_step_wrong(m: ModelV, c: char, now_ms: int)
    requires
        m.app_state.spec_is_running(),
        m.typed.len() < m.words.len(),
        c != m.words[m.typed.len() as int],
    ensures
        char_step(m, c, now_ms).0 == (ModelV {
            typed: if m.allow_typing_after_mistake {
                m.typed.push(c)
            } else {
                m.typed
            },
            num_mistake: m.num_mistake + 1,
            app_state: AppState::Running(TypingState::Typing),
            timer_ms: now_ms,
            accuracy: acc_of(m.num_correct, m.num_mistake + 1),
            ..m
        }),
        char_step(m, c, now_ms).1 == (m.allow_typing_after_mistake && m.typed.len() + 1
            == m.words.len()),
{
    let r = char_step(m, c, now_ms);
    assert(r.0 =~= (ModelV {
        typed: if m.allow_typing_after_mistake {
            m.typed.push(c)
        } else {
            m.typed
        },
        num_mistake: m.num_mistake + 1,
        app_state: AppState::Running(TypingState::Typing),
        timer_ms: now_ms,
        accuracy: acc_of(m.num_correct, m.num_mistake + 1),
        ..m
    }));
}

/// Typing the remaining expected characters extends the typed line by
/// exactly the rest of the target, credits each keystroke, records no
/// mistake, and emits the line-completion reload exactly once (unless
/// nothing was left to type).
pub proof fn lemma_correct_inputs_fill_line(m: ModelV, now_ms: int)
    requires
        m.typed.len() <= m.words.len(),
        m.app_state.spec_is_running(),
    ensures
        ({
            let k = (m.words.len() - m.typed.len()) as nat;
            let r = type_correct_chars(m, now_ms, k);
            &&& r.0.words == m.words
            &&& r.0.typed == m.typed + m.words.subrange(
                m.typed.len() as int,
                m.words.len() as int,
            )
            &&& r.0.num_correct == m.num_correct + k
            &&& r.0.num_mistake == m.num_mistake
            &&& r.1 == if k == 0 {
                0int
            } else {
                1int
            }
        }),
    decreases m.words.len() - m.typed.len(),
{
    let l = m.typed.len() as int;
    let bound = m.words.len() as int;
    let k = (m.words.len() - m.typed.len()) as nat;
    if k == 0 {
        assert(m.typed + m.words.subrange(l, bound) =~= m.typed);
    } else {
        let c = m.words[l];
        lemma_char_step_correct(m, c, now_ms);
        let first = char_step(m, c, now_ms);
        let m4 = first.0;
        assert(first.1 == (k == 1));
        lemma_correct_inputs_fill_line(m4, now_ms);
        let rest = type_correct_chars(m4, now_ms, (k - 1) as nat);
        assert(m.typed.push(c) + m.words.subrange(l + 1, bound) =~= m.typed + m.words.subrange(
            l,
            bound,
        ));
        assert(type_correct_chars(m, now_ms, k).0 == rest.0);
    }
}

/// For a run of correct keystrokes covering the whole target line from
/// its start, the typed line ends equal to the target, the correct
/// counter rises by exactly the line length, and the line-completion
/// reload fires exactly once over the whole run; the per-keystroke
/// law above places it at the final keystroke alone.
pub proof fn lemma_correct_line_completed(m: ModelV, now_ms: int)
    requires
        m.typed.len() == 0,
        m.words.len() > 0,
        m.app_state.spec_is_running(),
    ensures
        ({
            let r = type_correct_chars(m, now_ms, m.words.len());
            &&& r.0.typed == m.words
            &&& r.0.num_correct == m.num_correct + m.words.len()
            &&& r.0.num_mistake == m.num_mistake
            &&& r.1 == 1
        }),
{
    lemma_correct_inputs_fill_line(m, now_ms);
    assert(m.typed + m.words.subrange(0, m.words.len() as int) =~= m.words);
}

/// A single wrong keystroke with typing-after-mistake disabled leaves
/// the typed line unchanged, records exactly one mistake, and never
/// completes the line.
pub proof fn lemma_wrong_char_no_advance(m: ModelV, c: char, now_ms: int)
    requires
        m.typed.len() < m.words.len(),
        m.app_state.spec_is_running(),
        c != m.words[m.typed.len() as int],
        !m.allow_typing_after_mistake,
    ensures
        char_step(m, c, now_ms).0.typed == m.typed,
        char_step(m, c, now_ms).0.num_mistake == m.num_mistake + 1,
        char_step(m, c, now_ms).0.num_correct == m.num_correct,
        !char_step(m, c, now_ms).1,
{
    lemma_char_step_wrong(m, c, now_ms);
}

/// With backspace enabled, backspace shortens the typed line by one
/// and takes back one correct credit exactly when the removed
/// character matched its target; a recorded mistake is never taken
/// back.
pub proof fn lemma_backspace_reverses_credit(m: ModelV, now_ms: int)
    requires
        m.enable_backspace,
        m.typed.len() > 0,
        m.app_state.spec_is_running(),
    ensures
        ({
            let m2 = step(m, Message::TypingMessage(TypingMsg::BackSpaceMsg), now_ms).0;
            &&& m2.typed == m.typed.drop_last()
            &&& m2.num_mistake == m.num_mistake
            &&& (m.typed.last() == m.words[m.typed.len() - 1] ==> m2.num_correct == m.num_correct
                - 1)
            &&& (m.typed.last() != m.words[m.typed.len() - 1] ==> m2.num_correct == m.num_correct)
            &&& step(m, Message::TypingMessage(TypingMsg::BackSpaceMsg), now_ms).1 == seq![
                Message::CalAccuracyMsg,
            ]
        }),
{
}

/// The recomputed accuracy always lies in the unit interval, and with
/// no attempts at all it is exactly one.
pub proof fn lemma_accuracy_in_unit_interval(correct: int, mistake: int)
    requires
        correct >= 0,
        mistake >= 0,
    ensures
        acc_of(correct, mistake).in_unit_interval(),
        correct + mistake == 0 ==> acc_of(correct, mistake) == (RatioV { num: 1, den: 1 }),
{
}

/// Backspace is a complete no-op when nothing has been typed: the
/// model is unchanged and no message cascades.
pub proof fn lemma_backspace_noop_when_empty(m: ModelV, now_ms: int)
    requires
        m.typed.len() == 0,
    ensures
        step(m, Message::TypingMessage(TypingMsg::BackSpaceMsg), now_ms).0 == m,
        step(m, Message::TypingMessage(TypingMsg::BackSpaceMsg), now_ms).1 == Seq::<
            Message,
        >::empty(),
{
}

/// Backspace is a complete no-op in the engine when it is disabled
/// for the session: the model is unchanged and no message cascades,
/// whatever has been typed.
pub proof fn lemma_backspace_noop_when_disabled(m: ModelV, now_ms: int)
    requires
        !m.enable_backspace,
    ensures
        step(m, Message::TypingMessage(TypingMsg::BackSpaceMsg), now_ms).0 == m,
        step(m, Message::TypingMessage(TypingMsg::BackSpaceMsg), now_ms).1 == Seq::<
            Message,
        >::empty(),
{
}

/// With backspace disabled for the session the input mapper already
/// drops the key outright, so no message reaches the update engine at
/// all.
pub proof fn lemma_backspace_key_ignored_when_disabled(m: ModelV)
    requires
        !m.enable_backspace,
    ensures
        key_msgs(m, Key::Backspace) == Seq::<Message>::empty(),
{
}

} // verus!
