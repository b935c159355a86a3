//! Draining the message queue. The driving loop processes pending
//! messages as a stack, and each processed message may cascade further
//! ones; every cascade weighs strictly less than the message that
//! produced it, which is what makes the drain terminate.

use vstd::prelude::*;

use crate::model::{Model, ModelV};
use crate::msg::{AppMsg, Message, TypingMsg};
use crate::update::{init_line, is_sampling, reload_line, step, update};
use crate::words::{corpus_wf, is_line_of};

verus! {

/// The weight of a message: an upper bound, decreasing along every
/// cascade, on the work a message can still cause.
pub open spec fn msg_weight(msg: Message) -> nat {
    match msg {
        Message::TypingMessage(t) => match t {
            TypingMsg::InputCharMsg(_) => 64,
            TypingMsg::InputCorrectCharMsg(_) => 16,
            TypingMsg::InputWrongCharMsg(_) => 16,
            TypingMsg::BackSpaceMsg => 4,
        },
        Message::AppMessage(a) => match a {
            AppMsg::InitMsg => 4,
            AppMsg::QuitMsg => 1,
            AppMsg::RunMsg => 1,
            AppMsg::InfoMsg => 1,
        },
        Message::ReloadWordsMsg => 4,
        Message::CalAccuracyMsg => 1,
        Message::CalWPMMsg => 1,
        Message::RestartTimerMsg => 1,
        Message::WaitMsg => 1,
        Message::TypeMsg => 1,
        Message::EmptyMsg => 1,
    }
}

/// The combined weight of a whole queue.
pub open spec fn queue_weight(q: Seq<Message>) -> nat
    decreases q.len(),
{
    if q.len() == 0 {
        0
    } else {
        queue_weight(q.drop_last()) + msg_weight(q.last())
    }
}

/// The queue holds no startup message; only the very first tick does.
pub open spec fn init_free(q: Seq<Message>) -> bool {
    forall|i: int| 0 <= i < q.len() ==> #[trigger] q[i] != Message::AppMessage(AppMsg::InitMsg)
}

proof fn lemma_weight1(x: Message)
    ensures
        queue_weight(seq![x]) == msg_weight(x),
{
    assert(seq![x].drop_last() =~= Seq::<Message>::empty());
    assert(queue_weight(Seq::<Message>::empty()) == 0);
}

proof fn lemma_weight2(x: Message, y: Message)
    ensures
        queue_weight(seq![x, y]) == msg_weight(x) + msg_weight(y),
{
    assert(seq![x, y].drop_last() =~= seq![x]);
    lemma_weight1(x);
}

proof fn lemma_weight3(x: Message, y: Message, z: Message)
    ensures
        queue_weight(seq![x, y, z]) == msg_weight(x) + msg_weight(y) + msg_weight(z),
{
    assert(seq![x, y, z].drop_last() =~= seq![x, y]);
    lemma_weight2(x, y);
}

/// Queue weight adds up over concatenation.
pub proof fn lemma_queue_weight_append(a: Seq<Message>, b: Seq<Message>)
    ensures
        queue_weight(a + b) == queue_weight(a) + queue_weight(b),
    decreases b.len(),
{
    if b.len() == 0 {
        assert(a + b =~= a);
    } else {
        assert((a + b).drop_last() =~= a + b.drop_last());
        assert((a + b).last() == b.last());
        lemma_queue_weight_append(a, b.drop_last());
    }
}

proof fn lemma_init_free_append(a: Seq<Message>, b: Seq<Message>)
    requires
        init_free(a),
        init_free(b),
    ensures
        init_free(a + b),
{
    assert forall|i: int| 0 <= i < (a + b).len() implies (a + b)[i] != Message::AppMessage(
        AppMsg::InitMsg,
    ) by {
        if i < a.len() {
            assert((a + b)[i] == a[i]);
        } else {
            assert((a + b)[i] == b[i - a.len()]);
        }
    }
}

/// The cascade of every deterministic transition weighs strictly less
/// than the message that produced it, and never contains the startup
/// message.
pub proof fn lemma_cascade_weight(m: ModelV, msg: Message, now_ms: int)
    requires
        !is_sampling(msg),
    ensures
        queue_weight(step(m, msg, now_ms).1) < msg_weight(msg),
        init_free(step(m, msg, now_ms).1),
{
    let out = step(m, msg, now_ms).1;
    assert(queue_weight(Seq::<Message>::empty()) == 0);
    match msg {
        Message::TypingMessage(t) => {
            if m.app_state.spec_is_running() {
                match t {
                    TypingMsg::InputCharMsg(c) => {
                        if m.typed.len() < m.words.len() {
                            let follow = if m.app_state.spec_is_waiting() {
                                Message::TypeMsg
                            } else {
                                Message::EmptyMsg
                            };
                            if c == m.words[m.typed.len() as int] {
                                lemma_weight3(
                                    Message::TypingMessage(TypingMsg::InputCorrectCharMsg(c)),
                                    Message::RestartTimerMsg,
                                    follow,
                                );
                            } else {
                                lemma_weight3(
                                    Message::TypingMessage(TypingMsg::InputWrongCharMsg(c)),
                                    Message::RestartTimerMsg,
                                    follow,
                                );
                            }
                        }
                    },
                    TypingMsg::InputCorrectCharMsg(_) => {
                        lemma_weight2(Message::ReloadWordsMsg, Message::CalAccuracyMsg);
                        lemma_weight1(Message::CalAccuracyMsg);
                    },
                    TypingMsg::InputWrongCharMsg(_) => {
                        lemma_weight2(Message::ReloadWordsMsg, Message::CalAccuracyMsg);
                        lemma_weight1(Message::CalAccuracyMsg);
                    },
                    TypingMsg::BackSpaceMsg => {
                        lemma_weight1(Message::CalAccuracyMsg);
                    },
                }
            }
        },
        _ => {},
    }
}

/// Counters move by at most one per deterministic transition, a
/// recorded mistake is never taken back, the line counters only move
/// on a reload, and neither elapsed time nor the session
/// configuration is ever touched by the engine.
proof fn lemma_step_counters(m: ModelV, msg: Message, now_ms: int)
    requires
        !is_sampling(msg),
    ensures
        step(m, msg, now_ms).0.num_correct <= m.num_correct + 1,
        m.num_mistake <= step(m, msg, now_ms).0.num_mistake <= m.num_mistake + 1,
        step(m, msg, now_ms).0.num_words_finished == m.num_words_finished,
        step(m, msg, now_ms).0.num_words_each_line == m.num_words_each_line,
        step(m, msg, now_ms).0.time_elapsed_ms == m.time_elapsed_ms,
        step(m, msg, now_ms).0.allow_typing_after_mistake == m.allow_typing_after_mistake,
        step(m, msg, now_ms).0.enable_backspace == m.enable_backspace,
{
}

/// The big-step semantics of a drain: starting from `m0` with the
/// stack `q`, exhaustive processing can end in `m1`. Deterministic up
/// to the randomly sampled lines, which the two reload cases
/// quantify over.
pub open spec fn drain_rel(m0: ModelV, q: Seq<Message>, now_ms: int, m1: ModelV) -> bool
    decreases queue_weight(q),
    via drain_rel_decreases
{
    if q.len() == 0 {
        m1 == m0
    } else {
        let msg = q.last();
        let rest = q.drop_last();
        if msg == Message::ReloadWordsMsg {
            exists|line: Seq<char>|
                #[trigger] is_line_of(m0.corpus, m0.num_words_each_line as nat, line)
                    && drain_rel(
                    reload_line(m0, line),
                    rest + seq![Message::CalWPMMsg],
                    now_ms,
                    m1,
                )
        } else if msg == Message::AppMessage(AppMsg::InitMsg) {
            exists|line: Seq<char>|
                #[trigger] is_line_of(m0.corpus, m0.num_words_each_line as nat, line)
                    && drain_rel(
                    init_line(m0, line),
                    rest + seq![Message::AppMessage(AppMsg::RunMsg)],
                    now_ms,
                    m1,
                )
        } else {
            drain_rel(step(m0, msg, now_ms).0, rest + step(m0, msg, now_ms).1, now_ms, m1)
        }
    }
}

#[via_fn]
proof fn drain_rel_decreases(m0: ModelV, q: Seq<Message>, now_ms: int, m1: ModelV) {
    if q.len() != 0 {
        let msg = q.last();
        let rest = q.drop_last();
        assert(queue_weight(q) == queue_weight(rest) + msg_weight(msg));
        if msg == Message::ReloadWordsMsg {
            lemma_weight1(Message::CalWPMMsg);
            lemma_queue_weight_append(rest, seq![Message::CalWPMMsg]);
        } else if msg == Message::AppMessage(AppMsg::InitMsg) {
            lemma_weight1(Message::AppMessage(AppMsg::RunMsg));
            lemma_queue_weight_append(rest, seq![Message::AppMessage(AppMsg::RunMsg)]);
        } else {
            lemma_cascade_weight(m0, msg, now_ms);
            lemma_queue_weight_append(rest, step(m0, msg, now_ms).1);
        }
    }
}

/// Drains pending messages through the update engine until none are
/// left, in the stack order of the driving loop. The weight bounds in
/// the preconditions keep every counter clear of machine limits for
/// the whole drain; the session holds a validated corpus, since a
/// reload can cascade from any keystroke.
pub fn drain_queue(model: &mut Model, queue: Vec<Message>, now_ms: u64)
    requires
        old(model)@.wf(),
        corpus_wf(old(model)@.corpus),
        init_free(queue@) || (queue@ =~= seq![Message::AppMessage(AppMsg::InitMsg)] && old(
            model,
        )@.typed.len() == 0),
        old(model)@.num_correct + queue_weight(queue@) <= i32::MAX,
        old(model)@.num_mistake + queue_weight(queue@) <= i32::MAX,
        old(model)@.num_words_finished + old(model)@.num_words_each_line * queue_weight(queue@)
            <= usize::MAX,
        (old(model)@.num_words_finished + old(model)@.num_words_each_line * queue_weight(queue@))
            * 60000 <= u64::MAX,
    ensures
        final(model)@.wf(),
        drain_rel(old(model)@, queue@, now_ms as int, final(model)@),
        final(model)@.corpus == old(model)@.corpus,
        final(model)@.num_mistake >= old(model)@.num_mistake,
        final(model)@.num_words_finished >= old(model)@.num_words_finished,
        final(model)@.time_elapsed_ms == old(model)@.time_elapsed_ms,
        final(model)@.allow_typing_after_mistake == old(model)@.allow_typing_after_mistake,
        final(model)@.enable_backspace == old(model)@.enable_backspace,
        final(model)@.num_words_each_line == old(model)@.num_words_each_line,
{
    let mut pending = queue;
    while pending.len() != 0
        invariant
            model@.wf(),
            corpus_wf(model@.corpus),
            model@.corpus == old(model)@.corpus,
            model@.num_mistake >= old(model)@.num_mistake,
            model@.num_words_finished >= old(model)@.num_words_finished,
            model@.time_elapsed_ms == old(model)@.time_elapsed_ms,
            model@.allow_typing_after_mistake == old(model)@.allow_typing_after_mistake,
            model@.enable_backspace == old(model)@.enable_backspace,
            model@.num_words_each_line == old(model)@.num_words_each_line,
            forall|mend: ModelV| #[trigger]
                drain_rel(model@, pending@, now_ms as int, mend) ==> drain_rel(
                    old(model)@,
                    queue@,
                    now_ms as int,
                    mend,
                ),
            init_free(pending@) || (pending@ =~= seq![Message::AppMessage(AppMsg::InitMsg)]
                && model@.typed.len() == 0),
            model@.num_correct + queue_weight(pending@) <= i32::MAX,
            model@.num_mistake + queue_weight(pending@) <= i32::MAX,
            model@.num_words_finished + model@.num_words_each_line * queue_weight(pending@)
                <= usize::MAX,
            (model@.num_words_finished + model@.num_words_each_line * queue_weight(pending@))
                * 60000 <= u64::MAX,
        decreases queue_weight(pending@),
    {
        let ghost q0 = pending@;
        let ghost w0: nat = queue_weight(q0);
        let ghost e: int = model@.num_words_each_line;
        let ghost fin: int = model@.num_words_finished;
        let msg = pending.pop().unwrap();
        let ghost m_before = model@;
        proof {
            assert(q0.drop_last() =~= pending@);
            assert(w0 == queue_weight(pending@) + msg_weight(msg));
            if msg == Message::CalWPMMsg {
                assert(e * w0 >= 0) by (nonlinear_arith)
                    requires
                        e >= 0,
                        w0 >= 0,
                ;
            }
            if msg == Message::ReloadWordsMsg {
                assert(e * w0 >= e) by (nonlinear_arith)
                    requires
                        e >= 0,
                        w0 >= 4,
                ;
            }
            if msg == Message::AppMessage(AppMsg::InitMsg) {
                assert(q0[q0.len() - 1] == msg);
                assert(!init_free(q0));
            }
        }
        let mut out = update(model, msg, now_ms);
        proof {
            let wq = queue_weight(pending@);
            let w_out = queue_weight(out@);
            let q_next = pending@ + out@;
            let now = now_ms as int;
            assert forall|mend: ModelV| #[trigger]
                drain_rel(model@, q_next, now, mend) implies drain_rel(
                m_before,
                q0,
                now,
                mend,
            ) by {
                if msg == Message::ReloadWordsMsg {
                    let line = choose|line: Seq<char>|
                        #[trigger] is_line_of(
                            m_before.corpus,
                            m_before.num_words_each_line as nat,
                            line,
                        ) && model@ == reload_line(m_before, line);
                    assert(q_next == q0.drop_last() + seq![Message::CalWPMMsg]);
                    assert(drain_rel(
                        reload_line(m_before, line),
                        q0.drop_last() + seq![Message::CalWPMMsg],
                        now,
                        mend,
                    ));
                } else if msg == Message::AppMessage(AppMsg::InitMsg) {
                    let line = choose|line: Seq<char>|
                        #[trigger] is_line_of(
                            m_before.corpus,
                            m_before.num_words_each_line as nat,
                            line,
                        ) && model@ == init_line(m_before, line);
                    assert(q_next == q0.drop_last() + seq![Message::AppMessage(AppMsg::RunMsg)]);
                    assert(drain_rel(
                        init_line(m_before, line),
                        q0.drop_last() + seq![Message::AppMessage(AppMsg::RunMsg)],
                        now,
                        mend,
                    ));
                } else {
                    assert(q_next == q0.drop_last() + step(m_before, msg, now).1);
                    assert(drain_rel(
                        step(m_before, msg, now).0,
                        q0.drop_last() + step(m_before, msg, now).1,
                        now,
                        mend,
                    ));
                }
            }
            if !is_sampling(msg) {
                lemma_cascade_weight(m_before, msg, now_ms as int);
                lemma_step_counters(m_before, msg, now_ms as int);
            } else {
                if msg == Message::ReloadWordsMsg {
                    lemma_weight1(Message::CalWPMMsg);
                } else {
                    lemma_weight1(Message::AppMessage(AppMsg::RunMsg));
                }
                assert(init_free(out@));
            }
            assert(w_out < msg_weight(msg));
            assert(init_free(out@));
            // the new queue: the rest of the stack plus the cascade
            lemma_queue_weight_append(pending@, out@);
            let w_new: nat = wq + w_out;
            assert(w_new < w0);
            // the startup message never reappears
            if init_free(q0) {
                assert forall|i: int| 0 <= i < pending@.len() implies pending@[i]
                    != Message::AppMessage(AppMsg::InitMsg) by {
                    assert(pending@[i] == q0[i]);
                }
            } else {
                assert(pending@.len() == 0);
                assert(init_free(pending@));
            }
            lemma_init_free_append(pending@, out@);
            // the line counters stay within their budgets
            if !is_sampling(msg) {
                assert(e * w_new <= e * w0) by (nonlinear_arith)
                    requires
                        e >= 0,
                        w_new <= w0,
                ;
            } else if msg == Message::ReloadWordsMsg {
                assert(e + e * w_new <= e * w0) by (nonlinear_arith)
                    requires
                        e >= 0,
                        w_new + 3 <= w0,
                ;
                assert(model@.num_words_finished == fin + e);
                assert(model@.num_words_each_line == e);
            } else {
                assert(model@.num_words_finished == fin);
                assert(model@.num_words_each_line == e);
                assert(e * w_new <= e * w0) by (nonlinear_arith)
                    requires
                        e >= 0,
                        w_new <= w0,
                ;
            }
        }
        pending.append(&mut out);
    }
    proof {
        assert(drain_rel(model@, pending@, now_ms as int, model@));
    }
}

} // verus!
