//! The single mutable application state record, its mathematical view,
//! and the state invariant that the update engine preserves.

use vstd::prelude::*;

use crate::words::WordSource;

verus! {

/// Sub-states of a running session: elapsed time accrues only while
/// `Typing`; an idle timeout falls back to `Waiting`.
#[derive(Clone, Copy, Debug, PartialEq, Eq, Structural)]
pub enum TypingState {
    Typing,
    Waiting,
}

/// Top-level application state: `Loading` (initial), `Running` with a
/// sub-state, the `Info` screen, and the terminal `Quiting` state.
#[derive(Clone, Copy, Debug, PartialEq, Eq, Structural)]
pub enum AppState {
    Running(TypingState),
    Quiting,
    Info,
    Loading,
}

impl AppState {
    /// The state accepts typing input (either running sub-state).
    pub open spec fn spec_is_running(&self) -> bool {
        self is Running
    }

    /// The active-typing sub-state, in which the timer accrues.
    pub open spec fn spec_is_typing(&self) -> bool {
        *self == AppState::Running(TypingState::Typing)
    }

    /// The paused sub-state of a running session.
    pub open spec fn spec_is_waiting(&self) -> bool {
        *self == AppState::Running(TypingState::Waiting)
    }

    #[verifier::when_used_as_spec(spec_is_running)]
    pub fn is_running(&self) -> (r: bool)
        ensures
            r == self.spec_is_running(),
    {
        *self == AppState::Running(TypingState::Typing) || *self == AppState::Running(
            TypingState::Waiting,
        )
    }

    #[verifier::when_used_as_spec(spec_is_typing)]
    pub fn is_typing(&self) -> (r: bool)
        ensures
            r == self.spec_is_typing(),
    {
        *self == AppState::Running(TypingState::Typing)
    }

    #[verifier::when_used_as_spec(spec_is_waiting)]
    pub fn is_waiting(&self) -> (r: bool)
        ensures
            r == self.spec_is_waiting(),
    {
        *self == AppState::Running(TypingState::Waiting)
    }
}

/// An exact nonnegative rational, the representation of the derived
/// statistics (accuracy and words per minute). Its value is
/// `num / den`; the denominator is kept positive.
#[derive(Clone, Copy, Debug, PartialEq, Eq, Structural)]
pub struct Ratio {
    pub num: u64,
    pub den: u64,
}

/// The mathematical value of a [`Ratio`].
pub ghost struct RatioV {
    pub num: int,
    pub den: int,
}

impl RatioV {
    /// A meaningful rational: positive denominator, nonnegative value.
    pub open spec fn wf(self) -> bool {
        0 <= self.num && 1 <= self.den
    }

    /// The value lies in the unit interval `[0, 1]`.
    pub open spec fn in_unit_interval(self) -> bool {
        0 <= self.num <= self.den && 1 <= self.den
    }
}

impl View for Ratio {
    type V = RatioV;

    open spec fn view(&self) -> RatioV {
        RatioV { num: self.num as int, den: self.den as int }
    }
}

/// The idle interval after which active typing falls back to waiting.
pub const IDLE_TIMEOUT_MS: u64 = 1000;

/// The number of positions of `typed` that match the corresponding
/// position of `words`. A backspace that removes a matching character
/// takes back exactly one credit, which is why `num_correct` never
/// falls below this count.
pub open spec fn matched_count(typed: Seq<char>, words: Seq<char>) -> int
    decreases typed.len(),
{
    if typed.len() == 0 {
        0
    } else {
        matched_count(typed.drop_last(), words) + if typed.len() <= words.len() && typed.last()
            == words[typed.len() - 1] {
            1int
        } else {
            0int
        }
    }
}

/// The matched-position count is bounded by the typed length.
pub proof fn lemma_matched_count_bounds(typed: Seq<char>, words: Seq<char>)
    ensures
        0 <= matched_count(typed, words) <= typed.len(),
    decreases typed.len(),
{
    if typed.len() > 0 {
        lemma_matched_count_bounds(typed.drop_last(), words);
    }
}

/// Appending one character extends the matched-position count by one
/// exactly when the new character matches its target position.
pub proof fn lemma_matched_count_push(typed: Seq<char>, words: Seq<char>, c: char)
    requires
        typed.len() < words.len(),
    ensures
        matched_count(typed.push(c), words) == matched_count(typed, words) + if c == words[typed.len() as int] {
            1int
        } else {
            0int
        },
{
    let t2 = typed.push(c);
    assert(t2.drop_last() =~= typed);
    assert(t2.last() == c);
}

/// The mathematical view of the model: sequences and unbounded
/// integers in place of vectors and machine words.
#[verifier::ext_equal]
pub ghost struct ModelV {
    pub app_state: AppState,
    pub corpus: Seq<Seq<Seq<char>>>,
    pub words: Seq<char>,
    pub typed: Seq<char>,
    pub allow_typing_after_mistake: bool,
    pub num_correct: int,
    pub num_mistake: int,
    pub enable_backspace: bool,
    pub num_words_each_line: int,
    pub accuracy: RatioV,
    pub time_elapsed_ms: int,
    pub num_words_finished: int,
    pub wpm: RatioV,
    pub timer_ms: int,
}

impl ModelV {
    /// The state invariant: the typed prefix never outgrows the target
    /// line, the counters stay consistent with it, and the derived
    /// statistics stay meaningful (accuracy within `[0, 1]`).
    pub open spec fn wf(self) -> bool {
        &&& self.typed.len() <= self.words.len()
        &&& self.num_mistake >= 0
        &&& self.num_correct >= matched_count(self.typed, self.words)
        &&& self.accuracy.in_unit_interval()
        &&& self.wpm.wf()
        &&& self.num_words_each_line >= 0
        &&& self.num_words_finished >= 0
        &&& self.time_elapsed_ms >= 0
        &&& self.timer_ms >= 0
    }
}

/// The single application state record, owned by the driving loop and
/// mutated exclusively by the update engine.
pub struct Model {
    pub app_state: AppState,
    pub word_source: WordSource,
    pub current_words: Vec<char>,
    pub current_typed: Vec<char>,
    pub allow_typing_after_mistake: bool,
    pub num_correct: i32,
    pub num_mistake: i32,
    pub enable_backspace: bool,
    pub num_words_each_line: usize,
    pub accuracy: Ratio,
    pub time_elapsed_ms: u64,
    pub num_words_finished: usize,
    pub wpm: Ratio,
    pub timer_ms: u64,
}

impl View for Model {
    type V = ModelV;

    open spec fn view(&self) -> ModelV {
        ModelV {
            app_state: self.app_state,
            corpus: self.word_source@,
            words: self.current_words@,
            typed: self.current_typed@,
            allow_typing_after_mistake: self.allow_typing_after_mistake,
            num_correct: self.num_correct as int,
            num_mistake: self.num_mistake as int,
            enable_backspace: self.enable_backspace,
            num_words_each_line: self.num_words_each_line as int,
            accuracy: self.accuracy@,
            time_elapsed_ms: self.time_elapsed_ms as int,
            num_words_finished: self.num_words_finished as int,
            wpm: self.wpm@,
            timer_ms: self.timer_ms as int,
        }
    }
}

/// The start state: loading, no line yet, perfect accuracy, session
/// configuration at its defaults (thirty words per line, backspace
/// enabled, typing after a mistake allowed).
pub open spec fn initial_model(corpus: Seq<Seq<Seq<char>>>) -> ModelV {
    ModelV {
        app_state: AppState::Loading,
        corpus: corpus,
        words: Seq::<char>::empty(),
        typed: Seq::<char>::empty(),
        allow_typing_after_mistake: true,
        num_correct: 0,
        num_mistake: 0,
        enable_backspace: true,
        num_words_each_line: 30,
        accuracy: RatioV { num: 1, den: 1 },
        time_elapsed_ms: 0,
        num_words_finished: 0,
        wpm: RatioV { num: 0, den: 1 },
        timer_ms: 0,
    }
}

impl Default for Model {
    /// The configuration a fresh session starts with; the word source
    /// is filled in before `Init` is processed.
    fn default() -> (m: Model)
        ensures
            m@ == initial_model(Seq::<Seq<Seq<char>>>::empty()),
            m@.wf(),
    {
        let m = Model {
            app_state: AppState::Loading,
            word_source: WordSource::empty(),
            current_words: Vec::new(),
            current_typed: Vec::new(),
            allow_typing_after_mistake: true,
            num_correct: 0,
            num_mistake: 0,
            enable_backspace: true,
            num_words_each_line: 30,
            accuracy: Ratio { num: 1, den: 1 },
            time_elapsed_ms: 0,
            num_words_finished: 0,
            wpm: Ratio { num: 0, den: 1 },
            timer_ms: 0,
        };
        proof {
            assert(m@ =~= initial_model(Seq::<Seq<Seq<char>>>::empty()));
        }
        m
    }
}

impl Model {
    /// Length in characters of the current target line.
    pub fn current_words_len(&self) -> (n: usize)
        ensures
            n == self@.words.len(),
    {
        self.current_words.len()
    }

    /// Length in characters of what has been typed so far.
    pub fn current_typed_len(&self) -> (n: usize)
        ensures
            n == self@.typed.len(),
    {
        self.current_typed.len()
    }

    /// The idle transition is due: the session is actively typing and
    /// more than the idle interval has passed since the last keystroke.
    pub fn idle_timeout_due(&self, now_ms: u64) -> (due: bool)
        ensures
            due == idle_due(self@, now_ms as int),
    {
        self.app_state.is_typing() && now_ms > self.timer_ms && now_ms - self.timer_ms
            > IDLE_TIMEOUT_MS
    }

    /// Accrues elapsed time for this tick; time advances only while in
    /// the `Typing` sub-state and is frozen otherwise.
    pub fn accrue_time(&mut self, delta_ms: u64)
        requires
            old(self)@.time_elapsed_ms + delta_ms <= u64::MAX,
        ensures
            final(self)@ == (ModelV {
                time_elapsed_ms: if old(self)@.app_state.spec_is_typing() {
                    old(self)@.time_elapsed_ms + delta_ms
                } else {
                    old(self)@.time_elapsed_ms
                },
                ..old(self)@
            }),
    {
        if self.app_state.is_typing() {
            self.time_elapsed_ms = self.time_elapsed_ms + delta_ms;
        }
        proof {
            assert(self@ =~= (ModelV {
                time_elapsed_ms: self@.time_elapsed_ms,
                ..old(self)@
            }));
        }
    }
}

/// The wall-clock comparison behind the `Typing` to `Waiting` idle
/// transition, evaluated once per tick.
pub open spec fn idle_due(m: ModelV, now_ms: int) -> bool {
    m.app_state.spec_is_typing() && now_ms - m.timer_ms > IDLE_TIMEOUT_MS
}

} // verus!
