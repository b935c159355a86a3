//! The closed set of events and commands that can mutate the model.

use vstd::prelude::*;

verus! {

/// A message drained from the queue by the update engine. Each processed
/// message may enqueue further messages (cascading reactions).
#[derive(Clone, Copy, Debug, PartialEq, Eq, Structural)]
pub enum Message {
    AppMessage(AppMsg),
    TypingMessage(TypingMsg),
    ReloadWordsMsg,
    CalAccuracyMsg,
    CalWPMMsg,
    RestartTimerMsg,
    WaitMsg,
    TypeMsg,
    EmptyMsg,
}

/// Application-level lifecycle messages.
#[derive(Clone, Copy, Debug, PartialEq, Eq, Structural)]
pub enum AppMsg {
    QuitMsg,
    InfoMsg,
    RunMsg,
    InitMsg,
}

/// Messages produced while scoring keystrokes against the target line.
#[derive(Clone, Copy, Debug, PartialEq, Eq, Structural)]
pub enum TypingMsg {
    InputCharMsg(char),
    InputCorrectCharMsg(char),
    InputWrongCharMsg(char),
    BackSpaceMsg,
}

} // verus!
