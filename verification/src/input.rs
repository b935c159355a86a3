//! The input mapper: a pure function from the current model state and
//! one raw key event to zero or more messages. The caller polls the
//! terminal and reduces its events to the plain [`Key`] type.

use vstd::prelude::*;

use crate::model::{AppState, Model, ModelV};
use crate::msg::{AppMsg, Message, TypingMsg};

verus! {

/// A raw key event, reduced to the keys the trainer reacts to.
#[derive(Clone, Copy, Debug, PartialEq, Eq, Structural)]
pub enum Key {
    Esc,
    Tab,
    Backspace,
    Char(char),
    Other,
}

/// Characters accepted as typing input: ASCII letters and the space.
pub open spec fn is_typable_char(c: char) -> bool {
    ('a' <= c && c <= 'z') || ('A' <= c && c <= 'Z') || c == ' '
}

/// The messages one key event produces in the given state.
///
/// Escape leaves the info screen, or quits a running session.
/// Tab is a pure toggle between the running view and the info screen;
/// in any other state it is ignored.
/// Backspace is forwarded only while running and only when backspace
/// is enabled for the session.
/// A character is forwarded only if typable; every other key is
/// ignored.
pub open spec fn key_msgs(m: ModelV, key: Key) -> Seq<Message> {
    match key {
        Key::Esc => {
            if m.app_state == AppState::Info {
                seq![Message::AppMessage(AppMsg::RunMsg)]
            } else if m.app_state.spec_is_running() {
                seq![Message::AppMessage(AppMsg::QuitMsg)]
            } else {
                Seq::<Message>::empty()
            }
        },
        Key::Tab => {
            if m.app_state == AppState::Info {
                seq![Message::AppMessage(AppMsg::RunMsg)]
            } else if m.app_state.spec_is_running() {
                seq![Message::AppMessage(AppMsg::InfoMsg)]
            } else {
                Seq::<Message>::empty()
            }
        },
        Key::Backspace => {
            if m.app_state.spec_is_running() && m.enable_backspace {
                seq![Message::TypingMessage(TypingMsg::BackSpaceMsg)]
            } else {
                Seq::<Message>::empty()
            }
        },
        Key::Char(c) => {
            if is_typable_char(c) {
                seq![Message::TypingMessage(TypingMsg::InputCharMsg(c))]
            } else {
                Seq::<Message>::empty()
            }
        },
        Key::Other => Seq::<Message>::empty(),
    }
}

/// Maps one key event to messages, gated by the current state.
pub fn handle_key(model: &Model, key: Key) -> (msgs: Vec<Message>)
    ensures
        msgs@ == key_msgs(model@, key),
{
    match key {
        Key::Esc => {
            if model.app_state == AppState::Info {
                vec![Message::AppMessage(AppMsg::RunMsg)]
            } else if model.app_state.is_running() {
                vec![Message::AppMessage(AppMsg::QuitMsg)]
            } else {
                Vec::new()
            }
        },
        Key::Tab => {
            if model.app_state == AppState::Info {
                vec![Message::AppMessage(AppMsg::RunMsg)]
            } else if model.app_state.is_running() {
                vec![Message::AppMessage(AppMsg::InfoMsg)]
            } else {
                Vec::new()
            }
        },
        Key::Backspace => {
            if model.app_state.is_running() && model.enable_backspace {
                vec![Message::TypingMessage(TypingMsg::BackSpaceMsg)]
            } else {
                Vec::new()
            }
        },
        Key::Char(c) => {
            if ('a' <= c && c <= 'z') || ('A' <= c && c <= 'Z') || c == ' ' {
                vec![Message::TypingMessage(TypingMsg::InputCharMsg(c))]
            } else {
                Vec::new()
            }
        },
        Key::Other => Vec::new(),
    }
}

} // verus!
