//! Core of a terminal typing trainer, organized as an Elm-style state
//! machine: a single `Model`, a closed set of `Message`s, and a pure
//! `update` engine that scores keystrokes, tracks elapsed time, and
//! regenerates word lines.

pub mod drain;
pub mod input;
pub mod laws;
pub mod model;
pub mod msg;
pub mod update;
pub mod words;
