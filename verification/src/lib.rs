//! Enigmascope: a verified Wehrmacht Enigma I, and the session, transcript and
//! screens of a terminal program around it.
//!
//! - [`enigma`]: rotors, machine, key presses.
//! - [`wiring`]: the standard rotors and reflectors are wired soundly.
//! - [`mechanism`], [`reciprocity`]: how its parts work, and what holds of the machine
//!   as a whole.
//! - [`config`], [`daily_key`]: the daily key, and what changing it changes.
//! - [`session`], [`keyboard`]: what is typed, and what each key does.
//! - [`record`]: what a session's tape is worth.
//! - [`report`], [`civil`], [`text`]: the transcript, its date, its text.
//! - [`transcript`]: how a transcript is read.
//! - [`area`], [`paint`], [`panels`], [`setup`], [`help`], [`screen`]: what is shown.
//! - [`display`]: what a reader of the screens sees.

pub mod area;
pub mod civil;
pub mod config;
pub mod daily_key;
pub mod display;
pub mod enigma;
pub mod help;
pub mod keyboard;
pub mod mechanism;
pub mod paint;
pub mod panels;
pub mod reciprocity;
pub mod record;
pub mod report;
pub mod screen;
pub mod session;
pub mod setup;
pub mod text;
pub mod transcript;
pub mod wiring;
