//! A verified core for a sample-bank note playback engine.
//!
//! The crate turns note requests (a single key press, a metronome tick, or a
//! whole song of beat-timed events) into a schedule of synthesizer control
//! actions at exact sample-frame offsets, and into a render plan that an audio
//! front end can execute against a SoundFont synthesizer.

pub mod actions;
pub mod config;
pub mod engine;
pub mod error;
pub mod input;
pub mod notes;
pub mod render;
pub mod schedule;
pub mod songs;
pub mod synth;
pub mod text;
pub mod timing;
