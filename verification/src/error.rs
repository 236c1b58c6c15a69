//! Errors of the playback engine.

use vstd::prelude::*;

verus! {

/// Everything that can go wrong while loading profiles, switching state, or
/// rendering.
#[derive(Clone, Copy, PartialEq, Eq, Structural, Debug)]
pub enum EngineError {
    /// Neither the configured sample-bank path nor any fallback path exists;
    /// fatal at profile-load time.
    MissingSampleBank,
    /// The sample-bank file exists but is not a valid sample bank; fatal at
    /// profile-load time.
    ParseError,
    /// A profile switch was requested to a name that is not loaded;
    /// recoverable, the engine state is left unchanged.
    UnknownProfile,
    /// A render was requested at a sample rate the synthesizer does not
    /// support; recoverable per call.
    UnsupportedSampleRate,
    /// The output transport cannot open a device; fatal at engine
    /// construction.
    NoOutputDevice,
}

impl EngineError {
    /// A short human-readable description of the error.
    pub fn message(&self) -> (r: &'static str)
        ensures
            r@.len() > 0,
    {
        let r: &'static str = match self {
            EngineError::MissingSampleBank => "configured sample bank and all fallback paths are missing",
            EngineError::ParseError => "sample bank file exists but cannot be parsed",
            EngineError::UnknownProfile => "unknown audio profile",
            EngineError::UnsupportedSampleRate => "sample rate is outside the supported range 16000..=192000",
            EngineError::NoOutputDevice => "no audio output device available",
        };
        proof {
            reveal_strlit("configured sample bank and all fallback paths are missing");
            reveal_strlit("sample bank file exists but cannot be parsed");
            reveal_strlit("unknown audio profile");
            reveal_strlit("sample rate is outside the supported range 16000..=192000");
            reveal_strlit("no audio output device available");
        }
        r
    }
}

} // verus!
