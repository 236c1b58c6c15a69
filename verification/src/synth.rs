//! The synthesizer adapter: the trusted boundary to the `rustysynth`
//! SoundFont synthesizer, and the verified construction and control logic
//! on top of it.
//!
//! The synthesizer's audio output itself (floating-point sample buffers) is
//! consumed by the audio front end, which executes a verified
//! [`crate::render::RenderPlan`] step by step. Parsing an SF2 file into a
//! `SoundFont` also stays in the front end: `rustysynth`'s parser can abort
//! on malformed zone indices instead of returning an error, and a trusted
//! item may not promise that away.

use vstd::prelude::*;

use std::sync::Arc;

use crate::actions::MidiAction;
use crate::config::SoundFontProfile;
use crate::error::EngineError;

verus! {

#[verifier::external_type_specification]
#[verifier::external_body]
pub struct ExSoundFont(rustysynth::SoundFont);

#[verifier::external_type_specification]
#[verifier::external_body]
pub struct ExSynthesizer(rustysynth::Synthesizer);

#[verifier::external_type_specification]
#[verifier::external_body]
pub struct ExSynthesizerError(rustysynth::SynthesizerError);

/// Relies on `rustysynth::Synthesizer::new` and
/// `rustysynth::SynthesizerSettings::new`: the settings carry the default
/// block size of 64, and construction validates exactly that the sample
/// rate lies in 16000..=192000 and the maximum polyphony in 8..=256.
#[verifier::external_body]
fn new_synthesizer(
    sound_font: &Arc<rustysynth::SoundFont>,
    sample_rate: u32,
    maximum_polyphony: usize,
    enable_reverb_and_chorus: bool,
) -> (r: Result<rustysynth::Synthesizer, rustysynth::SynthesizerError>)
    ensures
        (r is Ok) <==> (16000 <= sample_rate <= 192000 && 8 <= maximum_polyphony <= 256),
{
    let mut settings = rustysynth::SynthesizerSettings::new(sample_rate as i32);
    settings.maximum_polyphony = maximum_polyphony;
    settings.enable_reverb_and_chorus = enable_reverb_and_chorus;
    rustysynth::Synthesizer::new(sound_font, &settings)
}

/// Relies on `rustysynth::Synthesizer::process_midi_message`: dispatches a
/// raw MIDI message; a channel outside 0..16 is silently ignored. With
/// both data bytes in 0..=127 (the MIDI data range) no input panics: the
/// controller arithmetic (the percussion bank offset, the pitch-bend
/// recentering, the coarse/fine splices) stays far inside its integer
/// ranges. Larger data bytes could overflow that arithmetic, so they are
/// excluded here.
#[verifier::external_body]
fn synth_process_midi_message(
    synth: &mut rustysynth::Synthesizer,
    channel: i32,
    command: i32,
    data1: i32,
    data2: i32,
)
    requires
        0 <= data1 <= 127,
        0 <= data2 <= 127,
{
    synth.process_midi_message(channel, command, data1, data2);
}

/// Relies on `rustysynth::Synthesizer::note_on`: starts a note; a channel
/// outside 0..16 or a key no region matches is silently ignored and no
/// input panics. (Its preset lookup indexes the bank's preset list, which
/// is never empty: `SoundFont::new` rejects a bank without presets, and
/// parsing is the only way to obtain one.)
#[verifier::external_body]
fn synth_note_on(synth: &mut rustysynth::Synthesizer, channel: i32, key: i32, velocity: i32) {
    synth.note_on(channel, key, velocity);
}

/// Relies on `rustysynth::Synthesizer::note_off`: releases a note; a
/// channel outside 0..16 is silently ignored and no input panics.
#[verifier::external_body]
fn synth_note_off(synth: &mut rustysynth::Synthesizer, channel: i32, key: i32) {
    synth.note_off(channel, key);
}

/// The channel-setup messages of a profile as raw `(channel, command,
/// data1, data2)` tuples, in the exact order they must be sent: bank
/// select MSB = the profile's bank, bank select LSB = 0, program change =
/// the profile's preset, then full channel volume (CC7 = 127) and full
/// expression (CC11 = 127) — a deterministic starting state whatever the
/// synthesizer defaults.
pub open spec fn spec_channel_setup(profile: SoundFontProfile) -> Seq<(i32, i32, i32, i32)> {
    seq![
        (profile.channel as i32, 0xb0, 0x00, profile.bank as i32),
        (profile.channel as i32, 0xb0, 0x20, 0),
        (profile.channel as i32, 0xc0, profile.preset as i32, 0),
        (profile.channel as i32, 0xb0, 0x07, 127),
        (profile.channel as i32, 0xb0, 0x0b, 127),
    ]
}

/// Emits the channel-setup messages of a profile, in order.
pub fn channel_setup_messages(profile: &SoundFontProfile) -> (r: Vec<(i32, i32, i32, i32)>)
    ensures
        r@ == spec_channel_setup(*profile),
{
    let channel = profile.channel as i32;
    let mut r: Vec<(i32, i32, i32, i32)> = Vec::new();
    r.push((channel, 0xb0, 0x00, profile.bank as i32));
    r.push((channel, 0xb0, 0x20, 0));
    r.push((channel, 0xc0, profile.preset as i32, 0));
    r.push((channel, 0xb0, 0x07, 127));
    r.push((channel, 0xb0, 0x0b, 127));
    proof {
        assert(r@ =~= spec_channel_setup(*profile));
    }
    r
}

/// Builds a synthesizer bound to a profile: rejects a sample rate outside
/// 16000..=192000, then sends exactly the messages of
/// `spec_channel_setup`, in their order, so that rendering starts from a
/// deterministic state whatever the synthesizer defaults.
pub fn build_synthesizer(
    sound_font: &Arc<rustysynth::SoundFont>,
    profile: &SoundFontProfile,
    sample_rate: u32,
) -> (r: Result<rustysynth::Synthesizer, EngineError>)
    requires
        profile.wf(),
    ensures
        (r is Ok) <==> (16000 <= sample_rate <= 192000),
        r matches Err(e) ==> e == EngineError::UnsupportedSampleRate,
{
    if sample_rate < 16000 || sample_rate > 192000 {
        return Err(EngineError::UnsupportedSampleRate);
    }
    let mut synth = match new_synthesizer(
        sound_font,
        sample_rate,
        profile.maximum_polyphony,
        profile.enable_reverb_and_chorus,
    ) {
        Ok(s) => s,
        Err(_) => {
            return Err(EngineError::UnsupportedSampleRate);
        },
    };
    let messages = channel_setup_messages(profile);
    let mut i: usize = 0;
    while i < messages.len()
        invariant
            messages@ == spec_channel_setup(*profile),
            profile.wf(),
            0 <= i <= messages@.len(),
        decreases messages@.len() - i,
    {
        let m = messages[i];
        synth_process_midi_message(&mut synth, m.0, m.1, m.2, m.3);
        i += 1;
    }
    Ok(synth)
}

/// The raw MIDI message an action dispatches on a channel, as a
/// `(channel, command, data1, data2)` tuple: a note-on as command 0x90
/// with the key and velocity, a note-off as command 0x80 with the key.
pub open spec fn spec_action_message(channel: u8, action: MidiAction) -> (i32, i32, i32, i32) {
    match action {
        MidiAction::NoteOn { key, velocity } => (
            channel as i32,
            0x90,
            key as i32,
            velocity as i32,
        ),
        MidiAction::NoteOff { key } => (channel as i32, 0x80, key as i32, 0),
    }
}

/// Dispatches one scheduled control action to the synthesizer on the
/// profile's channel — a note-on as a note-on message, a note-off as a
/// note-off message — and reports the raw message it sent.
pub fn apply_midi_action(synth: &mut rustysynth::Synthesizer, channel: u8, action: MidiAction)
    -> (r: (i32, i32, i32, i32))
    ensures
        r == spec_action_message(channel, action),
{
    match action {
        MidiAction::NoteOn { key, velocity } => {
            synth_note_on(synth, channel as i32, key as i32, velocity as i32);
            (channel as i32, 0x90, key as i32, velocity as i32)
        },
        MidiAction::NoteOff { key } => {
            synth_note_off(synth, channel as i32, key as i32);
            (channel as i32, 0x80, key as i32, 0)
        },
    }
}

} // verus!
