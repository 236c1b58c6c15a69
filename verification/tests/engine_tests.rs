use symfose::actions::{sort_actions, MidiAction, ScheduledAction};
use symfose::config::{AudioConfig, InstrumentProfile, SoundFontProfile};
use symfose::engine::AudioEngine;
use symfose::error::EngineError;
use symfose::render::{gain_milli, plan_render, RenderStep};
use symfose::schedule::{schedule_note, schedule_song};
use symfose::songs::{SongEvent, SongFile, SongMetadata};
use symfose::timing::ms_to_frames;

fn piano_config() -> AudioConfig {
    AudioConfig {
        instrument: "piano".to_string(),
        master_volume_milli: 500,
        note_duration_ms: 680,
        release_duration_ms: 720,
        sample_rate_hz: 48000,
        instrument_profiles: vec![(
            "piano".to_string(),
            InstrumentProfile::Soundfont(SoundFontProfile {
                soundfont_path: "res/soundfonts/piano.sf2".to_string(),
                bank: 0,
                preset: 0,
                channel: 0,
                maximum_polyphony: 128,
                enable_reverb_and_chorus: true,
                instrument_gain_milli: 1000,
            }),
        )],
    }
}

#[test]
fn frames_formula_exact_values() {
    assert_eq!(ms_to_frames(680, 48000), 32640);
    assert_eq!(ms_to_frames(720, 48000), 34560);
    assert_eq!(ms_to_frames(500, 48000), 24000);
    // round to nearest: 1 ms at 44100 Hz is 44.1 frames
    assert_eq!(ms_to_frames(1, 44100), 44);
    assert_eq!(ms_to_frames(1, 44500), 45);
}

#[test]
fn frames_never_zero() {
    assert_eq!(ms_to_frames(0, 48000), 1);
    assert_eq!(ms_to_frames(0, 16000), 1);
}

#[test]
fn single_note_schedule_shape() {
    let (total, actions) = schedule_note(60, 112, 680, 720, 48000);
    assert_eq!(actions.len(), 2);
    assert_eq!(
        actions[0],
        ScheduledAction { frame: 0, action: MidiAction::NoteOn { key: 60, velocity: 112 } }
    );
    assert_eq!(
        actions[1],
        ScheduledAction { frame: 32640, action: MidiAction::NoteOff { key: 60 } }
    );
    assert_eq!(total, 32640 + 34560);
}

#[test]
fn short_note_floors_hold_and_release() {
    // 5 ms floors to 40 ms hold; 10 ms release floors to 160 ms
    let (total, actions) = schedule_note(60, 1, 5, 10, 48000);
    assert_eq!(actions[1].frame, ms_to_frames(40, 48000));
    assert_eq!(total, ms_to_frames(40, 48000) + ms_to_frames(160, 48000));
}

#[test]
fn same_frame_off_sorts_before_on() {
    let actions = vec![
        ScheduledAction { frame: 100, action: MidiAction::NoteOn { key: 60, velocity: 100 } },
        ScheduledAction { frame: 100, action: MidiAction::NoteOff { key: 60 } },
    ];
    let sorted = sort_actions(&actions);
    assert!(matches!(sorted[0].action, MidiAction::NoteOff { .. }));
    assert!(matches!(sorted[1].action, MidiAction::NoteOn { .. }));
}

#[test]
fn same_frame_restrike_applies_off_then_on() {
    // a note ending and the same note restarting on one frame must re-strike
    let actions = vec![
        ScheduledAction { frame: 100, action: MidiAction::NoteOn { key: 60, velocity: 100 } },
        ScheduledAction { frame: 100, action: MidiAction::NoteOff { key: 60 } },
    ];
    let plan = plan_render(200, &actions, 48000, 500, 1000).unwrap();
    assert!(matches!(plan.steps[0], RenderStep::Synthesize { start_frame: 0, end_frame: 100 }));
    assert!(matches!(plan.steps[1], RenderStep::Apply { action: MidiAction::NoteOff { .. } }));
    assert!(matches!(plan.steps[2], RenderStep::Apply { action: MidiAction::NoteOn { .. } }));
    assert!(matches!(plan.steps[3], RenderStep::Synthesize { start_frame: 100, end_frame: 200 }));
}

#[test]
fn zero_frames_renders_empty_plan_without_error() {
    let actions: Vec<ScheduledAction> = Vec::new();
    // even at an unsupported sample rate the empty render succeeds
    let plan = plan_render(0, &actions, 8000, 500, 1000).unwrap();
    assert_eq!(plan.total_frames, 0);
    assert!(plan.steps.is_empty());
    assert!(plan.actions.is_empty());
}

#[test]
fn unsupported_sample_rate_is_rejected() {
    let actions = vec![ScheduledAction {
        frame: 0,
        action: MidiAction::NoteOn { key: 60, velocity: 100 },
    }];
    assert_eq!(plan_render(10, &actions, 8000, 500, 1000).unwrap_err(), EngineError::UnsupportedSampleRate);
    assert_eq!(plan_render(10, &actions, 200000, 500, 1000).unwrap_err(), EngineError::UnsupportedSampleRate);
    assert!(plan_render(10, &actions, 16000, 500, 1000).is_ok());
    assert!(plan_render(10, &actions, 192000, 500, 1000).is_ok());
}

#[test]
fn render_plan_walks_segments_and_actions() {
    let actions = vec![
        ScheduledAction { frame: 5, action: MidiAction::NoteOn { key: 60, velocity: 100 } },
        ScheduledAction { frame: 12, action: MidiAction::NoteOff { key: 60 } },
    ];
    let plan = plan_render(20, &actions, 48000, 500, 1000).unwrap();
    let steps = &plan.steps;
    assert_eq!(steps.len(), 5);
    assert!(matches!(steps[0], RenderStep::Synthesize { start_frame: 0, end_frame: 5 }));
    assert!(matches!(steps[1], RenderStep::Apply { action: MidiAction::NoteOn { .. } }));
    assert!(matches!(steps[2], RenderStep::Synthesize { start_frame: 5, end_frame: 12 }));
    assert!(matches!(steps[3], RenderStep::Apply { action: MidiAction::NoteOff { .. } }));
    assert!(matches!(steps[4], RenderStep::Synthesize { start_frame: 12, end_frame: 20 }));
}

#[test]
fn out_of_range_actions_are_dropped() {
    let actions = vec![
        ScheduledAction { frame: 3, action: MidiAction::NoteOn { key: 60, velocity: 100 } },
        ScheduledAction { frame: 99, action: MidiAction::NoteOff { key: 60 } },
    ];
    let plan = plan_render(10, &actions, 48000, 500, 1000).unwrap();
    assert_eq!(plan.actions.len(), 1);
    assert_eq!(plan.actions[0].frame, 3);
}

#[test]
fn gain_is_clamped() {
    assert_eq!(gain_milli(500, 1000), 500);
    assert_eq!(gain_milli(680, 1100), 748);
    assert_eq!(gain_milli(2000, 2000), 2500);
    assert_eq!(gain_milli(0, 2500), 0);
    assert_eq!(gain_milli(2500, 2500), 2500);
}

#[test]
fn scenario_single_note_through_engine() {
    let engine = AudioEngine::new(&piano_config(), 48000).unwrap();
    let req = engine.play_note(60).unwrap();
    assert_eq!(req.plan.total_frames, 32640 + 34560);
    assert_eq!(req.plan.total_frames, 67200);
    assert_eq!(req.plan.actions.len(), 2);
    assert_eq!(
        req.plan.actions[0],
        ScheduledAction { frame: 0, action: MidiAction::NoteOn { key: 60, velocity: 112 } }
    );
    assert_eq!(
        req.plan.actions[1],
        ScheduledAction { frame: 32640, action: MidiAction::NoteOff { key: 60 } }
    );
    assert_eq!(req.plan.gain_milli, 500);
    assert_eq!(req.profile_name, "piano");
    assert_eq!(req.sample_rate_hz, 48000);
}

#[test]
fn scenario_song_with_one_chord_event() {
    let mut song = SongFile::default();
    song.meta = SongMetadata { tempo_mbpm: 120_000, ..SongMetadata::default() };
    song.events = vec![SongEvent {
        at_mbeats: 0,
        duration_mbeats: 1000,
        notes: vec![60, 64],
        velocity: None,
        hand: None,
        lyric: None,
        accent: false,
    }];
    let engine = AudioEngine::new(&piano_config(), 48000).unwrap();
    let req = engine.play_song(&song).unwrap();
    // one beat at 120 BPM is 0.5 s, 24000 frames at 48 kHz
    let off_frame = 24000;
    let release = ms_to_frames(720, 48000);
    assert_eq!(req.plan.total_frames, off_frame + release);
    assert_eq!(req.plan.actions.len(), 4);
    assert_eq!(req.plan.actions[0].frame, 0);
    assert_eq!(req.plan.actions[1].frame, 0);
    assert_eq!(req.plan.actions[2].frame, off_frame);
    assert_eq!(req.plan.actions[3].frame, off_frame);
    assert!(matches!(req.plan.actions[0].action, MidiAction::NoteOn { .. }));
    assert!(matches!(req.plan.actions[3].action, MidiAction::NoteOff { .. }));
}

#[test]
fn scenario_unknown_profile_switch_keeps_engine_usable() {
    let mut engine = AudioEngine::new(&piano_config(), 48000).unwrap();
    let result = engine.set_active_profile("nonexistent");
    assert_eq!(result.unwrap_err(), EngineError::UnknownProfile);
    assert_eq!(engine.active_profile_name(), "piano");
    // a subsequent note still renders with the prior profile
    let req = engine.play_note(60).unwrap();
    assert_eq!(req.profile_name, "piano");
    assert_eq!(req.plan.actions.len(), 2);
}

#[test]
fn empty_song_is_a_no_op_render() {
    let song = SongFile::default();
    let engine = AudioEngine::new(&piano_config(), 48000).unwrap();
    let req = engine.play_song(&song).unwrap();
    assert_eq!(req.plan.total_frames, 0);
    assert!(req.plan.steps.is_empty());
}

#[test]
fn metronome_tick_presets() {
    let engine = AudioEngine::new(&piano_config(), 48000).unwrap();
    let accent = engine.play_metronome_tick(true).unwrap();
    let plain = engine.play_metronome_tick(false).unwrap();
    // 115 ms and 90 ms holds, with the engine's 720 ms release tail
    assert_eq!(accent.plan.total_frames, ms_to_frames(115, 48000) + ms_to_frames(720, 48000));
    assert_eq!(plain.plan.total_frames, ms_to_frames(90, 48000) + ms_to_frames(720, 48000));
}

#[test]
fn engine_construction_requires_active_profile() {
    let mut config = piano_config();
    config.instrument = "organ".to_string();
    assert_eq!(AudioEngine::new(&config, 48000).unwrap_err(), EngineError::UnknownProfile);
}

#[test]
fn master_volume_setter_clamps() {
    let mut engine = AudioEngine::new(&piano_config(), 48000).unwrap();
    engine.set_master_volume(9999);
    assert_eq!(engine.master_volume(), 2500);
    engine.set_master_volume(300);
    assert_eq!(engine.master_volume(), 300);
}

#[test]
fn available_profiles_are_sorted() {
    let mut config = piano_config();
    config.instrument_profiles.push((
        "accordion".to_string(),
        InstrumentProfile::Soundfont(SoundFontProfile {
            preset: 21,
            ..config.instrument_profiles[0].1.soundfont().clone()
        }),
    ));
    let engine = AudioEngine::new(&config, 48000).unwrap();
    // entries were supplied piano-first; the listing is sorted ascending
    assert_eq!(
        engine.available_profiles(),
        vec!["accordion".to_string(), "piano".to_string()]
    );
}

#[test]
fn song_release_tail_is_not_floored() {
    // spec 4.2: a song's total is the last note-off plus frames(release_ms),
    // with no minimum on the release
    let mut song = SongFile::default();
    song.meta = SongMetadata { tempo_mbpm: 120_000, ..SongMetadata::default() };
    song.events = vec![SongEvent {
        at_mbeats: 0,
        duration_mbeats: 1000,
        notes: vec![60],
        velocity: None,
        hand: None,
        lyric: None,
        accent: false,
    }];
    let (total, actions) = schedule_song(&song, 48000, 680, 100);
    assert_eq!(actions.len(), 2);
    assert_eq!(total, 24000 + ms_to_frames(100, 48000));
}

#[test]
fn schedule_fit_guards_are_callable() {
    let engine = AudioEngine::new(&piano_config(), 48000).unwrap();
    assert!(engine.can_play_note(680));
    let mut song = SongFile::default();
    song.events = vec![SongEvent { notes: vec![60], ..SongEvent::default() }];
    assert!(engine.can_play_song(&song));
}

#[test]
fn channel_setup_messages_follow_the_fixed_order() {
    let profile = SoundFontProfile {
        bank: 3,
        preset: 24,
        channel: 2,
        ..SoundFontProfile::default()
    };
    let messages = symfose::synth::channel_setup_messages(&profile);
    assert_eq!(
        messages,
        vec![
            (2, 0xb0, 0x00, 3),
            (2, 0xb0, 0x20, 0),
            (2, 0xc0, 24, 0),
            (2, 0xb0, 0x07, 127),
            (2, 0xb0, 0x0b, 127),
        ]
    );
}

#[test]
fn missing_bank_message_enumerates_paths() {
    let message =
        symfose::config::missing_sample_bank_message(&"res/soundfonts/piano.sf2".to_string());
    assert!(message.contains("res/soundfonts/piano.sf2"));
    assert!(message.contains("/usr/share/sounds/sf2/FluidR3_GM.sf2"));
    assert!(message.contains("/usr/share/sounds/sf2/TimGM6mb.sf2"));
    assert!(message.contains("/usr/share/sounds/sf2/default-GM.sf2"));
    assert!(message.contains("/usr/share/soundfonts/FluidR3_GM.sf2"));
    assert!(message.contains("/usr/share/sf2/FluidR3_GM.sf2"));
}

#[test]
fn profile_summary_names_bank_preset_channel() {
    let engine = AudioEngine::new(&piano_config(), 48000).unwrap();
    assert_eq!(engine.active_profile_summary(), "piano (soundfont bank=0 preset=0 channel=0)");
    assert_eq!(engine.available_profiles(), vec!["piano".to_string()]);
}

#[test]
fn unsupported_engine_rate_drops_note() {
    let engine = AudioEngine::new(&piano_config(), 8000).unwrap();
    assert_eq!(engine.play_note(60).unwrap_err(), EngineError::UnsupportedSampleRate);
}
