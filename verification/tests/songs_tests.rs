use symfose::config::{
    default_keybindings, ergonomic_left_keys, ergonomic_right_keys, keyboard_layout_key_priority,
    resolve_soundfont_path, validate_config, validate_instrument_profile, AppConfig, ConfigError,
    InstrumentProfile, KeyboardLayout, ProfileError, SoundFontProfile,
};
use symfose::error::EngineError;
use symfose::notes::{midi_note_name, midi_to_frequency_millihz};
use symfose::songs::{
    black_key_after, close_unended_notes, finish_active_note, humanize_song_title, is_black_key,
    is_white_key, sanitize_for_cache, sanitize_song_id, take_first_available, ticks_to_mbeats,
    validate_song, MidiNoteRange, SongError, SongEvent, SongFile, SongMetadata, SongSection,
    SourceKind, TimerScore,
};

#[test]
fn frequency_anchor_points() {
    // A4 is exactly 440 Hz and one octave up exactly doubles it
    assert_eq!(midi_to_frequency_millihz(69), 440_000);
    assert_eq!(midi_to_frequency_millihz(81), 880_000);
    assert_eq!(midi_to_frequency_millihz(57), 220_000);
    // middle C: the lowest C is 8.175799 Hz, 8176 milli-hertz rounded,
    // and five exact octave doublings give 261.632 Hz in the model
    assert_eq!(midi_to_frequency_millihz(60), 8176 * 32);
    // every octave doubles
    for n in 0u8..=115 {
        assert_eq!(midi_to_frequency_millihz(n + 12), 2 * midi_to_frequency_millihz(n));
    }
}

#[test]
fn note_names() {
    assert_eq!(midi_note_name(60), "C4");
    assert_eq!(midi_note_name(69), "A4");
    assert_eq!(midi_note_name(61), "C#4");
    assert_eq!(midi_note_name(0), "C-1");
    assert_eq!(midi_note_name(127), "G9");
}

#[test]
fn keyboard_key_colors() {
    assert!(is_white_key(60));
    assert!(is_black_key(61));
    assert!(is_white_key(64));
    assert_eq!(black_key_after(60), Some(61));
    assert_eq!(black_key_after(64), None);
}

#[test]
fn valid_song_passes() {
    let mut song = SongFile::default();
    song.events = vec![SongEvent { notes: vec![60], ..SongEvent::default() }];
    assert!(validate_song(&song).is_ok());
}

#[test]
fn song_validation_errors() {
    let good_event = SongEvent { notes: vec![60], ..SongEvent::default() };

    let mut song = SongFile::default();
    song.events = vec![good_event.clone()];
    song.version = 0;
    assert_eq!(validate_song(&song).unwrap_err(), SongError::InvalidVersion);

    let mut song = SongFile::default();
    song.events = vec![good_event.clone()];
    song.meta.id = "   ".to_string();
    assert_eq!(validate_song(&song).unwrap_err(), SongError::MissingId);

    let mut song = SongFile::default();
    song.events = vec![good_event.clone()];
    song.meta.title = "".to_string();
    assert_eq!(validate_song(&song).unwrap_err(), SongError::MissingTitle);

    let mut song = SongFile::default();
    song.events = vec![good_event.clone()];
    song.meta.tempo_mbpm = 0;
    assert_eq!(validate_song(&song).unwrap_err(), SongError::NonPositiveTempo);

    let mut song = SongFile::default();
    song.events = vec![good_event.clone()];
    song.meta.beat_unit = 3;
    assert_eq!(validate_song(&song).unwrap_err(), SongError::UnsupportedBeatUnit);

    let mut song = SongFile::default();
    song.events = vec![good_event.clone()];
    song.meta.default_velocity = 0;
    assert_eq!(validate_song(&song).unwrap_err(), SongError::DefaultVelocityOutOfRange);

    let song = SongFile::default();
    assert_eq!(validate_song(&song).unwrap_err(), SongError::NoEvents);

    let mut song = SongFile::default();
    song.events = vec![good_event.clone(), SongEvent { notes: vec![200], ..SongEvent::default() }];
    assert_eq!(validate_song(&song).unwrap_err(), SongError::EventNoteOutOfRange(1));

    let mut song = SongFile::default();
    song.events = vec![SongEvent { duration_mbeats: 0, notes: vec![60], ..SongEvent::default() }];
    assert_eq!(validate_song(&song).unwrap_err(), SongError::EventWithoutDuration(0));

    let mut song = SongFile::default();
    song.events = vec![SongEvent { velocity: Some(0), notes: vec![60], ..SongEvent::default() }];
    assert_eq!(validate_song(&song).unwrap_err(), SongError::EventVelocityOutOfRange(0));

    let mut song = SongFile::default();
    song.events = vec![good_event.clone()];
    song.sections = vec![SongSection { start_mbeats: 10, end_mbeats: 5, id: "a".to_string(), ..SongSection::default() }];
    assert_eq!(validate_song(&song).unwrap_err(), SongError::SectionEndsBeforeStart(0));

    let mut song = SongFile::default();
    song.events = vec![good_event];
    song.sections = vec![SongSection::default()];
    assert_eq!(validate_song(&song).unwrap_err(), SongError::SectionWithoutId(0));
}

#[test]
fn sanitizers() {
    assert_eq!(sanitize_song_id("My Song (live)!"), "my_song__live");
    assert_eq!(sanitize_song_id("___"), "midi_song");
    assert_eq!(sanitize_song_id("Valse-Op64"), "valse-op64");
    assert_eq!(sanitize_for_cache("My Song"), "My_Song");
    assert_eq!(sanitize_for_cache(""), "song");
    assert_eq!(humanize_song_title("my_favorite-song"), "my favorite song");
    assert_eq!(humanize_song_title("___"), "Imported MIDI");
    assert_eq!(humanize_song_title("  already good  "), "already good");
}

#[test]
fn pool_takes_in_order() {
    let mut pool = vec!["f".to_string(), "d".to_string()];
    assert_eq!(take_first_available(&mut pool), Some("f".to_string()));
    assert_eq!(take_first_available(&mut pool), Some("d".to_string()));
    assert_eq!(take_first_available(&mut pool), None);
}

#[test]
fn finishing_an_active_note_records_a_range() {
    let mut active: Vec<((u8, u8), Vec<(u64, u8)>)> = vec![((0, 60), vec![(100, 96)])];
    let mut ranges: Vec<MidiNoteRange> = Vec::new();
    finish_active_note(0, 60, 250, &mut active, &mut ranges);
    assert_eq!(ranges.len(), 1);
    assert_eq!(ranges[0], MidiNoteRange { start_tick: 100, end_tick: 250, note: 60, velocity: 96 });
    assert!(active[0].1.is_empty());
    // finishing again does nothing
    finish_active_note(0, 60, 300, &mut active, &mut ranges);
    assert_eq!(ranges.len(), 1);
    // an end no later than the start still lasts one tick
    let mut active: Vec<((u8, u8), Vec<(u64, u8)>)> = vec![((0, 60), vec![(100, 96)])];
    finish_active_note(0, 60, 50, &mut active, &mut ranges);
    assert_eq!(ranges[1].end_tick, 101);
}

#[test]
fn closing_unended_notes_uses_half_beat() {
    let active: Vec<((u8, u8), Vec<(u64, u8)>)> = vec![((0, 60), vec![(100, 96), (400, 80)])];
    let mut ranges: Vec<MidiNoteRange> = Vec::new();
    close_unended_notes(&active, 480, &mut ranges);
    assert_eq!(ranges.len(), 2);
    assert_eq!(ranges[0], MidiNoteRange { start_tick: 100, end_tick: 340, note: 60, velocity: 96 });
    assert_eq!(ranges[1], MidiNoteRange { start_tick: 400, end_tick: 640, note: 60, velocity: 80 });
}

#[test]
fn ticks_convert_to_milli_beats() {
    // 480 ticks per beat: one beat is 1000 milli-beats, half a beat 500
    assert_eq!(ticks_to_mbeats(480, 480), 1000);
    assert_eq!(ticks_to_mbeats(240, 480), 500);
    // rounds to the nearest milli-beat
    assert_eq!(ticks_to_mbeats(1, 480), 2);
    assert_eq!(ticks_to_mbeats(0, 480), 0);
    // a zero ticks-per-beat counts as one; huge products saturate
    assert_eq!(ticks_to_mbeats(7, 0), 7000);
    assert_eq!(ticks_to_mbeats(u64::MAX, 1), u64::MAX);
}

#[test]
fn timer_score_starts_empty() {
    let score = TimerScore::new(42);
    assert_eq!(score.expected_notes, 42);
    assert_eq!(score.hit_notes, 0);
    assert_eq!(score.missed_notes, 0);
}

#[test]
fn source_kinds_have_cache_subdirs() {
    assert_eq!(SourceKind::Toml.cache_subdir(), "toml");
    assert_eq!(SourceKind::Midi.cache_subdir(), "midi");
}

#[test]
fn default_config_is_valid() {
    let config = AppConfig::default();
    assert!(validate_config(&config).is_ok());
    assert_eq!(config.audio.instrument, "piano");
    assert_eq!(config.audio.master_volume_milli, 680);
    assert_eq!(config.audio.sample_rate_hz, 48000);
}

#[test]
fn config_validation_errors() {
    let mut config = AppConfig::default();
    config.audio.master_volume_milli = 2600;
    assert_eq!(validate_config(&config).unwrap_err(), ConfigError::MasterVolumeOutOfRange);

    let mut config = AppConfig::default();
    config.audio.note_duration_ms = 0;
    assert_eq!(validate_config(&config).unwrap_err(), ConfigError::ZeroNoteDuration);

    let mut config = AppConfig::default();
    config.audio.sample_rate_hz = 8000;
    assert_eq!(validate_config(&config).unwrap_err(), ConfigError::SampleRateOutOfRange);

    let mut config = AppConfig::default();
    config.audio.instrument = "missing".to_string();
    assert_eq!(validate_config(&config).unwrap_err(), ConfigError::ActiveProfileMissing);

    let mut config = AppConfig::default();
    config.keybindings[0].1 = 200;
    assert_eq!(validate_config(&config).unwrap_err(), ConfigError::KeybindingNoteOutOfRange);

    let mut config = AppConfig::default();
    config.song_library.directory = " ".to_string();
    assert_eq!(validate_config(&config).unwrap_err(), ConfigError::BlankSongDirectory);
}

#[test]
fn duplicate_profile_names_are_rejected() {
    let mut config = AppConfig::default();
    let copy = config.audio.instrument_profiles[0].clone();
    config.audio.instrument_profiles[1] = copy;
    assert_eq!(validate_config(&config).unwrap_err(), ConfigError::DuplicateProfileName(1));
}

#[test]
fn profile_validation_errors() {
    let good = SoundFontProfile::default();
    assert!(validate_instrument_profile(&InstrumentProfile::Soundfont(good.clone())).is_ok());

    let p = SoundFontProfile { bank: 128, ..good.clone() };
    assert_eq!(
        validate_instrument_profile(&InstrumentProfile::Soundfont(p)).unwrap_err(),
        ProfileError::BankOutOfRange
    );
    let p = SoundFontProfile { channel: 16, ..good.clone() };
    assert_eq!(
        validate_instrument_profile(&InstrumentProfile::Soundfont(p)).unwrap_err(),
        ProfileError::ChannelOutOfRange
    );
    let p = SoundFontProfile { maximum_polyphony: 4, ..good.clone() };
    assert_eq!(
        validate_instrument_profile(&InstrumentProfile::Soundfont(p)).unwrap_err(),
        ProfileError::PolyphonyOutOfRange
    );
    let p = SoundFontProfile { instrument_gain_milli: 2600, ..good.clone() };
    assert_eq!(
        validate_instrument_profile(&InstrumentProfile::Soundfont(p)).unwrap_err(),
        ProfileError::GainOutOfRange
    );
    let p = SoundFontProfile { soundfont_path: "".to_string(), ..good };
    assert_eq!(
        validate_instrument_profile(&InstrumentProfile::Soundfont(p)).unwrap_err(),
        ProfileError::BlankSoundFontPath
    );
}

#[test]
fn key_priority_and_default_bindings() {
    let keys = keyboard_layout_key_priority(KeyboardLayout::Ansi104);
    assert_eq!(keys.len(), 47);
    assert_eq!(keys[0], "f");
    assert_eq!(keys[1], "j");
    let bindings = default_keybindings(KeyboardLayout::Ansi104);
    assert_eq!(bindings.len(), 47);
    assert_eq!(bindings[0], ("f".to_string(), 48));
    assert_eq!(bindings[46].1, 94);
}

#[test]
fn effective_keybindings_merge() {
    let mut config = AppConfig::default();
    config.keybindings = vec![("f".to_string(), 50u8), ("zz".to_string(), 99u8)];
    let merged = config.effective_keybindings();
    // the "f" default (note 48) is overridden, the unknown key appended
    assert_eq!(merged.len(), 48);
    assert_eq!(merged[0], ("f".to_string(), 50));
    assert_eq!(merged[1], ("j".to_string(), 49));
    assert_eq!(merged[47], ("zz".to_string(), 99));

    config.keyboard.use_layout_default_bindings = false;
    let own = config.effective_keybindings();
    assert_eq!(own, vec![("f".to_string(), 50), ("zz".to_string(), 99)]);
}

#[test]
fn song_duration_is_last_event_end() {
    let mut song = SongFile::default();
    assert_eq!(song.duration_mbeats(), 0);
    song.events = vec![
        SongEvent { at_mbeats: 0, duration_mbeats: 1000, notes: vec![60], ..SongEvent::default() },
        SongEvent { at_mbeats: 2000, duration_mbeats: 500, notes: vec![62], ..SongEvent::default() },
    ];
    assert_eq!(song.duration_mbeats(), 2500);
}

#[test]
fn audio_config_summary_strings() {
    let config = AppConfig::default();
    assert_eq!(
        config.audio.active_profile_summary(),
        "piano (soundfont bank=0 preset=0 channel=0)"
    );
    let mut config = AppConfig::default();
    config.audio.instrument = "organ".to_string();
    assert_eq!(config.audio.active_profile_summary(), "organ (missing profile)");
}

#[test]
fn audio_config_active_profile_lookup() {
    let config = AppConfig::default();
    let (name, _profile) = config.audio.active_profile().unwrap();
    assert_eq!(name.as_str(), "piano");
    let mut config = AppConfig::default();
    config.audio.instrument = "missing".to_string();
    assert!(config.audio.active_profile().is_none());
}

#[test]
fn ergonomic_pools_cover_both_hands() {
    let left = ergonomic_left_keys(KeyboardLayout::Ansi104);
    let right = ergonomic_right_keys(KeyboardLayout::Ansi104);
    assert_eq!(left.len(), 21);
    assert_eq!(right.len(), 25);
    assert_eq!(left[0], "f");
    assert_eq!(right[0], "j");
    assert!(!left.iter().any(|k| right.contains(k)));
}

#[test]
fn soundfont_path_resolution() {
    let configured = "does/not/matter.sf2".to_string();
    // the configured path exists: no fallback
    let r = resolve_soundfont_path(&configured, &vec![true, false, false, false, false, false]);
    assert_eq!(r.unwrap(), ("does/not/matter.sf2".to_string(), false));
    // only a fallback exists: the first existing fallback wins
    let r = resolve_soundfont_path(&configured, &vec![false, false, true, true, false, false]);
    let (path, used_fallback) = r.unwrap();
    assert!(used_fallback);
    assert_eq!(path, "/usr/share/sounds/sf2/TimGM6mb.sf2");
    // nothing exists
    let r = resolve_soundfont_path(&configured, &vec![false; 6]);
    assert_eq!(r.unwrap_err(), EngineError::MissingSampleBank);
}

#[test]
fn event_without_notes_is_rejected() {
    let mut song = SongFile::default();
    song.events = vec![SongEvent::default()];
    assert_eq!(validate_song(&song).unwrap_err(), SongError::EventWithoutNotes(0));
}

#[test]
fn more_config_validation_errors() {
    let mut config = AppConfig::default();
    config.audio.release_duration_ms = 0;
    assert_eq!(validate_config(&config).unwrap_err(), ConfigError::ZeroReleaseDuration);

    let mut config = AppConfig::default();
    config.audio.instrument = "\t ".to_string();
    assert_eq!(validate_config(&config).unwrap_err(), ConfigError::BlankInstrument);

    let mut config = AppConfig::default();
    config.audio.instrument_profiles.clear();
    assert_eq!(validate_config(&config).unwrap_err(), ConfigError::NoProfiles);

    let mut config = AppConfig::default();
    config.keyboard.use_layout_default_bindings = false;
    config.keybindings.clear();
    assert_eq!(validate_config(&config).unwrap_err(), ConfigError::NoKeybindings);

    let mut config = AppConfig::default();
    config.audio.instrument_profiles[1].1 =
        InstrumentProfile::Soundfont(SoundFontProfile { preset: 200, ..SoundFontProfile::default() });
    assert_eq!(
        validate_config(&config).unwrap_err(),
        ConfigError::Profile(1, ProfileError::PresetOutOfRange)
    );

    let mut config = AppConfig::default();
    config.song_library.midi_directory = "".to_string();
    assert_eq!(validate_config(&config).unwrap_err(), ConfigError::BlankMidiDirectory);

    let mut config = AppConfig::default();
    config.song_library.schema_path = "".to_string();
    assert_eq!(validate_config(&config).unwrap_err(), ConfigError::BlankSchemaPath);

    let mut config = AppConfig::default();
    config.song_library.cache_directory = "".to_string();
    assert_eq!(validate_config(&config).unwrap_err(), ConfigError::BlankCacheDirectory);
}

#[test]
fn engine_error_messages_are_descriptive() {
    assert!(EngineError::UnknownProfile.message().contains("unknown"));
    assert!(EngineError::UnsupportedSampleRate.message().contains("16000"));
}
