//! Configuration data of the engine and its surroundings, with the
//! validation rules that engine construction relies on.
//!
//! Volumes and gains are held in thousandths (a master volume of 0.68 is
//! 680) so that every rule is exact integer arithmetic.

use vstd::prelude::*;

use crate::error::EngineError;
use crate::text::{
    decimal_u8, is_blank, spec_blank_chars, spec_decimal_chars, string_from_ascii,
};
use vstd::string::StringExecFns;

verus! {

/// Whether unmapped key presses are reported.
#[derive(Clone, Copy, PartialEq, Eq, Structural, Debug)]
pub struct AppSection {
    pub print_unmapped_keys: bool,
}

impl Default for AppSection {
    fn default() -> (r: AppSection)
        ensures
            !r.print_unmapped_keys,
    {
        AppSection { print_unmapped_keys: false }
    }
}

/// Where and how verbosely the application logs.
#[derive(Clone, Debug)]
pub struct LoggingConfig {
    pub filter: String,
    pub directory: String,
}

impl Default for LoggingConfig {
    fn default() -> (r: LoggingConfig)
        ensures
            r.filter@ == "info"@,
            r.directory@ == "logs"@,
    {
        LoggingConfig { filter: "info".to_owned(), directory: "logs".to_owned() }
    }
}

/// How raw key input is interpreted.
#[derive(Clone, Copy, PartialEq, Eq, Structural, Debug)]
pub struct InputConfig {
    pub allow_key_repeat: bool,
    pub ignore_shift_for_char_keys: bool,
}

impl Default for InputConfig {
    fn default() -> (r: InputConfig)
        ensures
            !r.allow_key_repeat,
            r.ignore_shift_for_char_keys,
    {
        InputConfig { allow_key_repeat: false, ignore_shift_for_char_keys: true }
    }
}

/// The physical keyboard layouts the key-priority tables know about.
#[derive(Clone, Copy, PartialEq, Eq, Structural, Debug)]
pub enum KeyboardLayout {
    Ansi104,
}

impl Default for KeyboardLayout {
    fn default() -> (r: KeyboardLayout)
        ensures
            r == KeyboardLayout::Ansi104,
    {
        KeyboardLayout::Ansi104
    }
}

/// Which layout is in use and whether its default bindings apply.
#[derive(Clone, Copy, PartialEq, Eq, Structural, Debug)]
pub struct KeyboardConfig {
    pub layout: KeyboardLayout,
    pub use_layout_default_bindings: bool,
}

impl Default for KeyboardConfig {
    fn default() -> (r: KeyboardConfig)
        ensures
            r.layout == KeyboardLayout::Ansi104,
            r.use_layout_default_bindings,
    {
        KeyboardConfig { layout: KeyboardLayout::Ansi104, use_layout_default_bindings: true }
    }
}

/// Gameplay toggles around song playback.
#[derive(Clone, Copy, PartialEq, Eq, Structural, Debug)]
pub struct GameplayConfig {
    pub transpose_song_to_fit_bindings: bool,
    pub warn_on_missing_song_notes: bool,
    pub optimize_bindings_for_song: bool,
}

impl Default for GameplayConfig {
    fn default() -> (r: GameplayConfig)
        ensures
            r.transpose_song_to_fit_bindings,
            r.warn_on_missing_song_notes,
            !r.optimize_bindings_for_song,
    {
        GameplayConfig {
            transpose_song_to_fit_bindings: true,
            warn_on_missing_song_notes: true,
            optimize_bindings_for_song: false,
        }
    }
}

/// Chords bound to application controls, each written as a chord
/// specification string.
#[derive(Clone, Debug)]
pub struct ControlBindings {
    pub quit: Vec<String>,
    pub list_songs: Vec<String>,
    pub print_bindings: Vec<String>,
    pub play_song: Vec<String>,
}

impl Default for ControlBindings {
    fn default() -> (r: ControlBindings)
        ensures
            r.quit@.len() == 2 && r.quit@[0]@ == "esc"@ && r.quit@[1]@ == "ctrl+c"@,
            r.list_songs@.len() == 1 && r.list_songs@[0]@ == "f1"@,
            r.print_bindings@.len() == 1 && r.print_bindings@[0]@ == "f2"@,
            r.play_song@.len() == 1 && r.play_song@[0]@ == "f5"@,
    {
        let mut quit: Vec<String> = Vec::new();
        quit.push("esc".to_owned());
        quit.push("ctrl+c".to_owned());
        let mut list_songs: Vec<String> = Vec::new();
        list_songs.push("f1".to_owned());
        let mut print_bindings: Vec<String> = Vec::new();
        print_bindings.push("f2".to_owned());
        let mut play_song: Vec<String> = Vec::new();
        play_song.push("f5".to_owned());
        ControlBindings { quit, list_songs, print_bindings, play_song }
    }
}

/// Where songs, MIDI imports, the song schema and the cache live.
#[derive(Clone, Debug)]
pub struct SongLibraryConfig {
    pub directory: String,
    pub midi_directory: String,
    pub schema_path: String,
    pub cache_directory: String,
}

impl Default for SongLibraryConfig {
    fn default() -> (r: SongLibraryConfig)
        ensures
            r.directory@ == "res/songs"@,
            r.midi_directory@ == "res/assets/midi"@,
            r.schema_path@ == "res/songs/schema/song.schema.json"@,
            r.cache_directory@ == ".cache/songs"@,
    {
        SongLibraryConfig {
            directory: "res/songs".to_owned(),
            midi_directory: "res/assets/midi".to_owned(),
            schema_path: "res/songs/schema/song.schema.json".to_owned(),
            cache_directory: ".cache/songs".to_owned(),
        }
    }
}

/// A sample-bank voice: where its sample bank lives and how the
/// synthesizer is configured for it. The gain multiplier is in
/// thousandths.
#[derive(Clone, Debug)]
pub struct SoundFontProfile {
    pub soundfont_path: String,
    pub bank: u8,
    pub preset: u8,
    pub channel: u8,
    pub maximum_polyphony: usize,
    pub enable_reverb_and_chorus: bool,
    pub instrument_gain_milli: u32,
}

impl SoundFontProfile {
    /// A validated profile: a visible sample-bank path, bank and preset in
    /// 0..=127, channel in 0..=15, polyphony in 8..=256 and a gain of at
    /// most 2.5.
    pub open spec fn wf(self) -> bool {
        &&& !spec_blank_chars(self.soundfont_path@)
        &&& self.bank <= 127
        &&& self.preset <= 127
        &&& self.channel <= 15
        &&& 8 <= self.maximum_polyphony <= 256
        &&& self.instrument_gain_milli <= 2500
    }
}

impl Default for SoundFontProfile {
    fn default() -> (r: SoundFontProfile)
        ensures
            r.soundfont_path@ == "res/soundfonts/piano.sf2"@,
            r.bank == 0,
            r.preset == 0,
            r.channel == 0,
            r.maximum_polyphony == 128,
            r.enable_reverb_and_chorus,
            r.instrument_gain_milli == 1000,
    {
        SoundFontProfile {
            soundfont_path: "res/soundfonts/piano.sf2".to_owned(),
            bank: 0,
            preset: 0,
            channel: 0,
            maximum_polyphony: 128,
            enable_reverb_and_chorus: true,
            instrument_gain_milli: 1000,
        }
    }
}

/// An instrument voice backend. Today every voice is a sample bank; a
/// procedural backend would add a variant here, not a new dispatch path.
#[derive(Clone, Debug)]
pub enum InstrumentProfile {
    Soundfont(SoundFontProfile),
}

impl InstrumentProfile {
    /// The sample-bank profile behind this instrument.
    pub open spec fn spec_soundfont(self) -> SoundFontProfile {
        match self {
            InstrumentProfile::Soundfont(p) => p,
        }
    }

    /// A validated instrument: its backend profile is valid.
    pub open spec fn wf(self) -> bool {
        self.spec_soundfont().wf()
    }

    /// Borrows the sample-bank profile behind this instrument.
    pub fn soundfont(&self) -> (r: &SoundFontProfile)
        ensures
            *r == self.spec_soundfont(),
    {
        match self {
            InstrumentProfile::Soundfont(p) => p,
        }
    }
}

impl Default for InstrumentProfile {
    fn default() -> (r: InstrumentProfile)
        ensures
            r.spec_soundfont().soundfont_path@ == "res/soundfonts/piano.sf2"@,
            r.spec_soundfont().bank == 0,
            r.spec_soundfont().preset == 0,
            r.spec_soundfont().channel == 0,
            r.spec_soundfont().maximum_polyphony == 128,
            r.spec_soundfont().enable_reverb_and_chorus,
            r.spec_soundfont().instrument_gain_milli == 1000,
    {
        InstrumentProfile::Soundfont(SoundFontProfile::default())
    }
}

/// What a single instrument profile can be rejected for.
#[derive(Clone, Copy, PartialEq, Eq, Structural, Debug)]
pub enum ProfileError {
    BlankSoundFontPath,
    BankOutOfRange,
    PresetOutOfRange,
    ChannelOutOfRange,
    PolyphonyOutOfRange,
    GainOutOfRange,
}

/// The first thing wrong with an instrument profile, in check order.
pub open spec fn spec_profile_error(p: InstrumentProfile) -> Option<ProfileError> {
    let sf = p.spec_soundfont();
    if spec_blank_chars(sf.soundfont_path@) {
        Some(ProfileError::BlankSoundFontPath)
    } else if sf.bank > 127 {
        Some(ProfileError::BankOutOfRange)
    } else if sf.preset > 127 {
        Some(ProfileError::PresetOutOfRange)
    } else if sf.channel > 15 {
        Some(ProfileError::ChannelOutOfRange)
    } else if !(8 <= sf.maximum_polyphony <= 256) {
        Some(ProfileError::PolyphonyOutOfRange)
    } else if sf.instrument_gain_milli > 2500 {
        Some(ProfileError::GainOutOfRange)
    } else {
        None
    }
}

/// Checks one instrument profile: a visible sample-bank path, bank and
/// preset at most 127, channel at most 15, polyphony in 8..=256, gain at
/// most 2.5. Succeeds exactly on valid profiles.
pub fn validate_instrument_profile(profile: &InstrumentProfile) -> (r: Result<(), ProfileError>)
    ensures
        r matches Err(e) ==> spec_profile_error(*profile) == Some(e),
        r is Ok <==> profile.wf(),
{
    let sf = profile.soundfont();
    if is_blank(sf.soundfont_path.as_str()) {
        return Err(ProfileError::BlankSoundFontPath);
    }
    if sf.bank > 127 {
        return Err(ProfileError::BankOutOfRange);
    }
    if sf.preset > 127 {
        return Err(ProfileError::PresetOutOfRange);
    }
    if sf.channel > 15 {
        return Err(ProfileError::ChannelOutOfRange);
    }
    if sf.maximum_polyphony < 8 || sf.maximum_polyphony > 256 {
        return Err(ProfileError::PolyphonyOutOfRange);
    }
    if sf.instrument_gain_milli > 2500 {
        return Err(ProfileError::GainOutOfRange);
    }
    Ok(())
}

/// The audio section: which instrument is active, the master volume in
/// thousandths, note and release durations, the requested sample rate, and
/// the named instrument profiles.
#[derive(Clone, Debug)]
pub struct AudioConfig {
    pub instrument: String,
    pub master_volume_milli: u32,
    pub note_duration_ms: u64,
    pub release_duration_ms: u64,
    pub sample_rate_hz: u32,
    pub instrument_profiles: Vec<(String, InstrumentProfile)>,
}

/// Whether some profile entry carries the given name.
pub open spec fn spec_has_profile(profiles: Seq<(String, InstrumentProfile)>, name: Seq<char>)
    -> bool {
    exists|i: int| 0 <= i < profiles.len() && (#[trigger] profiles[i]).0@ == name
}

/// Whether every profile entry carries a distinct name.
pub open spec fn spec_profile_names_unique(profiles: Seq<(String, InstrumentProfile)>) -> bool {
    forall|i: int, j: int| 0 <= i < j < profiles.len() ==> (#[trigger] profiles[i]).0@ != (
    #[trigger] profiles[j]).0@
}

impl Default for AudioConfig {
    /// The piano profile at 48 kHz, volume 0.68, 680 ms notes and a 720 ms
    /// release, with a second guitar-preset profile.
    fn default() -> (r: AudioConfig)
        ensures
            r.instrument@ == "piano"@,
            r.master_volume_milli == 680,
            r.note_duration_ms == 680,
            r.release_duration_ms == 720,
            r.sample_rate_hz == 48000,
            r.instrument_profiles@.len() == 2,
            r.instrument_profiles@[0].0@ == "piano"@,
            r.instrument_profiles@[0].1.spec_soundfont().preset == 0,
            r.instrument_profiles@[0].1.spec_soundfont().instrument_gain_milli == 1000,
            r.instrument_profiles@[1].0@ == "acoustic_guitar"@,
            r.instrument_profiles@[1].1.spec_soundfont().preset == 24,
            r.instrument_profiles@[1].1.spec_soundfont().instrument_gain_milli == 1100,
    {
        let mut instrument_profiles: Vec<(String, InstrumentProfile)> = Vec::new();
        instrument_profiles.push(("piano".to_owned(), InstrumentProfile::default()));
        instrument_profiles.push(
            (
                "acoustic_guitar".to_owned(),
                InstrumentProfile::Soundfont(
                    SoundFontProfile {
                        soundfont_path: "res/soundfonts/piano.sf2".to_owned(),
                        bank: 0,
                        preset: 24,
                        channel: 0,
                        maximum_polyphony: 96,
                        enable_reverb_and_chorus: true,
                        instrument_gain_milli: 1100,
                    },
                ),
            ),
        );
        AudioConfig {
            instrument: "piano".to_owned(),
            master_volume_milli: 680,
            note_duration_ms: 680,
            release_duration_ms: 720,
            sample_rate_hz: 48000,
            instrument_profiles,
        }
    }
}

/// The whole application configuration.
#[derive(Clone, Debug)]
pub struct AppConfig {
    pub app: AppSection,
    pub logging: LoggingConfig,
    pub audio: AudioConfig,
    pub input: InputConfig,
    pub keyboard: KeyboardConfig,
    pub gameplay: GameplayConfig,
    pub control_bindings: ControlBindings,
    pub keybindings: Vec<(String, u8)>,
    pub song_library: SongLibraryConfig,
}

impl Default for AppConfig {
    fn default() -> (r: AppConfig)
        ensures
            !r.app.print_unmapped_keys,
            !r.input.allow_key_repeat,
            r.input.ignore_shift_for_char_keys,
            r.keyboard.layout == KeyboardLayout::Ansi104,
            r.keyboard.use_layout_default_bindings,
            r.audio.instrument@ == "piano"@,
            r.audio.master_volume_milli == 680,
            r.keybindings@.len() == 47,
    {
        AppConfig {
            app: AppSection::default(),
            logging: LoggingConfig::default(),
            audio: AudioConfig::default(),
            input: InputConfig::default(),
            keyboard: KeyboardConfig::default(),
            gameplay: GameplayConfig::default(),
            control_bindings: ControlBindings::default(),
            keybindings: default_keybindings(KeyboardLayout::Ansi104),
            song_library: SongLibraryConfig::default(),
        }
    }
}

/// What a configuration can be rejected for, in check order.
#[derive(Clone, Copy, PartialEq, Eq, Structural, Debug)]
pub enum ConfigError {
    MasterVolumeOutOfRange,
    ZeroNoteDuration,
    ZeroReleaseDuration,
    SampleRateOutOfRange,
    BlankInstrument,
    NoProfiles,
    ActiveProfileMissing,
    DuplicateProfileName(usize),
    Profile(usize, ProfileError),
    NoKeybindings,
    KeybindingNoteOutOfRange,
    BlankSongDirectory,
    BlankMidiDirectory,
    BlankSchemaPath,
    BlankCacheDirectory,
}

/// The first entry at or after index `j` whose name an earlier entry
/// already carries.
pub open spec fn spec_duplicate_name_from(
    profiles: Seq<(String, InstrumentProfile)>,
    j: int,
) -> Option<ConfigError>
    decreases profiles.len() - j,
{
    if j < 0 || j >= profiles.len() {
        None
    } else if exists|i: int| 0 <= i < j && (#[trigger] profiles[i]).0@ == profiles[j].0@ {
        Some(ConfigError::DuplicateProfileName(j as usize))
    } else {
        spec_duplicate_name_from(profiles, j + 1)
    }
}

/// The first invalid profile at or after index `i`, with its error.
pub open spec fn spec_profiles_error_from(
    profiles: Seq<(String, InstrumentProfile)>,
    i: int,
) -> Option<ConfigError>
    decreases profiles.len() - i,
{
    if i < 0 || i >= profiles.len() {
        None
    } else {
        match spec_profile_error(profiles[i].1) {
            Some(e) => Some(ConfigError::Profile(i as usize, e)),
            None => spec_profiles_error_from(profiles, i + 1),
        }
    }
}

/// Whether some keybinding maps to a MIDI note above 127.
pub open spec fn spec_bad_keybinding(bindings: Seq<(String, u8)>) -> bool {
    exists|i: int| 0 <= i < bindings.len() && (#[trigger] bindings[i]).1 > 127
}

/// The first thing wrong with a configuration, in the order the checks are
/// made, or `None` for a valid one.
pub open spec fn spec_config_error(c: AppConfig) -> Option<ConfigError> {
    if c.audio.master_volume_milli > 2500 {
        Some(ConfigError::MasterVolumeOutOfRange)
    } else if c.audio.note_duration_ms == 0 {
        Some(ConfigError::ZeroNoteDuration)
    } else if c.audio.release_duration_ms == 0 {
        Some(ConfigError::ZeroReleaseDuration)
    } else if c.audio.sample_rate_hz < 16000 || c.audio.sample_rate_hz > 192000 {
        Some(ConfigError::SampleRateOutOfRange)
    } else if spec_blank_chars(c.audio.instrument@) {
        Some(ConfigError::BlankInstrument)
    } else if c.audio.instrument_profiles@.len() == 0 {
        Some(ConfigError::NoProfiles)
    } else if !spec_has_profile(c.audio.instrument_profiles@, c.audio.instrument@) {
        Some(ConfigError::ActiveProfileMissing)
    } else if spec_duplicate_name_from(c.audio.instrument_profiles@, 0) is Some {
        spec_duplicate_name_from(c.audio.instrument_profiles@, 0)
    } else if spec_profiles_error_from(c.audio.instrument_profiles@, 0) is Some {
        spec_profiles_error_from(c.audio.instrument_profiles@, 0)
    } else if !c.keyboard.use_layout_default_bindings && c.keybindings@.len() == 0 {
        Some(ConfigError::NoKeybindings)
    } else if spec_bad_keybinding(c.keybindings@) {
        Some(ConfigError::KeybindingNoteOutOfRange)
    } else if spec_blank_chars(c.song_library.directory@) {
        Some(ConfigError::BlankSongDirectory)
    } else if spec_blank_chars(c.song_library.midi_directory@) {
        Some(ConfigError::BlankMidiDirectory)
    } else if spec_blank_chars(c.song_library.schema_path@) {
        Some(ConfigError::BlankSchemaPath)
    } else if spec_blank_chars(c.song_library.cache_directory@) {
        Some(ConfigError::BlankCacheDirectory)
    } else {
        None
    }
}

/// A valid configuration: every rule of `spec_config_error` holds.
pub open spec fn config_valid(c: AppConfig) -> bool {
    spec_config_error(c) is None
}

impl AudioConfig {
    /// The entry the active instrument name resolves to, if any.
    pub fn active_profile(&self) -> (r: Option<&(String, InstrumentProfile)>)
        ensures
            r matches Some(entry) ==> exists|i: int|
                0 <= i < self.instrument_profiles@.len() && #[trigger] self.instrument_profiles@[i]
                    == *entry && entry.0@ == self.instrument@,
            r is None ==> !spec_has_profile(self.instrument_profiles@, self.instrument@),
    {
        match find_profile(&self.instrument_profiles, &self.instrument) {
            Some(i) => Some(&self.instrument_profiles[i]),
            None => None,
        }
    }

    /// A one-line description of the configured active profile, naming its
    /// bank, preset and channel, or noting that the profile is missing.
    pub fn active_profile_summary(&self) -> (r: String)
        ensures
            !spec_has_profile(self.instrument_profiles@, self.instrument@) ==> r@
                == self.instrument@ + " (missing profile)"@,
            spec_has_profile(self.instrument_profiles@, self.instrument@) ==> exists|i: int|
                {
                    &&& 0 <= i < self.instrument_profiles@.len()
                    &&& (#[trigger] self.instrument_profiles@[i]).0@ == self.instrument@
                    &&& r@ == self.instrument@ + " (soundfont bank="@ + spec_decimal_chars(
                        self.instrument_profiles@[i].1.spec_soundfont().bank as nat,
                    ) + " preset="@ + spec_decimal_chars(
                        self.instrument_profiles@[i].1.spec_soundfont().preset as nat,
                    ) + " channel="@ + spec_decimal_chars(
                        self.instrument_profiles@[i].1.spec_soundfont().channel as nat,
                    ) + ")"@
                },
    {
        let entry_index = match find_profile(&self.instrument_profiles, &self.instrument) {
            Some(i) => i,
            None => {
                let mut s = self.instrument.clone();
                s.append(" (missing profile)");
                return s;
            },
        };
        let profile = self.instrument_profiles[entry_index].1.soundfont();
        let mut s = self.instrument.clone();
        s.append(" (soundfont bank=");
        let bank = string_from_ascii(decimal_u8(profile.bank));
        proof {
            assert(bank@ =~= spec_decimal_chars(profile.bank as nat));
        }
        s.append(bank.as_str());
        s.append(" preset=");
        let preset = string_from_ascii(decimal_u8(profile.preset));
        proof {
            assert(preset@ =~= spec_decimal_chars(profile.preset as nat));
        }
        s.append(preset.as_str());
        s.append(" channel=");
        let channel = string_from_ascii(decimal_u8(profile.channel));
        proof {
            assert(channel@ =~= spec_decimal_chars(profile.channel as nat));
        }
        s.append(channel.as_str());
        s.append(")");
        s
    }
}

/// Name-and-note pairs, as views.
pub open spec fn spec_bindings_views(s: Seq<(String, u8)>) -> Seq<(Seq<char>, u8)> {
    Seq::new(s.len(), |i: int| (s[i].0@, s[i].1))
}

/// The first position with the given name, or the length when absent.
pub open spec fn spec_find_name(m: Seq<(Seq<char>, u8)>, name: Seq<char>, i: int) -> int
    decreases m.len() - i,
{
    if i < 0 || i >= m.len() {
        m.len() as int
    } else if m[i].0 == name {
        i
    } else {
        spec_find_name(m, name, i + 1)
    }
}

/// One binding laid over a map: the first entry of the same name gets the
/// new note (keeping its key), or the binding is appended.
pub open spec fn spec_apply_binding(m: Seq<(Seq<char>, u8)>, name: Seq<char>, note: u8) -> Seq<
    (Seq<char>, u8),
> {
    let i = spec_find_name(m, name, 0);
    if i < m.len() {
        m.update(i, (m[i].0, note))
    } else {
        m.push((name, note))
    }
}

/// A list of bindings laid over a map, in order.
pub open spec fn spec_merge_bindings(
    base: Seq<(Seq<char>, u8)>,
    over: Seq<(Seq<char>, u8)>,
) -> Seq<(Seq<char>, u8)>
    decreases over.len(),
{
    if over.len() == 0 {
        base
    } else {
        let merged = spec_merge_bindings(base, over.drop_last());
        spec_apply_binding(merged, over.last().0, over.last().1)
    }
}

/// The default bindings of the layout, as views: the priority keys bound
/// to ascending notes from 48.
pub open spec fn spec_default_bindings() -> Seq<(Seq<char>, u8)> {
    Seq::new(spec_key_priority().len(), |i: int| (spec_key_priority()[i]@, (48 + i) as u8))
}

impl AppConfig {
    /// The note bindings in effect: the configured bindings alone when the
    /// layout defaults are disabled; otherwise the layout's default
    /// bindings with every configured binding laid over them in order (a
    /// binding overrides a default of the same key, or is appended).
    #[verifier::loop_isolation(false)]
    pub fn effective_keybindings(&self) -> (r: Vec<(String, u8)>)
        ensures
            !self.keyboard.use_layout_default_bindings ==> spec_bindings_views(r@)
                == spec_bindings_views(self.keybindings@),
            self.keyboard.use_layout_default_bindings ==> spec_bindings_views(r@)
                == spec_merge_bindings(
                spec_default_bindings(),
                spec_bindings_views(self.keybindings@),
            ),
    {
        if !self.keyboard.use_layout_default_bindings {
            let mut r: Vec<(String, u8)> = Vec::new();
            let mut i: usize = 0;
            while i < self.keybindings.len()
                invariant
                    0 <= i <= self.keybindings@.len(),
                    r@.len() == i,
                    forall|j: int|
                        0 <= j < i ==> (#[trigger] r@[j]).0@ == self.keybindings@[j].0@ && r@[j].1
                            == self.keybindings@[j].1,
                decreases self.keybindings@.len() - i,
            {
                let entry = &self.keybindings[i];
                r.push((entry.0.clone(), entry.1));
                i += 1;
            }
            proof {
                assert(spec_bindings_views(r@) =~= spec_bindings_views(self.keybindings@));
            }
            return r;
        }
        let mut r: Vec<(String, u8)> = default_keybindings(self.keyboard.layout);
        proof {
            assert(spec_bindings_views(r@) =~= spec_default_bindings());
        }
        let ghost over = spec_bindings_views(self.keybindings@);
        let mut i: usize = 0;
        while i < self.keybindings.len()
            invariant
                0 <= i <= self.keybindings@.len(),
                spec_bindings_views(r@) == spec_merge_bindings(
                    spec_default_bindings(),
                    over.take(i as int),
                ),
            decreases self.keybindings@.len() - i,
        {
            let entry = &self.keybindings[i];
            let ghost cur = spec_bindings_views(r@);
            let ghost name = self.keybindings@[i as int].0@;
            proof {
                assert(over.take(i + 1).drop_last() =~= over.take(i as int));
                assert(over.take(i + 1).last() == (name, self.keybindings@[i as int].1));
            }
            let mut j: usize = 0;
            let mut found = false;
            while j < r.len() && !found
                invariant
                    0 <= j <= r@.len(),
                    cur == spec_bindings_views(r@),
                    !found ==> spec_find_name(cur, name, 0) == spec_find_name(cur, name, j as int),
                    found ==> j < r@.len() && spec_find_name(cur, name, 0) == j && r@[j as int].0@
                        == name,
                decreases r@.len() - j + (if found {
                    0int
                } else {
                    1int
                }),
            {
                if r[j].0 == entry.0 {
                    found = true;
                } else {
                    j += 1;
                }
            }
            if found {
                let old_entry = r.remove(j);
                let ghost removed = r@;
                r.insert(j, (old_entry.0, entry.1));
                proof {
                    let ji = j as int;
                    assert forall|p: int| 0 <= p < cur.len() implies spec_bindings_views(r@)[p]
                        == cur.update(ji, (cur[ji].0, self.keybindings@[i as int].1))[p] by {
                        if p < ji {
                            assert(r@[p] == removed.insert(ji, (old_entry.0, entry.1))[p]);
                            assert(r@[p].0@ == cur[p].0 && r@[p].1 == cur[p].1);
                        } else if p == ji {
                            assert(r@[p] == (old_entry.0, entry.1));
                        } else {
                            assert(r@[p] == removed.insert(ji, (old_entry.0, entry.1))[p]);
                            assert(r@[p].0@ == cur[p].0 && r@[p].1 == cur[p].1);
                        }
                    }
                    assert(spec_bindings_views(r@) =~= cur.update(
                        ji,
                        (cur[ji].0, self.keybindings@[i as int].1),
                    ));
                }
            } else {
                r.push((entry.0.clone(), entry.1));
                proof {
                    assert(spec_bindings_views(r@) =~= cur.push(
                        (name, self.keybindings@[i as int].1),
                    ));
                }
            }
            i += 1;
        }
        proof {
            assert(over.take(over.len() as int) =~= over);
        }
        r
    }
}

proof fn lemma_no_duplicate_names(profiles: Seq<(String, InstrumentProfile)>, j: int)
    requires
        0 <= j,
        spec_duplicate_name_from(profiles, j) is None,
    ensures
        forall|a: int, b: int|
            0 <= a < b < profiles.len() && j <= b ==> (#[trigger] profiles[a]).0@ != (
            #[trigger] profiles[b]).0@,
    decreases profiles.len() - j,
{
    if j < profiles.len() {
        lemma_no_duplicate_names(profiles, j + 1);
    }
}

proof fn lemma_profiles_all_wf(profiles: Seq<(String, InstrumentProfile)>, i: int)
    requires
        0 <= i,
        spec_profiles_error_from(profiles, i) is None,
    ensures
        forall|k: int| i <= k < profiles.len() ==> (#[trigger] profiles[k]).1.wf(),
    decreases profiles.len() - i,
{
    if i < profiles.len() {
        lemma_profiles_all_wf(profiles, i + 1);
    }
}

/// A valid configuration establishes everything engine construction
/// trusts: every profile is valid, the profile names are pairwise
/// distinct, and the master volume is within range.
pub proof fn lemma_valid_config_supports_engine(c: AppConfig)
    requires
        config_valid(c),
    ensures
        forall|i: int|
            0 <= i < c.audio.instrument_profiles@.len() ==> (
            #[trigger] c.audio.instrument_profiles@[i]).1.wf(),
        spec_profile_names_unique(c.audio.instrument_profiles@),
        c.audio.master_volume_milli <= 2500,
{
    lemma_no_duplicate_names(c.audio.instrument_profiles@, 0);
    lemma_profiles_all_wf(c.audio.instrument_profiles@, 0);
}

/// Looks a profile name up among the entries.
pub fn find_profile(profiles: &Vec<(String, InstrumentProfile)>, name: &String) -> (r: Option<
    usize,
>)
    ensures
        r matches Some(i) ==> 0 <= i < profiles@.len() && profiles@[i as int].0@ == name@,
        r is None ==> !spec_has_profile(profiles@, name@),
{
    let mut i: usize = 0;
    while i < profiles.len()
        invariant
            0 <= i <= profiles@.len(),
            forall|j: int| 0 <= j < i ==> (#[trigger] profiles@[j]).0@ != name@,
        decreases profiles@.len() - i,
    {
        if profiles[i].0 == *name {
            return Some(i);
        }
        i += 1;
    }
    None
}

/// Checks a configuration against every rule the engine relies on: master
/// volume at most 2.5, positive note and release durations, a sample rate
/// in 16000..=192000, a visible active-instrument name naming one of at
/// least one profile, every profile valid, keybindings present when the
/// layout defaults are disabled and none mapping above MIDI note 127, and
/// visible song-library paths. Returns the first violation found.
#[verifier::loop_isolation(false)]
pub fn validate_config(config: &AppConfig) -> (r: Result<(), ConfigError>)
    ensures
        r matches Err(e) ==> spec_config_error(*config) == Some(e),
        r is Ok <==> config_valid(*config),
{
    if config.audio.master_volume_milli > 2500 {
        return Err(ConfigError::MasterVolumeOutOfRange);
    }
    if config.audio.note_duration_ms == 0 {
        return Err(ConfigError::ZeroNoteDuration);
    }
    if config.audio.release_duration_ms == 0 {
        return Err(ConfigError::ZeroReleaseDuration);
    }
    if config.audio.sample_rate_hz < 16000 || config.audio.sample_rate_hz > 192000 {
        return Err(ConfigError::SampleRateOutOfRange);
    }
    if is_blank(config.audio.instrument.as_str()) {
        return Err(ConfigError::BlankInstrument);
    }
    if config.audio.instrument_profiles.len() == 0 {
        return Err(ConfigError::NoProfiles);
    }
    if find_profile(&config.audio.instrument_profiles, &config.audio.instrument).is_none() {
        return Err(ConfigError::ActiveProfileMissing);
    }
    let mut j: usize = 0;
    while j < config.audio.instrument_profiles.len()
        invariant
            0 <= j <= config.audio.instrument_profiles@.len(),
            spec_duplicate_name_from(config.audio.instrument_profiles@, 0)
                == spec_duplicate_name_from(config.audio.instrument_profiles@, j as int),
        decreases config.audio.instrument_profiles@.len() - j,
    {
        let mut i: usize = 0;
        while i < j
            invariant
                0 <= i <= j < config.audio.instrument_profiles@.len(),
                forall|k: int|
                    0 <= k < i ==> (#[trigger] config.audio.instrument_profiles@[k]).0@
                        != config.audio.instrument_profiles@[j as int].0@,
            decreases j - i,
        {
            if config.audio.instrument_profiles[i].0 == config.audio.instrument_profiles[j].0 {
                return Err(ConfigError::DuplicateProfileName(j));
            }
            i += 1;
        }
        j += 1;
    }
    let mut i: usize = 0;
    while i < config.audio.instrument_profiles.len()
        invariant
            0 <= i <= config.audio.instrument_profiles@.len(),
            spec_profiles_error_from(config.audio.instrument_profiles@, 0)
                == spec_profiles_error_from(config.audio.instrument_profiles@, i as int),
        decreases config.audio.instrument_profiles@.len() - i,
    {
        match validate_instrument_profile(&config.audio.instrument_profiles[i].1) {
            Ok(()) => {},
            Err(e) => {
                return Err(ConfigError::Profile(i, e));
            },
        }
        i += 1;
    }
    if !config.keyboard.use_layout_default_bindings && config.keybindings.len() == 0 {
        return Err(ConfigError::NoKeybindings);
    }
    let mut k: usize = 0;
    while k < config.keybindings.len()
        invariant
            0 <= k <= config.keybindings@.len(),
            forall|j: int| 0 <= j < k ==> (#[trigger] config.keybindings@[j]).1 <= 127,
        decreases config.keybindings@.len() - k,
    {
        if config.keybindings[k].1 > 127 {
            return Err(ConfigError::KeybindingNoteOutOfRange);
        }
        k += 1;
    }
    if is_blank(config.song_library.directory.as_str()) {
        return Err(ConfigError::BlankSongDirectory);
    }
    if is_blank(config.song_library.midi_directory.as_str()) {
        return Err(ConfigError::BlankMidiDirectory);
    }
    if is_blank(config.song_library.schema_path.as_str()) {
        return Err(ConfigError::BlankSchemaPath);
    }
    if is_blank(config.song_library.cache_directory.as_str()) {
        return Err(ConfigError::BlankCacheDirectory);
    }
    Ok(())
}

/// The keys of a layout in the order notes should be assigned to them:
/// home row first, then increasingly remote keys.
pub open spec fn spec_key_priority() -> Seq<&'static str> {
    seq![
        "f", "j", "d", "k", "s", "l", "a", ";", "g", "h", "r", "u", "e", "i", "w", "o", "q", "p",
        "t", "y", "v", "n", "c", "m", "x", ",", "z", ".", "b", "'", "5", "6", "4", "7", "3", "8",
        "2", "9", "1", "0", "`", "-", "=", "/", "[", "]", "\\",
    ]
}

/// Returns the key-priority table of a layout.
pub fn keyboard_layout_key_priority(layout: KeyboardLayout) -> (r: Vec<&'static str>)
    ensures
        r@ == spec_key_priority(),
{
    match layout {
        KeyboardLayout::Ansi104 => {
            let mut v: Vec<&'static str> = Vec::new();
            v.push("f");
            v.push("j");
            v.push("d");
            v.push("k");
            v.push("s");
            v.push("l");
            v.push("a");
            v.push(";");
            v.push("g");
            v.push("h");
            v.push("r");
            v.push("u");
            v.push("e");
            v.push("i");
            v.push("w");
            v.push("o");
            v.push("q");
            v.push("p");
            v.push("t");
            v.push("y");
            v.push("v");
            v.push("n");
            v.push("c");
            v.push("m");
            v.push("x");
            v.push(",");
            v.push("z");
            v.push(".");
            v.push("b");
            v.push("'");
            v.push("5");
            v.push("6");
            v.push("4");
            v.push("7");
            v.push("3");
            v.push("8");
            v.push("2");
            v.push("9");
            v.push("1");
            v.push("0");
            v.push("`");
            v.push("-");
            v.push("=");
            v.push("/");
            v.push("[");
            v.push("]");
            v.push("\\");
            proof {
                assert(v@ =~= spec_key_priority());
            }
            v
        },
    }
}

/// The default note bindings of a layout: the keys in priority order, bound
/// to ascending MIDI notes from 48 (C3).
pub fn default_keybindings(layout: KeyboardLayout) -> (r: Vec<(String, u8)>)
    ensures
        r@.len() == spec_key_priority().len(),
        forall|i: int| 0 <= i < r@.len() ==> (#[trigger] r@[i]).0@ == spec_key_priority()[i]@
            && r@[i].1 == 48 + i,
{
    let keys = keyboard_layout_key_priority(layout);
    let mut r: Vec<(String, u8)> = Vec::new();
    let mut i: usize = 0;
    while i < keys.len()
        invariant
            0 <= i <= keys@.len(),
            keys@ == spec_key_priority(),
            keys@.len() == 47,
            r@.len() == i,
            forall|j: int| 0 <= j < i ==> (#[trigger] r@[j]).0@ == spec_key_priority()[j]@
                && r@[j].1 == 48 + j,
        decreases keys@.len() - i,
    {
        let note: u8 = 48 + (i as u8);
        r.push((keys[i].to_owned(), note));
        i += 1;
    }
    r
}

/// The left-hand key pool of a layout, in preference order.
pub open spec fn spec_ergonomic_left() -> Seq<&'static str> {
    seq![
        "f", "d", "s", "a", "g", "r", "e", "w", "q", "v", "c", "x", "z", "t", "b", "5", "4", "3",
        "2", "1", "`",
    ]
}

/// The right-hand key pool of a layout, in preference order.
pub open spec fn spec_ergonomic_right() -> Seq<&'static str> {
    seq![
        "j", "k", "l", ";", "h", "u", "i", "o", "p", "n", "m", ",", ".", "/", "'", "6", "7", "8",
        "9", "0", "-", "=", "[", "]", "\\",
    ]
}

fn owned_keys(keys: Vec<&'static str>) -> (r: Vec<String>)
    ensures
        r@.len() == keys@.len(),
        forall|i: int| 0 <= i < r@.len() ==> (#[trigger] r@[i])@ == keys@[i]@,
{
    let mut r: Vec<String> = Vec::new();
    let mut i: usize = 0;
    while i < keys.len()
        invariant
            0 <= i <= keys@.len(),
            r@.len() == i,
            forall|j: int| 0 <= j < i ==> (#[trigger] r@[j])@ == keys@[j]@,
        decreases keys@.len() - i,
    {
        r.push(keys[i].to_owned());
        i += 1;
    }
    r
}

/// The keys preferred for the left hand when bindings are reassigned for a
/// song, nearest the home row first.
pub fn ergonomic_left_keys(layout: KeyboardLayout) -> (r: Vec<String>)
    ensures
        r@.len() == spec_ergonomic_left().len(),
        forall|i: int| 0 <= i < r@.len() ==> (#[trigger] r@[i])@ == spec_ergonomic_left()[i]@,
{
    match layout {
        KeyboardLayout::Ansi104 => {
            let mut v: Vec<&'static str> = Vec::new();
            v.push("f");
            v.push("d");
            v.push("s");
            v.push("a");
            v.push("g");
            v.push("r");
            v.push("e");
            v.push("w");
            v.push("q");
            v.push("v");
            v.push("c");
            v.push("x");
            v.push("z");
            v.push("t");
            v.push("b");
            v.push("5");
            v.push("4");
            v.push("3");
            v.push("2");
            v.push("1");
            v.push("`");
            proof {
                assert(v@ =~= spec_ergonomic_left());
            }
            owned_keys(v)
        },
    }
}

/// The keys preferred for the right hand when bindings are reassigned for
/// a song, nearest the home row first.
pub fn ergonomic_right_keys(layout: KeyboardLayout) -> (r: Vec<String>)
    ensures
        r@.len() == spec_ergonomic_right().len(),
        forall|i: int| 0 <= i < r@.len() ==> (#[trigger] r@[i])@ == spec_ergonomic_right()[i]@,
{
    match layout {
        KeyboardLayout::Ansi104 => {
            let mut v: Vec<&'static str> = Vec::new();
            v.push("j");
            v.push("k");
            v.push("l");
            v.push(";");
            v.push("h");
            v.push("u");
            v.push("i");
            v.push("o");
            v.push("p");
            v.push("n");
            v.push("m");
            v.push(",");
            v.push(".");
            v.push("/");
            v.push("'");
            v.push("6");
            v.push("7");
            v.push("8");
            v.push("9");
            v.push("0");
            v.push("-");
            v.push("=");
            v.push("[");
            v.push("]");
            v.push("\\");
            proof {
                assert(v@ =~= spec_ergonomic_right());
            }
            owned_keys(v)
        },
    }
}

/// The fixed fallback locations tried, in order, when a profile's
/// configured sample-bank path does not exist.
pub open spec fn spec_fallback_paths() -> Seq<&'static str> {
    seq![
        "/usr/share/sounds/sf2/FluidR3_GM.sf2",
        "/usr/share/sounds/sf2/TimGM6mb.sf2",
        "/usr/share/sounds/sf2/default-GM.sf2",
        "/usr/share/soundfonts/FluidR3_GM.sf2",
        "/usr/share/sf2/FluidR3_GM.sf2",
    ]
}

/// The candidate sample-bank paths for a configured path: the configured
/// path itself first, then the fixed fallback locations in order.
pub fn soundfont_candidates(configured: &String) -> (r: Vec<String>)
    ensures
        r@.len() == 6,
        r@[0]@ == configured@,
        forall|i: int| 1 <= i < 6 ==> (#[trigger] r@[i])@ == spec_fallback_paths()[i - 1]@,
{
    let mut r: Vec<String> = Vec::new();
    r.push(configured.clone());
    r.push("/usr/share/sounds/sf2/FluidR3_GM.sf2".to_owned());
    r.push("/usr/share/sounds/sf2/TimGM6mb.sf2".to_owned());
    r.push("/usr/share/sounds/sf2/default-GM.sf2".to_owned());
    r.push("/usr/share/soundfonts/FluidR3_GM.sf2".to_owned());
    r.push("/usr/share/sf2/FluidR3_GM.sf2".to_owned());
    r
}

/// The message reported when a sample bank cannot be found: it names the
/// configured path and enumerates every fallback path tried, in the order
/// they are tried.
pub fn missing_sample_bank_message(configured: &String) -> (r: String)
    ensures
        r@ == "missing sample bank; paths tried: "@ + configured@ + ", "@ + spec_fallback_paths()[0]@
            + ", "@ + spec_fallback_paths()[1]@ + ", "@ + spec_fallback_paths()[2]@ + ", "@
            + spec_fallback_paths()[3]@ + ", "@ + spec_fallback_paths()[4]@,
{
    let mut s = "missing sample bank; paths tried: ".to_owned();
    s.append(configured.as_str());
    s.append(", ");
    s.append("/usr/share/sounds/sf2/FluidR3_GM.sf2");
    s.append(", ");
    s.append("/usr/share/sounds/sf2/TimGM6mb.sf2");
    s.append(", ");
    s.append("/usr/share/sounds/sf2/default-GM.sf2");
    s.append(", ");
    s.append("/usr/share/soundfonts/FluidR3_GM.sf2");
    s.append(", ");
    s.append("/usr/share/sf2/FluidR3_GM.sf2");
    s
}

/// Picks the sample-bank path to load, given which candidate paths exist
/// on this machine (`exists_flags[i]` answers for candidate `i` of
/// `soundfont_candidates`): the first existing candidate wins, and the
/// flag in the result says whether a fallback was used instead of the
/// configured path. Fails with `MissingSampleBank` when no candidate
/// exists.
pub fn resolve_soundfont_path(configured: &String, exists_flags: &Vec<bool>) -> (r: Result<
    (String, bool),
    EngineError,
>)
    requires
        exists_flags@.len() == 6,
    ensures
        r matches Err(e) ==> e == EngineError::MissingSampleBank && (forall|i: int|
            0 <= i < 6 ==> !exists_flags@[i]),
        r matches Ok(p) ==> exists|i: int|
            {
                &&& 0 <= i < 6
                &&& exists_flags@[i]
                &&& (forall|j: int| 0 <= j < i ==> !exists_flags@[j])
                &&& p.1 == (i > 0)
                &&& (i == 0 ==> p.0@ == configured@)
                &&& (i > 0 ==> p.0@ == spec_fallback_paths()[i - 1]@)
            },
{
    let candidates = soundfont_candidates(configured);
    let mut i: usize = 0;
    while i < candidates.len()
        invariant
            candidates@.len() == 6,
            exists_flags@.len() == 6,
            0 <= i <= 6,
            candidates@[0]@ == configured@,
            forall|k: int| 1 <= k < 6 ==> (#[trigger] candidates@[k])@ == spec_fallback_paths()[k
                - 1]@,
            forall|j: int| 0 <= j < i ==> !exists_flags@[j],
        decreases candidates@.len() - i,
    {
        if exists_flags[i] {
            let path = candidates[i].clone();
            return Ok((path, i > 0));
        }
        i += 1;
    }
    Err(EngineError::MissingSampleBank)
}

} // verus!
