//! The in-memory song representation the engine consumes: ordered note
//! events with beat-relative timing, plus its validation rules and small
//! keyboard helpers.
//!
//! Beat offsets and durations are held in thousandths of a beat
//! (milli-beats) and the tempo in thousandths of a beat per minute
//! (milli-BPM), so that scheduling is exact integer arithmetic.

use vstd::prelude::*;

use crate::text::{
    is_blank, spec_blank_chars, string_from_ascii, string_from_utf8_lossy,
};
use vstd::string::StringSliceAdditionalSpecFns;

verus! {

/// Which hand plays an event, where a song annotates it.
#[derive(Clone, Copy, PartialEq, Eq, Structural, Debug)]
pub enum Hand {
    Left,
    Right,
    Both,
}

/// One playable event of a song: a chord of notes starting at a beat offset.
#[derive(Clone, Debug)]
pub struct SongEvent {
    /// Start of the event, in milli-beats from the beginning of the song.
    pub at_mbeats: u64,
    /// Length of the event in milli-beats; 0 means "use the default note
    /// duration".
    pub duration_mbeats: u64,
    /// MIDI notes sounding together, each in 0..=127.
    pub notes: Vec<u8>,
    /// Velocity in 1..=127, or the song's default when absent.
    pub velocity: Option<u8>,
    /// Hand annotation, if any.
    pub hand: Option<Hand>,
    /// Lyric syllable, if any.
    pub lyric: Option<String>,
    /// Whether the event is accented.
    pub accent: bool,
}

impl Default for SongEvent {
    /// A one-beat event with no notes.
    fn default() -> (r: SongEvent)
        ensures
            r.at_mbeats == 0,
            r.duration_mbeats == 1000,
            r.notes@.len() == 0,
            r.velocity is None,
            r.hand is None,
            r.lyric is None,
            !r.accent,
    {
        SongEvent {
            at_mbeats: 0,
            duration_mbeats: 1000,
            notes: Vec::new(),
            velocity: None,
            hand: None,
            lyric: None,
            accent: false,
        }
    }
}

/// A labelled span of a song, in milli-beats.
#[derive(Clone, Debug)]
pub struct SongSection {
    pub id: String,
    pub label: String,
    pub start_mbeats: u64,
    pub end_mbeats: u64,
    pub looped: bool,
}

impl Default for SongSection {
    fn default() -> (r: SongSection)
        ensures
            r.id@.len() == 0,
            r.label@.len() == 0,
            r.start_mbeats == 0,
            r.end_mbeats == 0,
            !r.looped,
    {
        SongSection {
            id: String::new(),
            label: String::new(),
            start_mbeats: 0,
            end_mbeats: 0,
            looped: false,
        }
    }
}

/// Song-level metadata. The tempo is in milli-BPM (thousandths of a beat
/// per minute).
#[derive(Clone, Debug)]
pub struct SongMetadata {
    pub id: String,
    pub title: String,
    pub artist: String,
    pub composer: String,
    pub arranger: String,
    pub description: String,
    pub difficulty: u8,
    pub tempo_mbpm: u32,
    pub beats_per_bar: u8,
    pub beat_unit: u8,
    pub key_signature: String,
    pub tags: Vec<String>,
    pub source_url: String,
    pub sort_order: i32,
    pub default_velocity: u8,
}

impl Default for SongMetadata {
    /// The metadata of an untitled song at 120 BPM in 4/4.
    fn default() -> (r: SongMetadata)
        ensures
            r.id@ == "untitled"@,
            r.title@ == "Untitled"@,
            r.difficulty == 1,
            r.tempo_mbpm == 120000,
            r.beats_per_bar == 4,
            r.beat_unit == 4,
            r.key_signature@ == "C major"@,
            r.sort_order == 0,
            r.default_velocity == 96,
            r.artist@.len() == 0,
            r.tags@.len() == 0,
    {
        SongMetadata {
            id: "untitled".to_owned(),
            title: "Untitled".to_owned(),
            artist: String::new(),
            composer: String::new(),
            arranger: String::new(),
            description: String::new(),
            difficulty: 1,
            tempo_mbpm: 120000,
            beats_per_bar: 4,
            beat_unit: 4,
            key_signature: "C major".to_owned(),
            tags: Vec::new(),
            source_url: String::new(),
            sort_order: 0,
            default_velocity: 96,
        }
    }
}

/// A complete song: metadata, optional sections, and the ordered events.
#[derive(Clone, Debug)]
pub struct SongFile {
    pub version: u16,
    pub schema: String,
    pub meta: SongMetadata,
    pub sections: Vec<SongSection>,
    pub events: Vec<SongEvent>,
}

impl Default for SongFile {
    fn default() -> (r: SongFile)
        ensures
            r.version == 1,
            r.schema@ == "res/songs/schema/song.schema.json"@,
            r.sections@.len() == 0,
            r.events@.len() == 0,
    {
        SongFile {
            version: 1,
            schema: "res/songs/schema/song.schema.json".to_owned(),
            meta: SongMetadata::default(),
            sections: Vec::new(),
            events: Vec::new(),
        }
    }
}

/// A beat offset plus a duration, saturating at the largest offset.
pub open spec fn spec_mbeats_end(at: u64, duration: u64) -> u64 {
    if at + duration > u64::MAX {
        u64::MAX
    } else {
        (at + duration) as u64
    }
}

/// The length of a song in milli-beats: the largest end (start plus
/// duration) over its events, or 0 for an empty song.
pub open spec fn spec_song_duration_mbeats(events: Seq<SongEvent>) -> u64
    decreases events.len(),
{
    if events.len() == 0 {
        0
    } else {
        let rest = spec_song_duration_mbeats(events.drop_last());
        let end = spec_mbeats_end(events.last().at_mbeats, events.last().duration_mbeats);
        if end > rest {
            end
        } else {
            rest
        }
    }
}

impl SongFile {
    /// The length of the song in milli-beats: where its last event ends.
    pub fn duration_mbeats(&self) -> (r: u64)
        ensures
            r == spec_song_duration_mbeats(self.events@),
    {
        let mut max_end: u64 = 0;
        let mut i: usize = 0;
        while i < self.events.len()
            invariant
                0 <= i <= self.events@.len(),
                max_end == spec_song_duration_mbeats(self.events@.take(i as int)),
            decreases self.events@.len() - i,
        {
            let e = &self.events[i];
            proof {
                assert(self.events@.take(i + 1).drop_last() =~= self.events@.take(i as int));
                assert(self.events@.take(i + 1).last() == self.events@[i as int]);
            }
            let end: u64 = if e.at_mbeats > u64::MAX - e.duration_mbeats {
                u64::MAX
            } else {
                e.at_mbeats + e.duration_mbeats
            };
            if end > max_end {
                max_end = end;
            }
            i += 1;
        }
        proof {
            assert(self.events@.take(self.events@.len() as int) =~= self.events@);
        }
        max_end
    }
}

/// Everything a song can be rejected for, with the index of the offending
/// event or section where one is involved.
#[derive(Clone, Copy, PartialEq, Eq, Structural, Debug)]
pub enum SongError {
    InvalidVersion,
    MissingId,
    MissingTitle,
    NonPositiveTempo,
    ZeroBeatsPerBar,
    UnsupportedBeatUnit,
    DefaultVelocityOutOfRange,
    NoEvents,
    EventWithoutDuration(usize),
    EventWithoutNotes(usize),
    EventNoteOutOfRange(usize),
    EventVelocityOutOfRange(usize),
    SectionWithoutId(usize),
    SectionEndsBeforeStart(usize),
}

/// The beat units a song may declare: whole to thirty-second notes.
pub open spec fn spec_beat_unit_ok(u: u8) -> bool {
    u == 1 || u == 2 || u == 4 || u == 8 || u == 16 || u == 32
}

/// The first thing wrong with one event, if anything.
pub open spec fn spec_event_error(e: SongEvent, i: int) -> Option<SongError> {
    if e.duration_mbeats == 0 {
        Some(SongError::EventWithoutDuration(i as usize))
    } else if e.notes@.len() == 0 {
        Some(SongError::EventWithoutNotes(i as usize))
    } else if exists|k: int| 0 <= k < e.notes@.len() && #[trigger] e.notes@[k] > 127 {
        Some(SongError::EventNoteOutOfRange(i as usize))
    } else if e.velocity matches Some(v) && !(1 <= v <= 127) {
        Some(SongError::EventVelocityOutOfRange(i as usize))
    } else {
        None
    }
}

/// The first event error at or after index `i`.
pub open spec fn spec_events_error_from(events: Seq<SongEvent>, i: int) -> Option<SongError>
    decreases events.len() - i,
{
    if i < 0 || i >= events.len() {
        None
    } else {
        match spec_event_error(events[i], i) {
            Some(e) => Some(e),
            None => spec_events_error_from(events, i + 1),
        }
    }
}

/// The first thing wrong with one section, if anything.
pub open spec fn spec_section_error(s: SongSection, i: int) -> Option<SongError> {
    if spec_blank_chars(s.id@) {
        Some(SongError::SectionWithoutId(i as usize))
    } else if s.end_mbeats < s.start_mbeats {
        Some(SongError::SectionEndsBeforeStart(i as usize))
    } else {
        None
    }
}

/// The first section error at or after index `i`.
pub open spec fn spec_sections_error_from(sections: Seq<SongSection>, i: int) -> Option<SongError>
    decreases sections.len() - i,
{
    if i < 0 || i >= sections.len() {
        None
    } else {
        match spec_section_error(sections[i], i) {
            Some(e) => Some(e),
            None => spec_sections_error_from(sections, i + 1),
        }
    }
}

/// The first thing wrong with a song, in the order the checks are made, or
/// `None` for a valid song.
pub open spec fn spec_song_error(song: SongFile) -> Option<SongError> {
    if song.version == 0 {
        Some(SongError::InvalidVersion)
    } else if spec_blank_chars(song.meta.id@) {
        Some(SongError::MissingId)
    } else if spec_blank_chars(song.meta.title@) {
        Some(SongError::MissingTitle)
    } else if song.meta.tempo_mbpm == 0 {
        Some(SongError::NonPositiveTempo)
    } else if song.meta.beats_per_bar == 0 {
        Some(SongError::ZeroBeatsPerBar)
    } else if !spec_beat_unit_ok(song.meta.beat_unit) {
        Some(SongError::UnsupportedBeatUnit)
    } else if !(1 <= song.meta.default_velocity <= 127) {
        Some(SongError::DefaultVelocityOutOfRange)
    } else if song.events@.len() == 0 {
        Some(SongError::NoEvents)
    } else if spec_events_error_from(song.events@, 0) is Some {
        spec_events_error_from(song.events@, 0)
    } else {
        spec_sections_error_from(song.sections@, 0)
    }
}

/// A valid song: every rule of `spec_song_error` holds.
pub open spec fn song_valid(song: SongFile) -> bool {
    spec_song_error(song) is None
}

fn all_notes_in_range(notes: &Vec<u8>) -> (r: bool)
    ensures
        r == !(exists|k: int| 0 <= k < notes@.len() && #[trigger] notes@[k] > 127),
{
    let mut i: usize = 0;
    while i < notes.len()
        invariant
            0 <= i <= notes@.len(),
            forall|k: int| 0 <= k < i ==> #[trigger] notes@[k] <= 127,
        decreases notes@.len() - i,
    {
        if notes[i] > 127 {
            return false;
        }
        i += 1;
    }
    true
}

/// Checks a song against every structural rule: a non-zero version, visible
/// id and title, a positive tempo, a sane time signature, a default velocity
/// in 1..=127, at least one event, and per event a positive duration, at
/// least one note, notes in 0..=127 and a velocity in 1..=127 when given;
/// sections must carry an id and must not end before they start. Returns the
/// first violation found, in that order.
#[verifier::loop_isolation(false)]
pub fn validate_song(song: &SongFile) -> (r: Result<(), SongError>)
    ensures
        r matches Err(e) ==> spec_song_error(*song) == Some(e),
        r is Ok <==> song_valid(*song),
{
    if song.version == 0 {
        return Err(SongError::InvalidVersion);
    }
    if is_blank(song.meta.id.as_str()) {
        return Err(SongError::MissingId);
    }
    if is_blank(song.meta.title.as_str()) {
        return Err(SongError::MissingTitle);
    }
    if song.meta.tempo_mbpm == 0 {
        return Err(SongError::NonPositiveTempo);
    }
    if song.meta.beats_per_bar == 0 {
        return Err(SongError::ZeroBeatsPerBar);
    }
    let u = song.meta.beat_unit;
    if !(u == 1 || u == 2 || u == 4 || u == 8 || u == 16 || u == 32) {
        return Err(SongError::UnsupportedBeatUnit);
    }
    if song.meta.default_velocity < 1 || song.meta.default_velocity > 127 {
        return Err(SongError::DefaultVelocityOutOfRange);
    }
    if song.events.len() == 0 {
        return Err(SongError::NoEvents);
    }
    let mut i: usize = 0;
    while i < song.events.len()
        invariant
            0 <= i <= song.events@.len(),
            spec_events_error_from(song.events@, 0) == spec_events_error_from(
                song.events@,
                i as int,
            ),
        decreases song.events@.len() - i,
    {
        let e = &song.events[i];
        if e.duration_mbeats == 0 {
            return Err(SongError::EventWithoutDuration(i));
        }
        if e.notes.len() == 0 {
            return Err(SongError::EventWithoutNotes(i));
        }
        if !all_notes_in_range(&e.notes) {
            return Err(SongError::EventNoteOutOfRange(i));
        }
        match e.velocity {
            Some(v) => {
                if v < 1 || v > 127 {
                    return Err(SongError::EventVelocityOutOfRange(i));
                }
            },
            None => {},
        }
        assert(spec_event_error(song.events@[i as int], i as int) is None);
        i += 1;
    }
    let mut j: usize = 0;
    while j < song.sections.len()
        invariant
            0 <= j <= song.sections@.len(),
            spec_events_error_from(song.events@, 0) is None,
            spec_sections_error_from(song.sections@, 0) == spec_sections_error_from(
                song.sections@,
                j as int,
            ),
        decreases song.sections@.len() - j,
    {
        let s = &song.sections[j];
        if is_blank(s.id.as_str()) {
            return Err(SongError::SectionWithoutId(j));
        }
        if s.end_mbeats < s.start_mbeats {
            return Err(SongError::SectionEndsBeforeStart(j));
        }
        assert(spec_section_error(song.sections@[j as int], j as int) is None);
        j += 1;
    }
    Ok(())
}

/// Whether a MIDI note falls on a black key of the piano keyboard.
pub fn is_black_key(midi_note: u8) -> (r: bool)
    ensures
        r == (midi_note % 12 == 1 || midi_note % 12 == 3 || midi_note % 12 == 6 || midi_note % 12
            == 8 || midi_note % 12 == 10),
{
    let pc = midi_note % 12;
    pc == 1 || pc == 3 || pc == 6 || pc == 8 || pc == 10
}

/// Whether a MIDI note falls on a white key of the piano keyboard.
pub fn is_white_key(midi_note: u8) -> (r: bool)
    ensures
        r == !(midi_note % 12 == 1 || midi_note % 12 == 3 || midi_note % 12 == 6 || midi_note % 12
            == 8 || midi_note % 12 == 10),
{
    !is_black_key(midi_note)
}

/// The black key immediately after a white key, where one exists (C, D, F,
/// G and A have one; E and B do not).
pub fn black_key_after(white_note: u8) -> (r: Option<u8>)
    requires
        white_note < 255,
    ensures
        (white_note % 12 == 0 || white_note % 12 == 2 || white_note % 12 == 5 || white_note % 12
            == 7 || white_note % 12 == 9) ==> r == Some((white_note + 1) as u8),
        !(white_note % 12 == 0 || white_note % 12 == 2 || white_note % 12 == 5 || white_note % 12
            == 7 || white_note % 12 == 9) ==> r is None,
{
    let pc = white_note % 12;
    if pc == 0 || pc == 2 || pc == 5 || pc == 7 || pc == 9 {
        Some(white_note + 1)
    } else {
        None
    }
}


/// An ASCII letter or digit.
pub open spec fn is_ascii_alnum(b: u8) -> bool {
    (48 <= b <= 57) || (65 <= b <= 90) || (97 <= b <= 122)
}

/// A UTF-8 continuation byte: part of a multi-byte character, not its
/// start.
pub open spec fn is_continuation(b: u8) -> bool {
    128 <= b < 192
}

/// ASCII lowercase of one byte.
pub open spec fn ascii_lower_byte(b: u8) -> u8 {
    if 65 <= b <= 90 {
        (b + 32) as u8
    } else {
        b
    }
}

/// The identifier core of a song id: letters, digits, `_` and `-` kept
/// lowercased, every other character replaced by one underscore (a
/// multi-byte character counts once: its continuation bytes are dropped).
pub open spec fn spec_id_core(s: Seq<u8>) -> Seq<u8>
    decreases s.len(),
{
    if s.len() == 0 {
        Seq::empty()
    } else {
        let rest = spec_id_core(s.drop_last());
        let b = s.last();
        if is_ascii_alnum(b) || b == 95 || b == 45 {
            rest.push(ascii_lower_byte(b))
        } else if is_continuation(b) {
            rest
        } else {
            rest.push(95)
        }
    }
}

/// A byte sequence with leading and trailing underscores removed.
pub open spec fn spec_trim_underscores(t: Seq<u8>) -> Seq<u8>
    decreases t.len(),
{
    if t.len() > 0 && t.first() == 95 {
        spec_trim_underscores(t.drop_first())
    } else if t.len() > 0 && t.last() == 95 {
        spec_trim_underscores(t.drop_last())
    } else {
        t
    }
}

/// What sanitizing a song id yields: the lowercased identifier core with
/// surrounding underscores trimmed, or `midi_song` when nothing is left.
pub open spec fn spec_sanitized_song_id(s: Seq<u8>) -> Seq<u8> {
    let t = spec_trim_underscores(spec_id_core(s));
    if t.len() == 0 {
        "midi_song".spec_bytes()
    } else {
        t
    }
}

/// Sanitizes a file stem into a song id: ASCII letters, digits, `_` and
/// `-` are kept lowercased, anything else becomes an underscore; leading
/// and trailing underscores are trimmed, and an empty result falls back to
/// `midi_song`.
pub fn sanitize_song_id(input: &str) -> (r: String)
    ensures
        vstd::utf8::encode_utf8(r@) == spec_sanitized_song_id(input.spec_bytes()),
{
    let bytes = input.as_bytes();
    let mut out: Vec<u8> = Vec::new();
    let mut i: usize = 0;
    while i < bytes.len()
        invariant
            0 <= i <= bytes@.len(),
            bytes@ == input.spec_bytes(),
            out@ == spec_id_core(bytes@.take(i as int)),
            forall|j: int| 0 <= j < out@.len() ==> #[trigger] out@[j] < 128,
        decreases bytes@.len() - i,
    {
        let b = bytes[i];
        proof {
            assert(bytes@.take(i + 1).drop_last() =~= bytes@.take(i as int));
            assert(bytes@.take(i + 1).last() == b);
        }
        if (48 <= b && b <= 57) || (65 <= b && b <= 90) || (97 <= b && b <= 122) || b == 95 || b
            == 45 {
            let lb: u8 = if 65 <= b && b <= 90 {
                b + 32
            } else {
                b
            };
            out.push(lb);
        } else if 128 <= b && b < 192 {
        } else {
            out.push(95);
        }
        i += 1;
    }
    proof {
        assert(bytes@.take(bytes@.len() as int) =~= bytes@);
    }
    while out.len() > 0 && out[0] == 95
        invariant
            spec_trim_underscores(out@) == spec_trim_underscores(spec_id_core(bytes@)),
            forall|j: int| 0 <= j < out@.len() ==> #[trigger] out@[j] < 128,
        decreases out@.len(),
    {
        proof {
            assert(out@.remove(0) =~= out@.drop_first());
        }
        out.remove(0);
    }
    while out.len() > 0 && out[out.len() - 1] == 95
        invariant
            spec_trim_underscores(out@) == spec_trim_underscores(spec_id_core(bytes@)),
            out@.len() > 0 ==> out@.first() != 95,
            forall|j: int| 0 <= j < out@.len() ==> #[trigger] out@[j] < 128,
        decreases out@.len(),
    {
        out.pop();
    }
    proof {
        assert(spec_trim_underscores(out@) == out@);
    }
    if out.len() == 0 {
        return "midi_song".to_owned();
    }
    let r = string_from_ascii(out);
    proof {
        crate::text::lemma_ascii_view_bytes(r@, spec_sanitized_song_id(input.spec_bytes()));
    }
    r
}

/// The cache-name core: ASCII letters, digits, `_` and `-` kept as they
/// are, every other character replaced by one underscore.
pub open spec fn spec_cache_core(s: Seq<u8>) -> Seq<u8>
    decreases s.len(),
{
    if s.len() == 0 {
        Seq::empty()
    } else {
        let rest = spec_cache_core(s.drop_last());
        let b = s.last();
        if is_ascii_alnum(b) || b == 95 || b == 45 {
            rest.push(b)
        } else if is_continuation(b) {
            rest
        } else {
            rest.push(95)
        }
    }
}

/// What sanitizing a cache name yields: the identifier core, or `song`
/// when the input holds nothing.
pub open spec fn spec_sanitized_cache_name(s: Seq<u8>) -> Seq<u8> {
    let t = spec_cache_core(s);
    if t.len() == 0 {
        "song".spec_bytes()
    } else {
        t
    }
}

/// Sanitizes a file stem for use in a cache file name: ASCII letters,
/// digits, `_` and `-` are kept, anything else becomes an underscore; an
/// empty result falls back to `song`.
pub fn sanitize_for_cache(input: &str) -> (r: String)
    ensures
        vstd::utf8::encode_utf8(r@) == spec_sanitized_cache_name(input.spec_bytes()),
{
    let bytes = input.as_bytes();
    let mut out: Vec<u8> = Vec::new();
    let mut i: usize = 0;
    while i < bytes.len()
        invariant
            0 <= i <= bytes@.len(),
            bytes@ == input.spec_bytes(),
            out@ == spec_cache_core(bytes@.take(i as int)),
            forall|j: int| 0 <= j < out@.len() ==> #[trigger] out@[j] < 128,
        decreases bytes@.len() - i,
    {
        let b = bytes[i];
        proof {
            assert(bytes@.take(i + 1).drop_last() =~= bytes@.take(i as int));
            assert(bytes@.take(i + 1).last() == b);
        }
        if (48 <= b && b <= 57) || (65 <= b && b <= 90) || (97 <= b && b <= 122) || b == 95 || b
            == 45 {
            out.push(b);
        } else if 128 <= b && b < 192 {
        } else {
            out.push(95);
        }
        i += 1;
    }
    proof {
        assert(bytes@.take(bytes@.len() as int) =~= bytes@);
    }
    if out.len() == 0 {
        return "song".to_owned();
    }
    let r = string_from_ascii(out);
    proof {
        crate::text::lemma_ascii_view_bytes(r@, spec_sanitized_cache_name(input.spec_bytes()));
    }
    r
}

/// The title core: `_` and `-` replaced by spaces, everything else kept.
pub open spec fn spec_title_core(s: Seq<u8>) -> Seq<u8> {
    Seq::new(s.len(), |i: int| if s[i] == 95 || s[i] == 45 {
        32u8
    } else {
        s[i]
    })
}

/// What humanizing a title yields: the title core with surrounding ASCII
/// whitespace trimmed, or `Imported MIDI` when nothing visible is left.
pub open spec fn spec_humanized_title(s: Seq<u8>) -> Seq<u8> {
    let t = crate::input::spec_trim(spec_title_core(s));
    if t.len() == 0 {
        "Imported MIDI".spec_bytes()
    } else {
        t
    }
}

/// Humanizes a file stem into a song title: underscores and hyphens become
/// spaces and surrounding whitespace is trimmed; an empty result falls
/// back to `Imported MIDI`. (For any input the result's bytes are the
/// humanized bytes; the stated equality is conditioned on those bytes
/// being valid UTF-8, which holds of every byte sequence taken from a
/// string.)
pub fn humanize_song_title(input: &str) -> (r: String)
    ensures
        vstd::utf8::valid_utf8(spec_humanized_title(input.spec_bytes()))
            ==> vstd::utf8::encode_utf8(r@) == spec_humanized_title(input.spec_bytes()),
{
    let bytes = input.as_bytes();
    let mut out: Vec<u8> = Vec::new();
    let mut i: usize = 0;
    while i < bytes.len()
        invariant
            0 <= i <= bytes@.len(),
            bytes@ == input.spec_bytes(),
            out@ == spec_title_core(bytes@).take(i as int),
        decreases bytes@.len() - i,
    {
        let b = bytes[i];
        let nb: u8 = if b == 95 || b == 45 {
            32
        } else {
            b
        };
        proof {
            assert(spec_title_core(bytes@).take(i + 1) =~= spec_title_core(bytes@).take(
                i as int,
            ).push(nb));
        }
        out.push(nb);
        i += 1;
    }
    proof {
        assert(spec_title_core(bytes@).take(bytes@.len() as int) =~= spec_title_core(bytes@));
    }
    while out.len() > 0 && is_space_byte_here(out[0])
        invariant
            crate::input::spec_trim(out@) == crate::input::spec_trim(spec_title_core(bytes@)),
        decreases out@.len(),
    {
        proof {
            assert(out@.remove(0) =~= out@.drop_first());
        }
        out.remove(0);
    }
    while out.len() > 0 && is_space_byte_here(out[out.len() - 1])
        invariant
            crate::input::spec_trim(out@) == crate::input::spec_trim(spec_title_core(bytes@)),
            out@.len() > 0 ==> !crate::text::is_ascii_space(out@.first()),
        decreases out@.len(),
    {
        out.pop();
    }
    proof {
        assert(crate::input::spec_trim(out@) == out@);
    }
    if out.len() == 0 {
        return "Imported MIDI".to_owned();
    }
    string_from_utf8_lossy(out)
}

fn is_space_byte_here(b: u8) -> (r: bool)
    ensures
        r == crate::text::is_ascii_space(b),
{
    b == 32 || b == 9 || b == 10 || b == 11 || b == 12 || b == 13
}

/// Removes and returns the first key of a pool, oldest preference first.
pub fn take_first_available(pool: &mut Vec<String>) -> (r: Option<String>)
    ensures
        old(pool)@.len() == 0 ==> r is None && final(pool)@ == old(pool)@,
        old(pool)@.len() > 0 ==> (r matches Some(k) && k == old(pool)@.first() && final(pool)@
            == old(pool)@.drop_first()),
{
    if pool.len() == 0 {
        None
    } else {
        let k = pool.remove(0);
        proof {
            assert(final(pool)@ =~= old(pool)@.drop_first());
        }
        Some(k)
    }
}

/// A note sounding over a tick range of an imported performance.
#[derive(Clone, Copy, PartialEq, Eq, Structural, Debug)]
pub struct MidiNoteRange {
    pub start_tick: u64,
    pub end_tick: u64,
    pub note: u8,
    pub velocity: u8,
}

/// The first entry with the given key, or the length when none has it.
pub open spec fn spec_find_entry(
    m: Seq<((u8, u8), Vec<(u64, u8)>)>,
    key: (u8, u8),
    i: int,
) -> int
    decreases m.len() - i,
{
    if i < 0 || i >= m.len() {
        m.len() as int
    } else if m[i].0 == key {
        i
    } else {
        spec_find_entry(m, key, i + 1)
    }
}

/// One tick past a start, saturating at the largest tick.
pub open spec fn spec_tick_after(s: u64) -> u64 {
    if s == u64::MAX {
        u64::MAX
    } else {
        (s + 1) as u64
    }
}

/// Closes the most recent open start of `(channel, note)`, if any: the
/// start is popped and a range is recorded that ends at the given tick,
/// but never before one tick past its start.
pub fn finish_active_note(
    channel: u8,
    note: u8,
    absolute_tick: u64,
    active_notes: &mut Vec<((u8, u8), Vec<(u64, u8)>)>,
    note_ranges: &mut Vec<MidiNoteRange>,
)
    ensures
        ({
            let k = spec_find_entry(old(active_notes)@, (channel, note), 0);
            if k == old(active_notes)@.len() {
                final(active_notes)@ == old(active_notes)@ && final(note_ranges)@ == old(
                    note_ranges,
                )@
            } else {
                &&& final(active_notes)@.len() == old(active_notes)@.len()
                &&& final(active_notes)@[k].0 == old(active_notes)@[k].0
                &&& forall|i: int|
                    0 <= i < old(active_notes)@.len() && i != k
                        ==> #[trigger] final(active_notes)@[i] == old(active_notes)@[i]
                &&& if old(active_notes)@[k].1@.len() == 0 {
                    final(active_notes)@[k].1@ == old(active_notes)@[k].1@ && final(note_ranges)@
                        == old(note_ranges)@
                } else {
                    let start = old(active_notes)@[k].1@.last().0;
                    let velocity = old(active_notes)@[k].1@.last().1;
                    let bump = spec_tick_after(start);
                    final(active_notes)@[k].1@ == old(active_notes)@[k].1@.drop_last()
                        && final(note_ranges)@ == old(note_ranges)@.push(
                        MidiNoteRange {
                            start_tick: start,
                            end_tick: if absolute_tick > bump {
                                absolute_tick
                            } else {
                                bump
                            },
                            note,
                            velocity,
                        },
                    )
                }
            }
        }),
{
    let ghost m0 = active_notes@;
    let mut k: usize = 0;
    while k < active_notes.len() && !(active_notes[k].0.0 == channel && active_notes[k].0.1
        == note)
        invariant
            0 <= k <= active_notes@.len(),
            active_notes@ == m0,
            note_ranges@ == old(note_ranges)@,
            spec_find_entry(m0, (channel, note), 0) == spec_find_entry(m0, (channel, note), k as int),
        decreases active_notes@.len() - k,
    {
        k += 1;
    }
    if k == active_notes.len() {
        return ;
    }
    proof {
        assert(spec_find_entry(m0, (channel, note), 0) == k);
    }
    let (key, mut starts) = active_notes.remove(k);
    let ghost starts0 = starts@;
    proof {
        assert(starts0 == m0[k as int].1@);
    }
    match starts.pop() {
        Some(pair) => {
            let (start, velocity) = pair;
            let bump: u64 = if start == u64::MAX {
                u64::MAX
            } else {
                start + 1
            };
            let end_tick: u64 = if absolute_tick > bump {
                absolute_tick
            } else {
                bump
            };
            note_ranges.push(MidiNoteRange { start_tick: start, end_tick, note, velocity });
        },
        None => {},
    }
    active_notes.insert(k, (key, starts));
    proof {
        let ki = k as int;
        assert(active_notes@ == m0.remove(ki).insert(ki, (key, starts)));
        assert(active_notes@.len() == m0.len());
        assert forall|i: int| 0 <= i < m0.len() && i != ki implies #[trigger] active_notes@[i]
            == m0[i] by {
            if i < ki {
                assert(m0.remove(ki)[i] == m0[i]);
                assert(m0.remove(ki).insert(ki, (key, starts))[i] == m0.remove(ki)[i]);
            } else {
                assert(m0.remove(ki)[i - 1] == m0[i]);
                assert(m0.remove(ki).insert(ki, (key, starts))[i] == m0.remove(ki)[i - 1]);
            }
        }
        if starts0.len() == 0 {
            assert(starts@ == starts0);
            assert(active_notes@[ki] == (key, starts));
        } else {
            assert(starts@ == starts0.subrange(0, starts0.len() - 1));
            assert(starts@ =~= starts0.drop_last());
            assert(active_notes@[ki] == (key, starts));
        }
    }
}

/// The fallback length, in ticks, of a note that never ended: half a beat,
/// at least one tick.
pub open spec fn spec_close_fallback(ticks_per_beat: u32) -> u64 {
    let d = (if ticks_per_beat < 1 {
        1u32
    } else {
        ticks_per_beat
    }) / 2;
    if d < 1 {
        1
    } else {
        d as u64
    }
}

/// A tick plus a duration, saturating at the largest tick.
pub open spec fn spec_tick_add(s: u64, d: u64) -> u64 {
    if s + d > u64::MAX {
        u64::MAX
    } else {
        (s + d) as u64
    }
}

/// The ranges closing every open start of one entry, in start order.
pub open spec fn spec_entry_close_ranges(e: ((u8, u8), Vec<(u64, u8)>), fallback: u64) -> Seq<
    MidiNoteRange,
> {
    Seq::new(
        e.1@.len(),
        |j: int|
            MidiNoteRange {
                start_tick: e.1@[j].0,
                end_tick: spec_tick_add(e.1@[j].0, fallback),
                note: e.0.1,
                velocity: e.1@[j].1,
            },
    )
}

/// The ranges closing every open start of every entry, in entry order.
pub open spec fn spec_close_ranges(m: Seq<((u8, u8), Vec<(u64, u8)>)>, fallback: u64) -> Seq<
    MidiNoteRange,
>
    decreases m.len(),
{
    if m.len() == 0 {
        Seq::empty()
    } else {
        spec_close_ranges(m.drop_last(), fallback) + spec_entry_close_ranges(m.last(), fallback)
    }
}

/// Closes every note still sounding at the end of an import: each open
/// start becomes a range of half a beat (at least one tick), appended in
/// entry order.
pub fn close_unended_notes(
    active_notes: &Vec<((u8, u8), Vec<(u64, u8)>)>,
    ticks_per_beat: u32,
    note_ranges: &mut Vec<MidiNoteRange>,
)
    ensures
        final(note_ranges)@ == old(note_ranges)@ + spec_close_ranges(
            active_notes@,
            spec_close_fallback(ticks_per_beat),
        ),
{
    let tpb: u32 = if ticks_per_beat < 1 {
        1
    } else {
        ticks_per_beat
    };
    let half: u32 = tpb / 2;
    let fallback: u64 = if half < 1 {
        1
    } else {
        half as u64
    };
    let mut i: usize = 0;
    while i < active_notes.len()
        invariant
            0 <= i <= active_notes@.len(),
            fallback == spec_close_fallback(ticks_per_beat),
            note_ranges@ == old(note_ranges)@ + spec_close_ranges(
                active_notes@.take(i as int),
                fallback,
            ),
        decreases active_notes@.len() - i,
    {
        let entry = &active_notes[i];
        let ghost er = spec_entry_close_ranges(active_notes@[i as int], fallback);
        let mut j: usize = 0;
        while j < entry.1.len()
            invariant
                0 <= j <= entry.1@.len(),
                entry == &active_notes@[i as int],
                fallback == spec_close_fallback(ticks_per_beat),
                er == spec_entry_close_ranges(active_notes@[i as int], fallback),
                note_ranges@ == old(note_ranges)@ + spec_close_ranges(
                    active_notes@.take(i as int),
                    fallback,
                ) + er.take(j as int),
            decreases entry.1@.len() - j,
        {
            let (start, velocity) = entry.1[j];
            let end_tick: u64 = if start > u64::MAX - fallback {
                u64::MAX
            } else {
                start + fallback
            };
            let range = MidiNoteRange { start_tick: start, end_tick, note: entry.0.1, velocity };
            proof {
                assert(er[j as int] == range);
                assert(er.take(j + 1) =~= er.take(j as int).push(er[j as int]));
            }
            note_ranges.push(range);
            j += 1;
        }
        proof {
            assert(er.take(entry.1@.len() as int) =~= er);
            assert(active_notes@.take(i + 1).drop_last() =~= active_notes@.take(i as int));
            assert(active_notes@.take(i + 1).last() == active_notes@[i as int]);
        }
        i += 1;
    }
    proof {
        assert(active_notes@.take(active_notes@.len() as int) =~= active_notes@);
    }
}

/// Ticks of an imported performance converted to milli-beats:
/// `round(ticks * 1000 / ticks_per_beat)`, saturating at the largest
/// offset; a zero ticks-per-beat counts as one.
pub open spec fn spec_ticks_to_mbeats(ticks: u64, ticks_per_beat: u32) -> u64 {
    let tpb = if ticks_per_beat < 1 {
        1nat
    } else {
        ticks_per_beat as nat
    };
    let v = ((ticks * 1000 + tpb / 2) / tpb as int) as nat;
    if v > u64::MAX {
        u64::MAX
    } else {
        v as u64
    }
}

/// Converts a tick offset of an imported performance to milli-beats.
pub fn ticks_to_mbeats(ticks: u64, ticks_per_beat: u32) -> (r: u64)
    ensures
        r == spec_ticks_to_mbeats(ticks, ticks_per_beat),
{
    let tpb: u128 = if ticks_per_beat < 1 {
        1
    } else {
        ticks_per_beat as u128
    };
    let v: u128 = ((ticks as u128) * 1000 + tpb / 2) / tpb;
    if v > u64::MAX as u128 {
        u64::MAX
    } else {
        v as u64
    }
}

/// The running score of a timed play-through.
#[derive(Clone, Copy, PartialEq, Eq, Structural, Debug)]
pub struct TimerScore {
    pub expected_notes: usize,
    pub hit_notes: usize,
    pub perfect_hits: usize,
    pub good_hits: usize,
    pub wrong_notes: usize,
    pub missed_notes: usize,
}

impl TimerScore {
    /// A fresh score over the expected note count, with nothing hit yet.
    pub fn new(expected_notes: usize) -> (r: TimerScore)
        ensures
            r.expected_notes == expected_notes,
            r.hit_notes == 0,
            r.perfect_hits == 0,
            r.good_hits == 0,
            r.wrong_notes == 0,
            r.missed_notes == 0,
    {
        TimerScore {
            expected_notes,
            hit_notes: 0,
            perfect_hits: 0,
            good_hits: 0,
            wrong_notes: 0,
            missed_notes: 0,
        }
    }
}

/// Where a song was loaded from: a song file or a MIDI import.
#[derive(Clone, Copy, PartialEq, Eq, Structural, Debug)]
pub enum SourceKind {
    Toml,
    Midi,
}

impl SourceKind {
    /// The cache subdirectory of sources of this kind.
    pub fn cache_subdir(self) -> (r: &'static str)
        ensures
            self is Toml ==> r@ == "toml"@,
            self is Midi ==> r@ == "midi"@,
    {
        match self {
            SourceKind::Toml => "toml",
            SourceKind::Midi => "midi",
        }
    }
}

} // verus!
