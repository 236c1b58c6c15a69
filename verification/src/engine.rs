//! The engine facade: owns the loaded profile set, the active profile name
//! and the master volume, and turns note and song requests into fully
//! prepared render calls for the audio front end.

use vstd::prelude::*;

use crate::config::{
    find_profile, spec_has_profile, spec_profile_names_unique, AudioConfig, InstrumentProfile,
    SoundFontProfile,
};
use crate::error::EngineError;
use crate::render::{plan_render, spec_gain_milli, RenderPlan};
use crate::actions::{MidiAction, ScheduledAction};
use crate::schedule::{
    clamped_velocity, note_schedule_fits, schedule_note, schedule_song, song_schedule_fits,
    song_schedule_fits_exec, spec_note_off_frame, spec_note_total_frames,
    spec_song_sched_actions, spec_song_total_frames,
};
use crate::songs::SongFile;
use crate::text::{
    decimal_u8, lemma_lex_total, lemma_lex_transitive, spec_decimal_chars, str_le, str_lex_le,
    string_from_ascii,
};
use vstd::string::StringExecFns;

verus! {

broadcast use vstd::seq_lib::group_to_multiset_ensures;

impl SoundFontProfile {
    /// A field-by-field copy of the profile.
    pub fn duplicate(&self) -> (r: SoundFontProfile)
        ensures
            r == *self,
    {
        SoundFontProfile {
            soundfont_path: self.soundfont_path.clone(),
            bank: self.bank,
            preset: self.preset,
            channel: self.channel,
            maximum_polyphony: self.maximum_polyphony,
            enable_reverb_and_chorus: self.enable_reverb_and_chorus,
            instrument_gain_milli: self.instrument_gain_milli,
        }
    }
}

impl InstrumentProfile {
    /// A field-by-field copy of the instrument.
    pub fn duplicate(&self) -> (r: InstrumentProfile)
        ensures
            r == *self,
    {
        match self {
            InstrumentProfile::Soundfont(p) => InstrumentProfile::Soundfont(p.duplicate()),
        }
    }
}

/// A sequence of names in ascending lexicographic byte order.
pub open spec fn names_sorted(s: Seq<String>) -> bool {
    forall|i: int, j: int| 0 <= i < j < s.len() ==> str_le((#[trigger] s[i])@, (#[trigger] s[j])@)
}

proof fn lemma_sorted_insert_name(s: Seq<String>, k: int, x: String)
    requires
        names_sorted(s),
        0 <= k <= s.len(),
        forall|p: int| 0 <= p < k ==> str_le((#[trigger] s[p])@, x@),
        forall|q: int| k <= q < s.len() ==> str_le(x@, (#[trigger] s[q])@),
    ensures
        names_sorted(s.insert(k, x)),
{
    let t = s.insert(k, x);
    assert forall|i: int, j: int| 0 <= i < j < t.len() implies str_le(t[i]@, t[j]@) by {
        if i < k {
            assert(t[i] == s[i]);
        } else if i == k {
            assert(t[i] == x);
        } else {
            assert(t[i] == s[i - 1]);
        }
        if j < k {
            assert(t[j] == s[j]);
        } else if j == k {
            assert(t[j] == x);
        } else {
            assert(t[j] == s[j - 1]);
        }
    }
}

/// Inserts a name into a list that is already sorted, keeping it sorted.
fn insert_sorted_name(out: &mut Vec<String>, x: String)
    requires
        names_sorted(old(out)@),
        old(out)@.len() < usize::MAX,
    ensures
        names_sorted(final(out)@),
        final(out)@.to_multiset() == old(out)@.to_multiset().insert(x),
        final(out)@.len() == old(out)@.len() + 1,
{
    let mut k: usize = 0;
    while k < out.len() && str_lex_le(&out[k], &x)
        invariant
            0 <= k <= out@.len(),
            out@ == old(out)@,
            forall|p: int| 0 <= p < k ==> str_le((#[trigger] out@[p])@, x@),
        decreases out@.len() - k,
    {
        k += 1;
    }
    proof {
        assert forall|q: int| k <= q < out@.len() implies str_le(x@, (#[trigger] out@[q])@) by {
            lemma_lex_total(
                vstd::utf8::encode_utf8(x@),
                vstd::utf8::encode_utf8(out@[k as int]@),
            );
            assert(str_le(x@, out@[k as int]@));
            if q > k {
                assert(str_le(out@[k as int]@, out@[q]@));
                lemma_lex_transitive(
                    vstd::utf8::encode_utf8(x@),
                    vstd::utf8::encode_utf8(out@[k as int]@),
                    vstd::utf8::encode_utf8(out@[q]@),
                );
            }
        }
        lemma_sorted_insert_name(out@, k as int, x);
    }
    out.insert(k, x);
}

/// One render, fully prepared: which profile plays it, at which sample
/// rate, and the plan the front end executes against a fresh synthesizer.
#[derive(Debug)]
pub struct RenderRequest {
    /// The name of the profile that renders the request.
    pub profile_name: String,
    /// The profile configuration, for building the synthesizer.
    pub profile: SoundFontProfile,
    /// The sample rate of the render.
    pub sample_rate_hz: u32,
    /// The buffer size, schedule, steps and gain of the render.
    pub plan: RenderPlan,
}

/// The engine facade. State is only ever changed by the setter operations;
/// rendering reads it without touching it.
#[derive(Debug)]
pub struct AudioEngine {
    profiles: Vec<(String, InstrumentProfile)>,
    active_profile_name: String,
    master_volume_milli: u32,
    default_duration_ms: u64,
    release_duration_ms: u64,
    sample_rate_hz: u32,
}

impl AudioEngine {
    /// The loaded profile entries, by name.
    pub closed spec fn spec_profiles(self) -> Seq<(String, InstrumentProfile)> {
        self.profiles@
    }

    /// The name of the active profile.
    pub closed spec fn spec_active(self) -> Seq<char> {
        self.active_profile_name@
    }

    /// The master volume in thousandths.
    pub closed spec fn spec_master_volume(self) -> nat {
        self.master_volume_milli as nat
    }

    /// The default note hold duration in milliseconds.
    pub closed spec fn spec_note_duration_ms(self) -> nat {
        self.default_duration_ms as nat
    }

    /// The release tail duration in milliseconds.
    pub closed spec fn spec_release_ms(self) -> nat {
        self.release_duration_ms as nat
    }

    /// The sample rate renders run at.
    pub closed spec fn spec_sample_rate(self) -> nat {
        self.sample_rate_hz as nat
    }

    /// The engine invariant: the active name always resolves to a loaded
    /// profile, profile names are distinct, every profile is valid, and
    /// the master volume is at most 2.5. Established at construction,
    /// preserved by every operation.
    pub open spec fn wf(self) -> bool {
        &&& spec_has_profile(self.spec_profiles(), self.spec_active())
        &&& spec_profile_names_unique(self.spec_profiles())
        &&& forall|i: int| 0 <= i < self.spec_profiles().len() ==> (
        #[trigger] self.spec_profiles()[i]).1.wf()
        &&& self.spec_master_volume() <= 2500
    }

    /// The sample-bank profile of the entry at a given position.
    pub open spec fn spec_profile_at(self, i: int) -> SoundFontProfile {
        self.spec_profiles()[i].1.spec_soundfont()
    }

    /// The sample-bank profile the active name resolves to (the first
    /// entry with that name).
    pub open spec fn spec_active_profile(self) -> SoundFontProfile {
        let i = choose|i: int|
            0 <= i < self.spec_profiles().len() && (#[trigger] self.spec_profiles()[i]).0@
                == self.spec_active();
        self.spec_profile_at(i)
    }

    /// Builds the engine from a validated configuration and the sample
    /// rate the output stream actually runs at. Fails with
    /// `UnknownProfile` when the configured active instrument names no
    /// profile; the configuration's validator guarantees the numeric
    /// ranges this constructor trusts.
    pub fn new(config: &AudioConfig, actual_sample_rate_hz: u32) -> (r: Result<
        AudioEngine,
        EngineError,
    >)
        requires
            forall|i: int| 0 <= i < config.instrument_profiles@.len() ==> (
            #[trigger] config.instrument_profiles@[i]).1.wf(),
            spec_profile_names_unique(config.instrument_profiles@),
            config.master_volume_milli <= 2500,
        ensures
            (r is Ok) <==> spec_has_profile(config.instrument_profiles@, config.instrument@),
            r matches Err(e) ==> e == EngineError::UnknownProfile,
            r matches Ok(engine) ==> {
                &&& engine.wf()
                &&& engine.spec_profiles() == config.instrument_profiles@
                &&& engine.spec_active() == config.instrument@
                &&& engine.spec_master_volume() == config.master_volume_milli
                &&& engine.spec_note_duration_ms() == config.note_duration_ms
                &&& engine.spec_release_ms() == config.release_duration_ms
                &&& engine.spec_sample_rate() == actual_sample_rate_hz
            },
    {
        if find_profile(&config.instrument_profiles, &config.instrument).is_none() {
            return Err(EngineError::UnknownProfile);
        }
        let mut profiles: Vec<(String, InstrumentProfile)> = Vec::new();
        let mut i: usize = 0;
        while i < config.instrument_profiles.len()
            invariant
                0 <= i <= config.instrument_profiles@.len(),
                profiles@.len() == i,
                forall|j: int| 0 <= j < i ==> #[trigger] profiles@[j]
                    == config.instrument_profiles@[j],
            decreases config.instrument_profiles@.len() - i,
        {
            let entry = &config.instrument_profiles[i];
            profiles.push((entry.0.clone(), entry.1.duplicate()));
            i += 1;
        }
        proof {
            assert(profiles@ =~= config.instrument_profiles@);
        }
        Ok(
            AudioEngine {
                profiles,
                active_profile_name: config.instrument.clone(),
                master_volume_milli: config.master_volume_milli,
                default_duration_ms: config.note_duration_ms,
                release_duration_ms: config.release_duration_ms,
                sample_rate_hz: actual_sample_rate_hz,
            },
        )
    }

    /// The master volume in thousandths.
    pub fn master_volume(&self) -> (r: u32)
        ensures
            r == self.spec_master_volume(),
    {
        self.master_volume_milli
    }

    /// The name of the active profile.
    pub fn active_profile_name(&self) -> (r: &str)
        ensures
            r@ == self.spec_active(),
    {
        self.active_profile_name.as_str()
    }

    /// The names of every loaded profile, each once, sorted ascending in
    /// lexicographic byte order (the order an ordered map keyed by the
    /// names would list them); under the engine invariant the active name
    /// is always among them.
    pub fn available_profiles(&self) -> (r: Vec<String>)
        ensures
            r@.len() == self.spec_profiles().len(),
            names_sorted(r@),
            r@.to_multiset() == Seq::new(
                self.spec_profiles().len(),
                |k: int| self.spec_profiles()[k].0,
            ).to_multiset(),
            self.wf() ==> exists|i: int|
                0 <= i < r@.len() && (#[trigger] r@[i])@ == self.spec_active(),
    {
        let ghost all = Seq::new(self.spec_profiles().len(), |k: int| self.spec_profiles()[k].0);
        let mut r: Vec<String> = Vec::new();
        let mut i: usize = 0;
        while i < self.profiles.len()
            invariant
                0 <= i <= self.profiles@.len(),
                all == Seq::new(
                    self.spec_profiles().len(),
                    |k: int| self.spec_profiles()[k].0,
                ),
                r@.len() == i,
                names_sorted(r@),
                r@.to_multiset() == all.take(i as int).to_multiset(),
            decreases self.profiles@.len() - i,
        {
            proof {
                assert(all.take(i + 1) =~= all.take(i as int).push(all[i as int]));
                assert(all[i as int] == self.profiles@[i as int].0);
            }
            insert_sorted_name(&mut r, self.profiles[i].0.clone());
            i += 1;
        }
        proof {
            assert(all.take(all.len() as int) =~= all);
            if self.wf() {
                let w = choose|w: int|
                    0 <= w < self.spec_profiles().len() && (#[trigger] self.spec_profiles()[w]).0@
                        == self.spec_active();
                let nm = self.spec_profiles()[w].0;
                assert(all[w] == nm);
                assert(all.contains(nm));
                assert(all.to_multiset().count(nm) > 0);
                assert(r@.to_multiset().count(nm) > 0);
                assert(r@.contains(nm));
                let idx = choose|idx: int| 0 <= idx < r@.len() && r@[idx] == nm;
                assert(r@[idx]@ == self.spec_active());
            }
        }
        r
    }

    /// The active profile entry.
    fn current_profile(&self) -> (r: Option<&(String, InstrumentProfile)>)
        ensures
            r matches Some(entry) ==> exists|i: int|
                0 <= i < self.spec_profiles().len() && #[trigger] self.spec_profiles()[i] == *entry
                    && entry.0@ == self.spec_active(),
            r is None ==> !spec_has_profile(self.spec_profiles(), self.spec_active()),
            self.wf() ==> (r matches Some(entry) && entry.1.spec_soundfont()
                == self.spec_active_profile() && entry.1.spec_soundfont().wf()),
    {
        match find_profile(&self.profiles, &self.active_profile_name) {
            Some(i) => {
                let entry = &self.profiles[i];
                proof {
                    if self.wf() {
                        let w = choose|w: int|
                            0 <= w < self.spec_profiles().len() && (
                            #[trigger] self.spec_profiles()[w]).0@ == self.spec_active();
                        assert(self.spec_profiles()[w].0@ == self.spec_active());
                    }
                }
                Some(entry)
            },
            None => None,
        }
    }

    /// Switches the active profile. Fails with `UnknownProfile` when the
    /// name is not loaded, leaving the engine exactly as it was; on
    /// success only the active name changes.
    pub fn set_active_profile(&mut self, profile_name: &str) -> (r: Result<(), EngineError>)
        requires
            old(self).wf(),
        ensures
            final(self).wf(),
            (r is Ok) <==> spec_has_profile(old(self).spec_profiles(), profile_name@),
            r matches Err(e) ==> e == EngineError::UnknownProfile && *final(self) == *old(self),
            r is Ok ==> final(self).spec_active() == profile_name@,
            final(self).spec_profiles() == old(self).spec_profiles(),
            final(self).spec_master_volume() == old(self).spec_master_volume(),
            final(self).spec_note_duration_ms() == old(self).spec_note_duration_ms(),
            final(self).spec_release_ms() == old(self).spec_release_ms(),
            final(self).spec_sample_rate() == old(self).spec_sample_rate(),
    {
        let name = profile_name.to_owned();
        if find_profile(&self.profiles, &name).is_none() {
            return Err(EngineError::UnknownProfile);
        }
        self.active_profile_name = name;
        Ok(())
    }

    /// Sets the master volume, clamped to at most 2.5 (2500 thousandths).
    pub fn set_master_volume(&mut self, volume_milli: u32)
        requires
            old(self).wf(),
        ensures
            final(self).wf(),
            final(self).spec_master_volume() == if volume_milli > 2500 {
                2500nat
            } else {
                volume_milli as nat
            },
            final(self).spec_profiles() == old(self).spec_profiles(),
            final(self).spec_active() == old(self).spec_active(),
            final(self).spec_note_duration_ms() == old(self).spec_note_duration_ms(),
            final(self).spec_release_ms() == old(self).spec_release_ms(),
            final(self).spec_sample_rate() == old(self).spec_sample_rate(),
    {
        self.master_volume_milli = if volume_milli > 2500 {
            2500
        } else {
            volume_milli
        };
    }

    /// Tells whether a note of this hold duration can be scheduled at the
    /// engine's sample rate and release tail — the bound under which the
    /// play operations may be called.
    pub fn can_play_note(&self, duration_ms: u64) -> (r: bool)
        ensures
            r == (spec_note_total_frames(
                duration_ms as nat,
                self.spec_release_ms(),
                self.spec_sample_rate(),
            ) <= usize::MAX),
    {
        note_schedule_fits(duration_ms, self.release_duration_ms, self.sample_rate_hz)
    }

    /// Tells whether a whole song can be scheduled at the engine's sample
    /// rate, default duration and release tail — the bound under which
    /// song playback may be called.
    pub fn can_play_song(&self, song: &SongFile) -> (r: bool)
        ensures
            r == song_schedule_fits(
                *song,
                self.spec_sample_rate(),
                self.spec_note_duration_ms(),
                self.spec_release_ms(),
            ),
    {
        song_schedule_fits_exec(
            song,
            self.sample_rate_hz,
            self.default_duration_ms,
            self.release_duration_ms,
        )
    }

    /// Prepares the render of a single note with an explicit velocity and
    /// hold duration: two scheduled actions, the buffer length of the hold
    /// plus the release tail, and the clamped gain of the active profile.
    /// Fails exactly when the engine's sample rate is unsupported.
    pub fn play_note_with_velocity_duration(&self, midi_note: u8, velocity: u8, duration_ms: u64)
        -> (r: Result<RenderRequest, EngineError>)
        requires
            self.wf(),
            midi_note <= 127,
            spec_note_total_frames(
                duration_ms as nat,
                self.spec_release_ms(),
                self.spec_sample_rate(),
            ) <= usize::MAX,
        ensures
            (r is Ok) <==> 16000 <= self.spec_sample_rate() <= 192000,
            r matches Err(e) ==> e == EngineError::UnsupportedSampleRate,
            r matches Ok(req) ==> {
                &&& req.plan.wf()
                &&& req.plan.total_frames as nat == spec_note_total_frames(
                    duration_ms as nat,
                    self.spec_release_ms(),
                    self.spec_sample_rate(),
                )
                &&& req.plan.actions@.len() == 2
                &&& req.plan.actions@[0] == (ScheduledAction {
                    frame: 0,
                    action: MidiAction::NoteOn {
                        key: midi_note,
                        velocity: clamped_velocity(velocity),
                    },
                })
                &&& req.plan.actions@[1].frame as nat == spec_note_off_frame(
                    duration_ms as nat,
                    self.spec_sample_rate(),
                )
                &&& req.plan.actions@[1].action == (MidiAction::NoteOff { key: midi_note })
                &&& req.plan.gain_milli as nat == spec_gain_milli(
                    self.spec_master_volume(),
                    self.spec_active_profile().instrument_gain_milli as nat,
                )
                &&& req.profile == self.spec_active_profile()
                &&& req.profile_name@ == self.spec_active()
                &&& req.sample_rate_hz as nat == self.spec_sample_rate()
            },
    {
        let entry = match self.current_profile() {
            Some(entry) => entry,
            None => {
                proof {
                    assert(false);
                }
                return Err(EngineError::UnknownProfile);
            },
        };
        let profile = entry.1.soundfont();
        let (total_frames, actions) = schedule_note(
            midi_note,
            velocity,
            duration_ms,
            self.release_duration_ms,
            self.sample_rate_hz,
        );
        proof {
            assert(total_frames >= 2);
            assert forall|q: int| 0 <= q < actions@.len() implies (#[trigger] actions@[q]).frame
                <= total_frames by {
                assert(q == 0 || q == 1);
            }
            crate::actions::lemma_spec_retain_all(actions@, total_frames as nat);
        }
        let plan = match plan_render(
            total_frames,
            &actions,
            self.sample_rate_hz,
            self.master_volume_milli,
            profile.instrument_gain_milli,
        ) {
            Ok(plan) => plan,
            Err(e) => {
                return Err(e);
            },
        };
        proof {
            assert(plan.actions@.to_multiset().len() == plan.actions@.len());
            assert(actions@.to_multiset().len() == actions@.len());
            let on = actions@[0];
            let off = actions@[1];
            assert(actions@.contains(on) && actions@.contains(off));
            assert(actions@.to_multiset().count(on) > 0 && actions@.to_multiset().count(off) > 0);
            assert(plan.actions@.to_multiset().count(on) > 0 && plan.actions@.to_multiset().count(
                off,
            ) > 0);
            assert(plan.actions@.contains(on) && plan.actions@.contains(off));
            let i = choose|i: int| 0 <= i < 2 && plan.actions@[i] == on;
            let j = choose|j: int| 0 <= j < 2 && plan.actions@[j] == off;
            assert(on != off);
            assert(i != j);
            assert(off.frame >= 1);
            if plan.actions@[0] == off {
                assert(plan.actions@[1] == on);
                assert(crate::actions::action_le(plan.actions@[0], plan.actions@[1]));
                assert(false);
            }
            assert(plan.actions@[0] == on && plan.actions@[1] == off);
        }
        Ok(
            RenderRequest {
                profile_name: entry.0.clone(),
                profile: profile.duplicate(),
                sample_rate_hz: self.sample_rate_hz,
                plan,
            },
        )
    }

    /// Prepares the render of a single note at the default velocity (112)
    /// and the engine's default hold duration.
    pub fn play_note(&self, midi_note: u8) -> (r: Result<RenderRequest, EngineError>)
        requires
            self.wf(),
            midi_note <= 127,
            spec_note_total_frames(
                self.spec_note_duration_ms(),
                self.spec_release_ms(),
                self.spec_sample_rate(),
            ) <= usize::MAX,
        ensures
            (r is Ok) <==> 16000 <= self.spec_sample_rate() <= 192000,
            r matches Err(e) ==> e == EngineError::UnsupportedSampleRate,
            r matches Ok(req) ==> {
                &&& req.plan.wf()
                &&& req.plan.total_frames as nat == spec_note_total_frames(
                    self.spec_note_duration_ms(),
                    self.spec_release_ms(),
                    self.spec_sample_rate(),
                )
                &&& req.plan.actions@.len() == 2
                &&& req.plan.actions@[0] == (ScheduledAction {
                    frame: 0,
                    action: MidiAction::NoteOn { key: midi_note, velocity: 112 },
                })
                &&& req.plan.actions@[1].frame as nat == spec_note_off_frame(
                    self.spec_note_duration_ms(),
                    self.spec_sample_rate(),
                )
                &&& req.plan.actions@[1].action == (MidiAction::NoteOff { key: midi_note })
                &&& req.plan.gain_milli as nat == spec_gain_milli(
                    self.spec_master_volume(),
                    self.spec_active_profile().instrument_gain_milli as nat,
                )
                &&& req.profile == self.spec_active_profile()
                &&& req.profile_name@ == self.spec_active()
                &&& req.sample_rate_hz as nat == self.spec_sample_rate()
            },
    {
        self.play_note_with_velocity_duration(midi_note, 112, self.default_duration_ms)
    }

    /// Prepares the render of a metronome tick: an accented tick is MIDI
    /// note 94 at velocity 124 for 115 ms, a plain one note 86 at velocity
    /// 92 for 90 ms.
    pub fn play_metronome_tick(&self, accent: bool) -> (r: Result<RenderRequest, EngineError>)
        requires
            self.wf(),
            spec_note_total_frames(
                if accent {
                    115nat
                } else {
                    90nat
                },
                self.spec_release_ms(),
                self.spec_sample_rate(),
            ) <= usize::MAX,
        ensures
            (r is Ok) <==> 16000 <= self.spec_sample_rate() <= 192000,
            r matches Err(e) ==> e == EngineError::UnsupportedSampleRate,
            r matches Ok(req) ==> {
                &&& req.plan.wf()
                &&& req.plan.total_frames as nat == spec_note_total_frames(
                    if accent {
                        115nat
                    } else {
                        90nat
                    },
                    self.spec_release_ms(),
                    self.spec_sample_rate(),
                )
                &&& req.plan.actions@.len() == 2
                &&& req.plan.actions@[0] == (ScheduledAction {
                    frame: 0,
                    action: MidiAction::NoteOn {
                        key: if accent {
                            94u8
                        } else {
                            86u8
                        },
                        velocity: if accent {
                            124u8
                        } else {
                            92u8
                        },
                    },
                })
                &&& req.plan.actions@[1].frame as nat == spec_note_off_frame(
                    if accent {
                        115nat
                    } else {
                        90nat
                    },
                    self.spec_sample_rate(),
                )
                &&& req.plan.actions@[1].action == (MidiAction::NoteOff {
                    key: if accent {
                        94u8
                    } else {
                        86u8
                    },
                })
                &&& req.plan.gain_milli as nat == spec_gain_milli(
                    self.spec_master_volume(),
                    self.spec_active_profile().instrument_gain_milli as nat,
                )
                &&& req.profile == self.spec_active_profile()
                &&& req.profile_name@ == self.spec_active()
                &&& req.sample_rate_hz as nat == self.spec_sample_rate()
            },
    {
        if accent {
            self.play_note_with_velocity_duration(94, 124, 115)
        } else {
            self.play_note_with_velocity_duration(86, 92, 90)
        }
    }

    /// Prepares the render of a whole song as one buffer: every event's
    /// notes become note-on/note-off pairs at their beat-exact frames, and
    /// the buffer runs to the last note-off plus the release tail. A song
    /// that schedules nothing yields an empty render without error;
    /// otherwise an unsupported sample rate is rejected.
    pub fn play_song(&self, song: &SongFile) -> (r: Result<RenderRequest, EngineError>)
        requires
            self.wf(),
            song_schedule_fits(
                *song,
                self.spec_sample_rate(),
                self.spec_note_duration_ms(),
                self.spec_release_ms(),
            ),
        ensures
            r matches Err(e) ==> e == EngineError::UnsupportedSampleRate,
            spec_song_total_frames(
                *song,
                self.spec_sample_rate(),
                self.spec_note_duration_ms(),
                self.spec_release_ms(),
            ) == 0 ==> r is Ok,
            spec_song_total_frames(
                *song,
                self.spec_sample_rate(),
                self.spec_note_duration_ms(),
                self.spec_release_ms(),
            ) > 0 ==> ((r is Ok) <==> 16000 <= self.spec_sample_rate() <= 192000),
            r matches Ok(req) ==> {
                &&& req.plan.wf()
                &&& req.plan.total_frames as nat == spec_song_total_frames(
                    *song,
                    self.spec_sample_rate(),
                    self.spec_note_duration_ms(),
                    self.spec_release_ms(),
                )
                &&& req.plan.total_frames > 0 ==> req.plan.actions@.to_multiset()
                    == spec_song_sched_actions(
                    *song,
                    self.spec_sample_rate(),
                    self.spec_note_duration_ms(),
                ).to_multiset()
                &&& req.plan.gain_milli as nat == spec_gain_milli(
                    self.spec_master_volume(),
                    self.spec_active_profile().instrument_gain_milli as nat,
                )
                &&& req.profile == self.spec_active_profile()
                &&& req.sample_rate_hz as nat == self.spec_sample_rate()
            },
    {
        let entry = match self.current_profile() {
            Some(entry) => entry,
            None => {
                proof {
                    assert(false);
                }
                return Err(EngineError::UnknownProfile);
            },
        };
        let profile = entry.1.soundfont();
        let (total_frames, actions) = schedule_song(
            song,
            self.sample_rate_hz,
            self.default_duration_ms,
            self.release_duration_ms,
        );
        proof {
            if total_frames > 0 {
                crate::schedule::lemma_song_actions_in_range(
                    *song,
                    self.spec_sample_rate(),
                    self.spec_note_duration_ms(),
                    self.spec_release_ms(),
                );
                crate::actions::lemma_spec_retain_all(actions@, total_frames as nat);
            }
        }
        let plan = match plan_render(
            total_frames,
            &actions,
            self.sample_rate_hz,
            self.master_volume_milli,
            profile.instrument_gain_milli,
        ) {
            Ok(plan) => plan,
            Err(e) => {
                return Err(e);
            },
        };
        Ok(
            RenderRequest {
                profile_name: entry.0.clone(),
                profile: profile.duplicate(),
                sample_rate_hz: self.sample_rate_hz,
                plan,
            },
        )
    }

    /// A one-line description of the active profile, naming its bank,
    /// preset and channel.
    pub fn active_profile_summary(&self) -> (r: String)
        requires
            self.wf(),
        ensures
            r@ == self.spec_active() + " (soundfont bank="@ + spec_decimal_chars(
                self.spec_active_profile().bank as nat,
            ) + " preset="@ + spec_decimal_chars(self.spec_active_profile().preset as nat)
                + " channel="@ + spec_decimal_chars(self.spec_active_profile().channel as nat)
                + ")"@,
    {
        let entry = match self.current_profile() {
            Some(entry) => entry,
            None => {
                proof {
                    assert(false);
                }
                return String::new();
            },
        };
        let profile = entry.1.soundfont();
        let mut s = self.active_profile_name.clone();
        s.append(" (soundfont bank=");
        let bank = string_from_ascii(decimal_u8(profile.bank));
        proof {
            assert(bank@ =~= spec_decimal_chars(profile.bank as nat));
        }
        s.append(bank.as_str());
        s.append(" preset=");
        let preset = string_from_ascii(decimal_u8(profile.preset));
        proof {
            assert(preset@ =~= spec_decimal_chars(profile.preset as nat));
        }
        s.append(preset.as_str());
        s.append(" channel=");
        let channel = string_from_ascii(decimal_u8(profile.channel));
        proof {
            assert(channel@ =~= spec_decimal_chars(profile.channel as nat));
        }
        s.append(channel.as_str());
        s.append(")");
        s
    }
}

} // verus!
