//! The action scheduler: pure functions that turn a note request or a song's
//! event list into a schedule of timestamped control actions.

use vstd::prelude::*;

use crate::actions::{MidiAction, ScheduledAction};
use crate::songs::{SongEvent, SongFile};
use crate::timing::{
    frames_of_mbeats, frames_of_ms, mbeats_to_frames, mbeats_to_frames_wide, ms_to_frames,
    ms_to_frames_wide,
};

verus! {

/// A velocity clamped into the valid MIDI range 1..=127.
pub open spec fn clamped_velocity(v: u8) -> u8 {
    if v < 1 {
        1
    } else if v > 127 {
        127
    } else {
        v
    }
}

/// Clamps a velocity into 1..=127.
pub fn clamp_velocity(v: u8) -> (r: u8)
    ensures
        r == clamped_velocity(v),
{
    if v < 1 {
        1
    } else if v > 127 {
        127
    } else {
        v
    }
}

/// The hold duration of a single note, floored to 40 ms so that even a very
/// short request stays audible.
pub open spec fn spec_note_hold_ms(hold_ms: nat) -> nat {
    if hold_ms < 40 {
        40
    } else {
        hold_ms
    }
}

/// The release tail of a single note, floored to 160 ms.
pub open spec fn spec_note_release_ms(release_ms: nat) -> nat {
    if release_ms < 160 {
        160
    } else {
        release_ms
    }
}

/// The frame of the note-off action of a single scheduled note.
pub open spec fn spec_note_off_frame(hold_ms: nat, rate: nat) -> nat {
    frames_of_ms(spec_note_hold_ms(hold_ms), rate)
}

/// The total frame count of a single scheduled note: the hold frames plus
/// the release frames.
pub open spec fn spec_note_total_frames(hold_ms: nat, release_ms: nat, rate: nat) -> nat {
    spec_note_off_frame(hold_ms, rate) + frames_of_ms(spec_note_release_ms(release_ms), rate)
}

/// Schedules a single note: exactly two actions, a note-on at frame 0 and a
/// note-off at `frames(max(hold_ms, 40))`; the total frame count adds the
/// release tail `frames(max(release_ms, 160))`.
pub fn schedule_note(midi_note: u8, velocity: u8, hold_ms: u64, release_ms: u64, sample_rate: u32)
    -> (r: (usize, Vec<ScheduledAction>))
    requires
        midi_note <= 127,
        spec_note_total_frames(hold_ms as nat, release_ms as nat, sample_rate as nat)
            <= usize::MAX,
    ensures
        r.1@.len() == 2,
        r.1@[0] == (ScheduledAction {
            frame: 0,
            action: MidiAction::NoteOn { key: midi_note, velocity: clamped_velocity(velocity) },
        }),
        r.1@[1].frame as nat == spec_note_off_frame(hold_ms as nat, sample_rate as nat),
        r.1@[1].action == (MidiAction::NoteOff { key: midi_note }),
        r.0 as nat == spec_note_total_frames(hold_ms as nat, release_ms as nat, sample_rate as nat),
{
    let hold_eff: u64 = if hold_ms < 40 {
        40
    } else {
        hold_ms
    };
    let release_eff: u64 = if release_ms < 160 {
        160
    } else {
        release_ms
    };
    let hold_frames: usize = ms_to_frames(hold_eff, sample_rate);
    let release_frames: usize = ms_to_frames(release_eff, sample_rate);
    let total_frames: usize = hold_frames + release_frames;
    let mut actions: Vec<ScheduledAction> = Vec::new();
    actions.push(
        ScheduledAction {
            frame: 0,
            action: MidiAction::NoteOn { key: midi_note, velocity: clamp_velocity(velocity) },
        },
    );
    actions.push(
        ScheduledAction { frame: hold_frames, action: MidiAction::NoteOff { key: midi_note } },
    );
    (total_frames, actions)
}

/// The tempo used for scheduling, floored to 1 BPM (1000 milli-BPM) to keep
/// the beat length finite.
pub open spec fn spec_song_tempo(tempo_mbpm: u32) -> nat {
    if tempo_mbpm < 1000 {
        1000
    } else {
        tempo_mbpm as nat
    }
}

/// The fallback duration, in frames, of an event that declares none: the
/// default note duration floored to 40 ms.
pub open spec fn spec_fallback_frames(default_hold_ms: nat, rate: nat) -> nat {
    frames_of_ms(
        if default_hold_ms < 40 {
            40
        } else {
            default_hold_ms
        },
        rate,
    )
}

/// The velocity of an event: its own, or the song default, clamped.
pub open spec fn spec_event_velocity(e: SongEvent, default_velocity: u8) -> u8 {
    clamped_velocity(
        match e.velocity {
            Some(v) => v,
            None => default_velocity,
        },
    )
}

/// The start frame of an event.
pub open spec fn spec_event_start(e: SongEvent, tempo: nat, rate: nat) -> nat {
    frames_of_mbeats(e.at_mbeats as nat, tempo, rate)
}

/// The duration of an event in frames: its declared duration floored to
/// 0.04 s, or the fallback when it declares none. `1500 * mbeats >= tempo`
/// is exactly `mbeats * 60 / tempo >= 0.04` in integers.
pub open spec fn spec_event_duration(e: SongEvent, tempo: nat, rate: nat, fallback: nat) -> nat {
    if e.duration_mbeats > 0 {
        if 1500 * e.duration_mbeats >= tempo {
            frames_of_mbeats(e.duration_mbeats as nat, tempo, rate)
        } else {
            (2 * rate + 25) / 50
        }
    } else {
        fallback
    }
}

/// The actions of one event: a note-on at its start frame and a note-off at
/// its end frame for every note, in note order. An event without notes
/// contributes nothing.
pub open spec fn spec_event_actions(
    e: SongEvent,
    tempo: nat,
    rate: nat,
    fallback: nat,
    default_velocity: u8,
) -> Seq<ScheduledAction> {
    if e.notes@.len() == 0 {
        Seq::empty()
    } else {
        let start = spec_event_start(e, tempo, rate);
        let off = start + spec_event_duration(e, tempo, rate, fallback);
        let v = spec_event_velocity(e, default_velocity);
        Seq::new(
            2 * e.notes@.len(),
            |k: int|
                if k % 2 == 0 {
                    ScheduledAction {
                        frame: start as usize,
                        action: MidiAction::NoteOn { key: e.notes@[k / 2], velocity: v },
                    }
                } else {
                    ScheduledAction {
                        frame: off as usize,
                        action: MidiAction::NoteOff { key: e.notes@[k / 2] },
                    }
                },
        )
    }
}

/// The concatenated actions of all events, in event order.
pub open spec fn spec_song_actions(
    events: Seq<SongEvent>,
    tempo: nat,
    rate: nat,
    fallback: nat,
    default_velocity: u8,
) -> Seq<ScheduledAction>
    decreases events.len(),
{
    if events.len() == 0 {
        Seq::empty()
    } else {
        spec_song_actions(events.drop_last(), tempo, rate, fallback, default_velocity)
            + spec_event_actions(events.last(), tempo, rate, fallback, default_velocity)
    }
}

/// The largest note-off frame over all events that carry notes, or 0.
pub open spec fn spec_song_max_off(events: Seq<SongEvent>, tempo: nat, rate: nat, fallback: nat)
    -> nat
    decreases events.len(),
{
    if events.len() == 0 {
        0
    } else {
        let rest = spec_song_max_off(events.drop_last(), tempo, rate, fallback);
        let e = events.last();
        if e.notes@.len() == 0 {
            rest
        } else {
            let off = spec_event_start(e, tempo, rate) + spec_event_duration(
                e,
                tempo,
                rate,
                fallback,
            );
            if off > rest {
                off
            } else {
                rest
            }
        }
    }
}

/// The release tail of a song render, in frames.
pub open spec fn spec_song_release_frames(release_ms: nat, rate: nat) -> nat {
    frames_of_ms(release_ms, rate)
}

/// The actions a song schedules, with every per-song parameter spelled out.
pub open spec fn spec_song_sched_actions(song: SongFile, rate: nat, default_hold_ms: nat) -> Seq<
    ScheduledAction,
> {
    spec_song_actions(
        song.events@,
        spec_song_tempo(song.meta.tempo_mbpm),
        rate,
        spec_fallback_frames(default_hold_ms, rate),
        song.meta.default_velocity,
    )
}

/// The total frame count of a song render: the largest note-off frame plus
/// the release tail, or 0 when the song schedules no actions at all.
pub open spec fn spec_song_total_frames(
    song: SongFile,
    rate: nat,
    default_hold_ms: nat,
    release_ms: nat,
) -> nat {
    if spec_song_sched_actions(song, rate, default_hold_ms).len() == 0 {
        0
    } else {
        spec_song_max_off(
            song.events@,
            spec_song_tempo(song.meta.tempo_mbpm),
            rate,
            spec_fallback_frames(default_hold_ms, rate),
        ) + spec_song_release_frames(release_ms, rate)
    }
}

/// The machine limit under which a song can be scheduled: every frame
/// offset of the schedule fits in `usize`.
pub open spec fn song_schedule_fits(
    song: SongFile,
    rate: nat,
    default_hold_ms: nat,
    release_ms: nat,
) -> bool {
    &&& spec_fallback_frames(default_hold_ms, rate) <= usize::MAX
    &&& spec_song_max_off(
        song.events@,
        spec_song_tempo(song.meta.tempo_mbpm),
        rate,
        spec_fallback_frames(default_hold_ms, rate),
    ) + spec_song_release_frames(release_ms, rate) <= usize::MAX
}

/// Tells whether a single note of this hold and release can be scheduled
/// on this machine: whether its total frame count fits the frame range.
pub fn note_schedule_fits(hold_ms: u64, release_ms: u64, sample_rate: u32) -> (r: bool)
    ensures
        r == (spec_note_total_frames(hold_ms as nat, release_ms as nat, sample_rate as nat)
            <= usize::MAX),
{
    let hold_eff: u64 = if hold_ms < 40 {
        40
    } else {
        hold_ms
    };
    let release_eff: u64 = if release_ms < 160 {
        160
    } else {
        release_ms
    };
    let hold_frames: u128 = ms_to_frames_wide(hold_eff, sample_rate);
    let release_frames: u128 = ms_to_frames_wide(release_eff, sample_rate);
    hold_frames + release_frames <= usize::MAX as u128
}

/// Tells whether a whole song can be scheduled on this machine: whether
/// every frame offset of its schedule fits the frame range.
#[verifier::loop_isolation(false)]
pub fn song_schedule_fits_exec(
    song: &SongFile,
    sample_rate: u32,
    default_hold_ms: u64,
    release_ms: u64,
) -> (r: bool)
    ensures
        r == song_schedule_fits(
            *song,
            sample_rate as nat,
            default_hold_ms as nat,
            release_ms as nat,
        ),
{
    let ghost tempo_spec = spec_song_tempo(song.meta.tempo_mbpm);
    let ghost fallback_spec = spec_fallback_frames(default_hold_ms as nat, sample_rate as nat);
    let tempo: u32 = if song.meta.tempo_mbpm < 1000 {
        1000
    } else {
        song.meta.tempo_mbpm
    };
    let hold_eff: u64 = if default_hold_ms < 40 {
        40
    } else {
        default_hold_ms
    };
    let fallback: u128 = ms_to_frames_wide(hold_eff, sample_rate);
    let release_frames: u128 = ms_to_frames_wide(release_ms, sample_rate);
    let mut max_frame: u128 = 0;
    let mut i: usize = 0;
    while i < song.events.len()
        invariant
            0 <= i <= song.events@.len(),
            max_frame as nat == spec_song_max_off(
                song.events@.take(i as int),
                tempo_spec,
                sample_rate as nat,
                fallback_spec,
            ),
            max_frame <= 20282409603651670423947251286016u128,
        decreases song.events@.len() - i,
    {
        let e = &song.events[i];
        proof {
            assert(song.events@.take(i + 1).drop_last() =~= song.events@.take(i as int));
            assert(song.events@.take(i + 1).last() == song.events@[i as int]);
        }
        if e.notes.len() > 0 {
            let start: u128 = mbeats_to_frames_wide(e.at_mbeats, tempo, sample_rate);
            let dur: u128 = if e.duration_mbeats > 0 {
                if 1500 * (e.duration_mbeats as u128) >= (tempo as u128) {
                    mbeats_to_frames_wide(e.duration_mbeats, tempo, sample_rate)
                } else {
                    (2 * (sample_rate as u128) + 25) / 50
                }
            } else {
                fallback
            };
            let off: u128 = start + dur;
            if off > max_frame {
                max_frame = off;
            }
        }
        i += 1;
    }
    proof {
        assert(song.events@.take(song.events@.len() as int) =~= song.events@);
    }
    fallback <= usize::MAX as u128 && max_frame + release_frames <= usize::MAX as u128
}

proof fn lemma_prefix_max_le(events: Seq<SongEvent>, tempo: nat, rate: nat, fallback: nat, i: int)
    requires
        0 <= i <= events.len(),
    ensures
        spec_song_max_off(events.take(i), tempo, rate, fallback) <= spec_song_max_off(
            events,
            tempo,
            rate,
            fallback,
        ),
    decreases events.len() - i,
{
    if i == events.len() {
        assert(events.take(i) =~= events);
    } else {
        lemma_prefix_max_le(events, tempo, rate, fallback, i + 1);
        assert(events.take(i + 1).drop_last() =~= events.take(i));
        assert(events.take(i + 1).last() == events[i]);
    }
}

proof fn lemma_song_actions_frames_le_max(
    events: Seq<SongEvent>,
    tempo: nat,
    rate: nat,
    fallback: nat,
    dv: u8,
)
    requires
        spec_song_max_off(events, tempo, rate, fallback) <= usize::MAX,
    ensures
        forall|k: int|
            0 <= k < spec_song_actions(events, tempo, rate, fallback, dv).len() ==> (
            #[trigger] spec_song_actions(events, tempo, rate, fallback, dv)[k]).frame as nat
                <= spec_song_max_off(events, tempo, rate, fallback),
    decreases events.len(),
{
    if events.len() > 0 {
        let dl = events.drop_last();
        let e = events.last();
        lemma_song_actions_frames_le_max(dl, tempo, rate, fallback, dv);
        let rec = spec_song_actions(dl, tempo, rate, fallback, dv);
        let ea = spec_event_actions(e, tempo, rate, fallback, dv);
        let full = spec_song_actions(events, tempo, rate, fallback, dv);
        assert forall|k: int|
            0 <= k < full.len() implies (#[trigger] full[k]).frame as nat <= spec_song_max_off(
            events,
            tempo,
            rate,
            fallback,
        ) by {
            if k < rec.len() {
                assert(full[k] == rec[k]);
            } else {
                assert(full[k] == ea[k - rec.len()]);
                assert(e.notes@.len() > 0);
                let off = spec_event_start(e, tempo, rate) + spec_event_duration(
                    e,
                    tempo,
                    rate,
                    fallback,
                );
                assert(off <= spec_song_max_off(events, tempo, rate, fallback));
            }
        }
    }
}

/// Every frame of a song's schedule lies inside the total frame count, so
/// no scheduled action is ever dropped by the render engine.
pub proof fn lemma_song_actions_in_range(song: SongFile, rate: nat, hold: nat, release: nat)
    requires
        song_schedule_fits(song, rate, hold, release),
    ensures
        forall|k: int|
            0 <= k < spec_song_sched_actions(song, rate, hold).len() ==> (
            #[trigger] spec_song_sched_actions(song, rate, hold)[k]).frame as nat
                <= spec_song_total_frames(song, rate, hold, release),
{
    let tempo = spec_song_tempo(song.meta.tempo_mbpm);
    let fallback = spec_fallback_frames(hold, rate);
    lemma_song_actions_frames_le_max(song.events@, tempo, rate, fallback,
        song.meta.default_velocity);
}

/// Schedules a whole song: for every event with at least one note, a
/// note-on/note-off pair per note at the event's start and end frames, in
/// event order; the total frame count is the largest note-off frame plus
/// the release tail. A song that schedules nothing returns zero frames.
#[verifier::loop_isolation(false)]
pub fn schedule_song(song: &SongFile, sample_rate: u32, default_hold_ms: u64, release_ms: u64)
    -> (r: (usize, Vec<ScheduledAction>))
    requires
        song_schedule_fits(
            *song,
            sample_rate as nat,
            default_hold_ms as nat,
            release_ms as nat,
        ),
    ensures
        r.1@ == spec_song_sched_actions(*song, sample_rate as nat, default_hold_ms as nat),
        r.0 as nat == spec_song_total_frames(
            *song,
            sample_rate as nat,
            default_hold_ms as nat,
            release_ms as nat,
        ),
{
    let ghost tempo_spec = spec_song_tempo(song.meta.tempo_mbpm);
    let ghost fallback_spec = spec_fallback_frames(default_hold_ms as nat, sample_rate as nat);
    let tempo: u32 = if song.meta.tempo_mbpm < 1000 {
        1000
    } else {
        song.meta.tempo_mbpm
    };
    let hold_eff: u64 = if default_hold_ms < 40 {
        40
    } else {
        default_hold_ms
    };
    let fallback: usize = ms_to_frames(hold_eff, sample_rate);
    let release_frames: usize = ms_to_frames(release_ms, sample_rate);
    let mut actions: Vec<ScheduledAction> = Vec::new();
    let mut max_frame: usize = 0;
    let mut i: usize = 0;
    while i < song.events.len()
        invariant
            0 <= i <= song.events@.len(),
            actions@ == spec_song_actions(
                song.events@.take(i as int),
                tempo_spec,
                sample_rate as nat,
                fallback_spec,
                song.meta.default_velocity,
            ),
            max_frame as nat == spec_song_max_off(
                song.events@.take(i as int),
                tempo_spec,
                sample_rate as nat,
                fallback_spec,
            ),
        decreases song.events@.len() - i,
    {
        let ghost prefix = song.events@.take(i as int);
        let e = &song.events[i];
        proof {
            assert(song.events@.take(i + 1).drop_last() =~= prefix);
            assert(song.events@.take(i + 1).last() == song.events@[i as int]);
        }
        if e.notes.len() > 0 {
            let ghost e_spec = song.events@[i as int];
            let ghost start_spec = spec_event_start(e_spec, tempo_spec, sample_rate as nat);
            let ghost dur_spec = spec_event_duration(
                e_spec,
                tempo_spec,
                sample_rate as nat,
                fallback_spec,
            );
            proof {
                lemma_prefix_max_le(
                    song.events@,
                    tempo_spec,
                    sample_rate as nat,
                    fallback_spec,
                    i + 1,
                );
                assert(start_spec + dur_spec <= spec_song_max_off(
                    song.events@.take(i + 1),
                    tempo_spec,
                    sample_rate as nat,
                    fallback_spec,
                ));
            }
            let start: usize = mbeats_to_frames(e.at_mbeats, tempo, sample_rate);
            let dur: usize = if e.duration_mbeats > 0 {
                if 1500 * (e.duration_mbeats as u128) >= (tempo as u128) {
                    mbeats_to_frames(e.duration_mbeats, tempo, sample_rate)
                } else {
                    ((2 * (sample_rate as u64) + 25) / 50) as usize
                }
            } else {
                fallback
            };
            let off: usize = start + dur;
            let velocity: u8 = clamp_velocity(
                match e.velocity {
                    Some(v) => v,
                    None => song.meta.default_velocity,
                },
            );
            let ghost ea = spec_event_actions(
                e_spec,
                tempo_spec,
                sample_rate as nat,
                fallback_spec,
                song.meta.default_velocity,
            );
            let mut j: usize = 0;
            while j < e.notes.len()
                invariant
                    0 <= j <= e.notes@.len(),
                    actions@ == spec_song_actions(
                        prefix,
                        tempo_spec,
                        sample_rate as nat,
                        fallback_spec,
                        song.meta.default_velocity,
                    ) + ea.take(2 * j as int),
                decreases e.notes@.len() - j,
            {
                let note = e.notes[j];
                let on_act = ScheduledAction {
                    frame: start,
                    action: MidiAction::NoteOn { key: note, velocity },
                };
                let off_act = ScheduledAction {
                    frame: off,
                    action: MidiAction::NoteOff { key: note },
                };
                proof {
                    assert(ea[2 * j as int] == on_act);
                    assert(ea[2 * j as int + 1] == off_act);
                    assert(ea.take(2 * j as int + 2) =~= ea.take(2 * j as int).push(
                        ea[2 * j as int],
                    ).push(ea[2 * j as int + 1]));
                }
                actions.push(on_act);
                actions.push(off_act);
                j += 1;
            }
            proof {
                assert(ea.take(2 * e.notes@.len() as int) =~= ea);
            }
            if off > max_frame {
                max_frame = off;
            }
        } else {
            proof {
                assert(actions@ =~= spec_song_actions(
                    song.events@.take(i + 1),
                    tempo_spec,
                    sample_rate as nat,
                    fallback_spec,
                    song.meta.default_velocity,
                ));
            }
        }
        i += 1;
    }
    proof {
        assert(song.events@.take(song.events@.len() as int) =~= song.events@);
    }
    let total_frames: usize = if actions.len() == 0 {
        0
    } else {
        max_frame + release_frames
    };
    (total_frames, actions)
}

} // verus!
