//! Conversion of wall-clock durations and musical beats to sample frames.

use vstd::prelude::*;

verus! {

/// Frames of a duration given in milliseconds at a sample rate:
/// `round(ms * rate / 1000)`, floored to a minimum of one frame so that a
/// schedule never contains a zero-length render segment.
pub open spec fn frames_of_ms(ms: nat, rate: nat) -> nat {
    let rounded = (ms * rate + 500) / 1000;
    if rounded < 1 {
        1
    } else {
        rounded
    }
}

/// Frames of a duration given in milli-beats at a tempo in milli-BPM:
/// the duration in seconds is `mbeats * 60 / (1000 * mbpm / 1000)`, that is
/// `mbeats * 60 / mbpm`, and the frame count is that duration times the rate,
/// rounded to the nearest frame (half rounds up). No minimum is applied: a
/// zero offset stays frame zero.
pub open spec fn frames_of_mbeats(mbeats: nat, tempo_mbpm: nat, rate: nat) -> nat
    recommends
        tempo_mbpm > 0,
{
    (120 * mbeats * rate + tempo_mbpm) / (2 * tempo_mbpm)
}

/// Computes `frames_of_ms` in full width, so that a caller can test
/// whether a schedule fits the machine's frame range before building it.
pub fn ms_to_frames_wide(milliseconds: u64, sample_rate: u32) -> (frames: u128)
    ensures
        frames as nat == frames_of_ms(milliseconds as nat, sample_rate as nat),
        frames <= 79228162514264337593543950336u128,
{
    proof {
        vstd::arithmetic::mul::lemma_mul_upper_bound(
            milliseconds as int,
            u64::MAX as int,
            sample_rate as int,
            u32::MAX as int,
        );
    }
    let product: u128 = (milliseconds as u128) * (sample_rate as u128);
    let rounded: u128 = (product + 500) / 1000;
    if rounded < 1 {
        1
    } else {
        rounded
    }
}

/// Converts a duration in milliseconds to sample frames.
pub fn ms_to_frames(milliseconds: u64, sample_rate: u32) -> (frames: usize)
    requires
        frames_of_ms(milliseconds as nat, sample_rate as nat) <= usize::MAX,
    ensures
        frames as nat == frames_of_ms(milliseconds as nat, sample_rate as nat),
        frames >= 1,
{
    ms_to_frames_wide(milliseconds, sample_rate) as usize
}

/// Computes `frames_of_mbeats` in full width, for fit checks.
pub fn mbeats_to_frames_wide(mbeats: u64, tempo_mbpm: u32, sample_rate: u32) -> (frames: u128)
    requires
        tempo_mbpm > 0,
    ensures
        frames as nat == frames_of_mbeats(mbeats as nat, tempo_mbpm as nat, sample_rate as nat),
        frames <= 10141204801825835211973625643008u128,
{
    let scaled: u128 = 120 * (mbeats as u128);
    proof {
        vstd::arithmetic::mul::lemma_mul_upper_bound(
            scaled as int,
            120 * (u64::MAX as int),
            sample_rate as int,
            u32::MAX as int,
        );
    }
    let numerator: u128 = scaled * (sample_rate as u128) + (tempo_mbpm as u128);
    let denominator: u128 = 2 * (tempo_mbpm as u128);
    numerator / denominator
}

/// Converts an offset or duration in milli-beats to sample frames at the
/// given tempo.
pub fn mbeats_to_frames(mbeats: u64, tempo_mbpm: u32, sample_rate: u32) -> (frames: usize)
    requires
        tempo_mbpm > 0,
        frames_of_mbeats(mbeats as nat, tempo_mbpm as nat, sample_rate as nat) <= usize::MAX,
    ensures
        frames as nat == frames_of_mbeats(mbeats as nat, tempo_mbpm as nat, sample_rate as nat),
{
    mbeats_to_frames_wide(mbeats, tempo_mbpm, sample_rate) as usize
}

/// A duration in milliseconds never maps to fewer frames than one, whatever
/// the sample rate, even for a zero-length duration.
pub proof fn lemma_frames_at_least_one(ms: nat, rate: nat)
    ensures
        frames_of_ms(ms, rate) >= 1,
{
}

} // verus!
