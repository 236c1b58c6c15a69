//! Note arithmetic: equal-tempered pitch in integer milli-hertz, and note
//! names.
//!
//! The real pitch of MIDI note `n` is `440 * 2^((n-69)/12)` Hz. The library
//! models it in milli-hertz: the lowest octave (notes 0..=11) is a table of
//! the real values rounded to the nearest milli-hertz, and each octave up
//! doubles exactly, as the real formula does. Note 69 is exactly 440000
//! (A4, concert pitch 440 Hz) because A(-1) is exactly 13.75 Hz.

use vstd::prelude::*;

verus! {

/// Two to the power `k`.
pub open spec fn pow2(k: nat) -> nat
    decreases k,
{
    if k == 0 {
        1
    } else {
        2 * pow2((k - 1) as nat)
    }
}

/// The pitch of the lowest octave's pitch class `pc` (MIDI notes 0..=11),
/// in milli-hertz, rounded to the nearest.
pub open spec fn spec_base_millihz(pc: nat) -> nat {
    if pc == 0 {
        8176
    } else if pc == 1 {
        8662
    } else if pc == 2 {
        9177
    } else if pc == 3 {
        9723
    } else if pc == 4 {
        10301
    } else if pc == 5 {
        10913
    } else if pc == 6 {
        11562
    } else if pc == 7 {
        12250
    } else if pc == 8 {
        12978
    } else if pc == 9 {
        13750
    } else if pc == 10 {
        14568
    } else {
        15434
    }
}

/// The modelled pitch of a MIDI note in milli-hertz: the lowest octave's
/// value of its pitch class, doubled once per octave.
pub open spec fn spec_frequency_millihz(n: nat) -> nat {
    spec_base_millihz(n % 12) * pow2(n / 12)
}

/// Computes the pitch of a MIDI note in milli-hertz.
pub fn midi_to_frequency_millihz(midi_note: u8) -> (r: u64)
    requires
        midi_note <= 127,
    ensures
        r as nat == spec_frequency_millihz(midi_note as nat),
{
    let pc = midi_note % 12;
    let base: u64 = if pc == 0 {
        8176
    } else if pc == 1 {
        8662
    } else if pc == 2 {
        9177
    } else if pc == 3 {
        9723
    } else if pc == 4 {
        10301
    } else if pc == 5 {
        10913
    } else if pc == 6 {
        11562
    } else if pc == 7 {
        12250
    } else if pc == 8 {
        12978
    } else if pc == 9 {
        13750
    } else if pc == 10 {
        14568
    } else {
        15434
    };
    let octave = midi_note / 12;
    let mut factor: u64 = 1;
    let mut k: u8 = 0;
    while k < octave
        invariant
            0 <= k <= octave,
            octave <= 10,
            factor as nat == pow2(k as nat),
            factor <= 1024,
        decreases octave - k,
    {
        proof {
            lemma_pow2_monotone(k as nat + 1, 10);
            assert(pow2(10) == 1024) by {
                assert(pow2(0) == 1);
                assert(pow2(1) == 2);
                assert(pow2(2) == 4);
                assert(pow2(3) == 8);
                assert(pow2(4) == 16);
                assert(pow2(5) == 32);
                assert(pow2(6) == 64);
                assert(pow2(7) == 128);
                assert(pow2(8) == 256);
                assert(pow2(9) == 512);
            }
        }
        factor = factor * 2;
        k += 1;
    }
    proof {
        vstd::arithmetic::mul::lemma_mul_upper_bound(base as int, 15434, factor as int, 1024);
    }
    base * factor
}

proof fn lemma_pow2_monotone(a: nat, b: nat)
    requires
        a <= b,
    ensures
        pow2(a) <= pow2(b),
    decreases b,
{
    if a < b {
        lemma_pow2_monotone(a, (b - 1) as nat);
    }
}

/// Concert pitch: the modelled pitch of MIDI note 69 (A4) is exactly
/// 440 Hz, and one octave up (note 81) exactly 880 Hz.
pub proof fn lemma_concert_pitch()
    ensures
        spec_frequency_millihz(69) == 440000,
        spec_frequency_millihz(81) == 880000,
{
    assert(pow2(0) == 1);
    assert(pow2(1) == 2);
    assert(pow2(2) == 4);
    assert(pow2(3) == 8);
    assert(pow2(4) == 16);
    assert(pow2(5) == 32);
    assert(pow2(6) == 64);
    assert(spec_frequency_millihz(69) == 13750 * pow2(5));
    assert(spec_frequency_millihz(81) == 13750 * pow2(6));
}

/// Raising a note by one octave exactly doubles its modelled pitch, as the
/// real formula `440 * 2^((n-69)/12)` does.
pub proof fn lemma_octave_doubles(n: nat)
    requires
        n + 12 <= 127,
    ensures
        spec_frequency_millihz(n + 12) == 2 * spec_frequency_millihz(n),
{
    assert((n + 12) % 12 == n % 12);
    assert((n + 12) / 12 == n / 12 + 1);
    let b = spec_base_millihz(n % 12);
    let p = pow2(n / 12);
    assert(pow2(n / 12 + 1) == 2 * p);
    assert(b * (2 * p) == 2 * (b * p)) by (nonlinear_arith);
}

/// The letter name of a pitch class.
pub open spec fn spec_pitch_class_name(pc: nat) -> Seq<char> {
    if pc == 0 {
        "C"@
    } else if pc == 1 {
        "C#"@
    } else if pc == 2 {
        "D"@
    } else if pc == 3 {
        "D#"@
    } else if pc == 4 {
        "E"@
    } else if pc == 5 {
        "F"@
    } else if pc == 6 {
        "F#"@
    } else if pc == 7 {
        "G"@
    } else if pc == 8 {
        "G#"@
    } else if pc == 9 {
        "A"@
    } else if pc == 10 {
        "A#"@
    } else {
        "B"@
    }
}

/// The octave label of a note: MIDI octaves are numbered from -1 (notes
/// 0..=11) to 9.
pub open spec fn spec_octave_label(octave: nat) -> Seq<char> {
    if octave == 0 {
        "-1"@
    } else if octave == 1 {
        "0"@
    } else if octave == 2 {
        "1"@
    } else if octave == 3 {
        "2"@
    } else if octave == 4 {
        "3"@
    } else if octave == 5 {
        "4"@
    } else if octave == 6 {
        "5"@
    } else if octave == 7 {
        "6"@
    } else if octave == 8 {
        "7"@
    } else if octave == 9 {
        "8"@
    } else {
        "9"@
    }
}

/// The display name of a MIDI note: its pitch-class letter and its octave
/// (note 60 is C4, note 69 is A4).
pub open spec fn spec_midi_note_name(n: nat) -> Seq<char> {
    spec_pitch_class_name(n % 12) + spec_octave_label(n / 12)
}

/// Renders the display name of a MIDI note.
pub fn midi_note_name(midi_note: u8) -> (r: String)
    ensures
        r@ == spec_midi_note_name(midi_note as nat),
{
    let pc = midi_note % 12;
    let name: &'static str = if pc == 0 {
        "C"
    } else if pc == 1 {
        "C#"
    } else if pc == 2 {
        "D"
    } else if pc == 3 {
        "D#"
    } else if pc == 4 {
        "E"
    } else if pc == 5 {
        "F"
    } else if pc == 6 {
        "F#"
    } else if pc == 7 {
        "G"
    } else if pc == 8 {
        "G#"
    } else if pc == 9 {
        "A"
    } else if pc == 10 {
        "A#"
    } else {
        "B"
    };
    let octave = midi_note / 12;
    let label: &'static str = if octave == 0 {
        "-1"
    } else if octave == 1 {
        "0"
    } else if octave == 2 {
        "1"
    } else if octave == 3 {
        "2"
    } else if octave == 4 {
        "3"
    } else if octave == 5 {
        "4"
    } else if octave == 6 {
        "5"
    } else if octave == 7 {
        "6"
    } else if octave == 8 {
        "7"
    } else if octave == 9 {
        "8"
    } else {
        "9"
    };
    let mut out = name.to_owned();
    out.append(label);
    out
}

} // verus!
