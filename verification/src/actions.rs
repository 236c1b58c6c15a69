//! Synthesizer control actions scheduled at sample-frame offsets, and the
//! deterministic order in which they are applied.

use vstd::prelude::*;

verus! {

broadcast use vstd::seq_lib::group_to_multiset_ensures;

/// A control message for the synthesizer: start or stop a note.
#[derive(Clone, Copy, PartialEq, Eq, Structural, Debug)]
pub enum MidiAction {
    NoteOn { key: u8, velocity: u8 },
    NoteOff { key: u8 },
}

impl MidiAction {
    /// Tie-break rank used when two actions fall on the same frame: a
    /// note-off always comes before a note-on, so that a note ending and the
    /// same note restarting on one frame re-strike instead of canceling.
    pub open spec fn spec_sort_order(self) -> u8 {
        match self {
            MidiAction::NoteOff { .. } => 0,
            MidiAction::NoteOn { .. } => 1,
        }
    }

    /// Returns the tie-break rank of this action.
    pub fn sort_order(self) -> (r: u8)
        ensures
            r == self.spec_sort_order(),
    {
        match self {
            MidiAction::NoteOff { .. } => 0,
            MidiAction::NoteOn { .. } => 1,
        }
    }

    /// A well-formed action speaks of a MIDI key in 0..=127 and, for a
    /// note-on, a velocity in 1..=127.
    pub open spec fn wf(self) -> bool {
        match self {
            MidiAction::NoteOn { key, velocity } => key <= 127 && 1 <= velocity <= 127,
            MidiAction::NoteOff { key } => key <= 127,
        }
    }
}

/// A control action bound to an absolute frame offset (frame 0 is the start
/// of the render).
#[derive(Clone, Copy, PartialEq, Eq, Structural, Debug)]
pub struct ScheduledAction {
    pub frame: usize,
    pub action: MidiAction,
}

/// The schedule order: ascending frame, and within one frame every note-off
/// before every note-on.
pub open spec fn action_le(a: ScheduledAction, b: ScheduledAction) -> bool {
    a.frame < b.frame || (a.frame == b.frame && a.action.spec_sort_order()
        <= b.action.spec_sort_order())
}

/// A sequence of actions in schedule order.
pub open spec fn sorted_by_frame(s: Seq<ScheduledAction>) -> bool {
    forall|i: int, j: int| 0 <= i < j < s.len() ==> action_le(s[i], s[j])
}

/// Compares two actions in schedule order.
pub fn action_le_exec(a: &ScheduledAction, b: &ScheduledAction) -> (r: bool)
    ensures
        r == action_le(*a, *b),
{
    a.frame < b.frame || (a.frame == b.frame && a.action.sort_order() <= b.action.sort_order())
}

/// The subsequence of a schedule whose frames lie inside a rendered range of
/// `total` frames, in the original order.
pub open spec fn spec_retain(s: Seq<ScheduledAction>, total: nat) -> Seq<ScheduledAction>
    decreases s.len(),
{
    if s.len() == 0 {
        Seq::empty()
    } else {
        let rest = spec_retain(s.drop_last(), total);
        if s.last().frame <= total {
            rest.push(s.last())
        } else {
            rest
        }
    }
}

/// Every action kept by `spec_retain` lies inside the rendered range.
pub proof fn lemma_spec_retain_in_range(s: Seq<ScheduledAction>, total: nat)
    ensures
        forall|x: ScheduledAction| spec_retain(s, total).contains(x) ==> x.frame <= total,
    decreases s.len(),
{
    if s.len() > 0 {
        lemma_spec_retain_in_range(s.drop_last(), total);
        assert forall|x: ScheduledAction| spec_retain(s, total).contains(x) implies x.frame
            <= total by {
            let r = spec_retain(s, total);
            let rest = spec_retain(s.drop_last(), total);
            let i = choose|i: int| 0 <= i < r.len() && r[i] == x;
            if s.last().frame <= total {
                if i < rest.len() {
                    assert(rest.contains(x));
                }
            } else {
                assert(rest.contains(x));
            }
        }
    }
}

/// A schedule that lies wholly inside the rendered range is kept whole.
pub proof fn lemma_spec_retain_all(s: Seq<ScheduledAction>, total: nat)
    requires
        forall|i: int| 0 <= i < s.len() ==> (#[trigger] s[i]).frame <= total,
    ensures
        spec_retain(s, total) == s,
    decreases s.len(),
{
    if s.len() == 0 {
        assert(spec_retain(s, total) =~= s);
    } else {
        lemma_spec_retain_all(s.drop_last(), total);
        assert(spec_retain(s, total) =~= s);
    }
}

/// Keeps exactly the actions whose frame lies inside the rendered range;
/// actions beyond the end of the buffer are dropped, not clamped.
pub fn retain_in_range(actions: &Vec<ScheduledAction>, total_frames: usize) -> (r: Vec<
    ScheduledAction,
>)
    ensures
        r@ == spec_retain(actions@, total_frames as nat),
{
    let mut r: Vec<ScheduledAction> = Vec::new();
    let mut i: usize = 0;
    while i < actions.len()
        invariant
            0 <= i <= actions@.len(),
            r@ == spec_retain(actions@.take(i as int), total_frames as nat),
        decreases actions@.len() - i,
    {
        let a = actions[i];
        proof {
            let t = actions@.take(i + 1);
            assert(t.drop_last() == actions@.take(i as int));
            assert(t.last() == a);
        }
        if a.frame <= total_frames {
            r.push(a);
        }
        i += 1;
    }
    assert(actions@.take(actions@.len() as int) == actions@);
    r
}

proof fn lemma_sorted_insert(s: Seq<ScheduledAction>, k: int, x: ScheduledAction)
    requires
        sorted_by_frame(s),
        0 <= k <= s.len(),
        forall|p: int| 0 <= p < k ==> action_le(#[trigger] s[p], x),
        forall|q: int| k <= q < s.len() ==> action_le(x, #[trigger] s[q]),
    ensures
        sorted_by_frame(s.insert(k, x)),
{
    let t = s.insert(k, x);
    assert forall|i: int, j: int| 0 <= i < j < t.len() implies action_le(t[i], t[j]) by {
        if i < k {
            assert(t[i] == s[i]);
        } else if i == k {
            assert(t[i] == x);
        } else {
            assert(t[i] == s[i - 1]);
        }
        if j < k {
            assert(t[j] == s[j]);
        } else if j == k {
            assert(t[j] == x);
        } else {
            assert(t[j] == s[j - 1]);
        }
    }
}

/// Inserts an action into a schedule that is already in schedule order,
/// keeping it ordered.
fn insert_sorted(out: &mut Vec<ScheduledAction>, x: ScheduledAction)
    requires
        sorted_by_frame(old(out)@),
        old(out)@.len() < usize::MAX,
    ensures
        sorted_by_frame(final(out)@),
        final(out)@.to_multiset() == old(out)@.to_multiset().insert(x),
        final(out)@.len() == old(out)@.len() + 1,
{
    let mut k: usize = 0;
    while k < out.len() && action_le_exec(&out[k], &x)
        invariant
            0 <= k <= out@.len(),
            out@ == old(out)@,
            forall|p: int| 0 <= p < k ==> action_le(#[trigger] out@[p], x),
        decreases out@.len() - k,
    {
        k += 1;
    }
    proof {
        assert forall|q: int| k <= q < out@.len() implies action_le(x, #[trigger] out@[q]) by {
            if q == k {
                assert(!action_le(out@[q], x));
            } else {
                assert(!action_le(out@[k as int], x));
                assert(action_le(out@[k as int], out@[q]));
            }
        }
        lemma_sorted_insert(out@, k as int, x);
    }
    out.insert(k, x);
}

/// Sorts a schedule by ascending frame, breaking ties by applying every
/// note-off before any note-on of the same frame. The result holds exactly
/// the actions of the input.
pub fn sort_actions(actions: &Vec<ScheduledAction>) -> (r: Vec<ScheduledAction>)
    ensures
        sorted_by_frame(r@),
        r@.to_multiset() == actions@.to_multiset(),
        r@.len() == actions@.len(),
{
    let mut r: Vec<ScheduledAction> = Vec::new();
    let mut i: usize = 0;
    while i < actions.len()
        invariant
            0 <= i <= actions@.len(),
            sorted_by_frame(r@),
            r@.to_multiset() == actions@.take(i as int).to_multiset(),
            r@.len() == i,
        decreases actions@.len() - i,
    {
        let a = actions[i];
        assert(actions@.take(i + 1) == actions@.take(i as int).push(a));
        insert_sorted(&mut r, a);
        i += 1;
    }
    assert(actions@.take(actions@.len() as int) == actions@);
    r
}

/// Within one frame of a schedule in schedule order, every note-off stands
/// before every note-on: a simultaneous off/on pair of the same key is an
/// audible re-strike, never a canceled pair.
pub proof fn lemma_same_frame_off_before_on(s: Seq<ScheduledAction>, i: int, j: int)
    requires
        sorted_by_frame(s),
        0 <= i < s.len(),
        0 <= j < s.len(),
        s[i].frame == s[j].frame,
        s[i].action is NoteOff,
        s[j].action is NoteOn,
    ensures
        i < j,
{
    if j < i {
        assert(action_le(s[j], s[i]));
    }
}

} // verus!
