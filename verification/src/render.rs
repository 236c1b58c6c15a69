//! The render engine: turns a frame count and a schedule of control actions
//! into a step-by-step plan that an audio front end executes against a
//! synthesizer, and computes the gain applied to the finished buffer.

use vstd::prelude::*;

use crate::actions::{
    action_le, lemma_spec_retain_in_range, retain_in_range, sort_actions, sorted_by_frame,
    spec_retain, MidiAction, ScheduledAction,
};
use crate::error::EngineError;

verus! {

broadcast use vstd::seq_lib::group_to_multiset_ensures;

/// One step of a render plan. `Synthesize` asks the front end to render the
/// synthesizer's output into the half-open frame range; `Apply` asks it to
/// dispatch a control action at the current position.
#[derive(Clone, Copy, PartialEq, Eq, Structural, Debug)]
pub enum RenderStep {
    Synthesize { start_frame: usize, end_frame: usize },
    Apply { action: MidiAction },
}

/// The frame position reached after executing the steps: every `Synthesize`
/// advances the position to its end frame.
pub open spec fn plan_cursor(steps: Seq<RenderStep>) -> nat
    decreases steps.len(),
{
    if steps.len() == 0 {
        0
    } else {
        match steps.last() {
            RenderStep::Synthesize { end_frame, .. } => end_frame as nat,
            RenderStep::Apply { .. } => plan_cursor(steps.drop_last()),
        }
    }
}

/// How many control actions the steps have applied.
pub open spec fn plan_applied(steps: Seq<RenderStep>) -> nat
    decreases steps.len(),
{
    if steps.len() == 0 {
        0
    } else {
        match steps.last() {
            RenderStep::Synthesize { .. } => plan_applied(steps.drop_last()),
            RenderStep::Apply { .. } => plan_applied(steps.drop_last()) + 1,
        }
    }
}

/// A plan is valid for a schedule `acts` and a buffer of `total` frames when
/// its synthesize ranges are non-empty, contiguous from frame zero, and stay
/// inside the buffer, and its apply steps dispatch exactly the actions of
/// `acts` in order, each one exactly when the position equals its frame.
pub open spec fn plan_valid(steps: Seq<RenderStep>, acts: Seq<ScheduledAction>, total: nat) -> bool
    decreases steps.len(),
{
    if steps.len() == 0 {
        true
    } else {
        let prefix = steps.drop_last();
        plan_valid(prefix, acts, total) && match steps.last() {
            RenderStep::Synthesize { start_frame, end_frame } => {
                start_frame as nat == plan_cursor(prefix) && start_frame < end_frame && end_frame
                    as nat <= total
            },
            RenderStep::Apply { action } => {
                let k = plan_applied(prefix);
                k < acts.len() && acts[k as int].action == action && acts[k as int].frame as nat
                    == plan_cursor(prefix)
            },
        }
    }
}

/// Builds the render plan for a schedule that is already in schedule order
/// and lies inside the buffer: synthesize the gap up to each action's frame,
/// apply every action at its exact frame, then synthesize the remaining tail
/// (the release decay) up to the end of the buffer.
pub fn build_render_plan(actions: &Vec<ScheduledAction>, total_frames: usize) -> (plan: Vec<
    RenderStep,
>)
    requires
        sorted_by_frame(actions@),
        forall|q: int| 0 <= q < actions@.len() ==> (#[trigger] actions@[q]).frame <= total_frames,
    ensures
        plan_valid(plan@, actions@, total_frames as nat),
        plan_applied(plan@) == actions@.len(),
        plan_cursor(plan@) == total_frames,
{
    let mut plan: Vec<RenderStep> = Vec::new();
    let mut cursor: usize = 0;
    let mut i: usize = 0;
    while i < actions.len()
        invariant
            sorted_by_frame(actions@),
            forall|q: int| 0 <= q < actions@.len() ==> (#[trigger] actions@[q]).frame
                <= total_frames,
            0 <= i <= actions@.len(),
            cursor <= total_frames,
            forall|q: int| i <= q < actions@.len() ==> cursor <= (#[trigger] actions@[q]).frame,
            plan_valid(plan@, actions@, total_frames as nat),
            plan_applied(plan@) == i,
            plan_cursor(plan@) == cursor,
        decreases actions@.len() - i,
    {
        let a = actions[i];
        if a.frame > cursor {
            let step = RenderStep::Synthesize { start_frame: cursor, end_frame: a.frame };
            let ghost p0 = plan@;
            plan.push(step);
            proof {
                assert(plan@.drop_last() =~= p0);
                assert(plan@.last() == step);
                assert(plan_valid(plan@, actions@, total_frames as nat));
                assert(plan_cursor(plan@) == a.frame);
                assert(plan_applied(plan@) == i);
            }
            cursor = a.frame;
        }
        let step = RenderStep::Apply { action: a.action };
        let ghost p1 = plan@;
        plan.push(step);
        proof {
            assert(plan@.drop_last() =~= p1);
            assert(plan@.last() == step);
            assert(plan_valid(plan@, actions@, total_frames as nat));
            assert(plan_cursor(plan@) == cursor);
            assert(plan_applied(plan@) == i + 1);
            assert forall|q: int| i + 1 <= q < actions@.len() implies cursor
                <= (#[trigger] actions@[q]).frame by {
                assert(action_le(actions@[i as int], actions@[q]));
            }
        }
        i += 1;
    }
    if cursor < total_frames {
        let step = RenderStep::Synthesize { start_frame: cursor, end_frame: total_frames };
        proof {
            assert(plan@.push(step).drop_last() =~= plan@);
        }
        plan.push(step);
    }
    plan
}

/// The gain applied to the finished buffer, in thousandths: the master
/// volume times the profile's gain multiplier, clamped to at most 2.5.
pub open spec fn spec_gain_milli(master_volume_milli: nat, instrument_gain_milli: nat) -> nat {
    let g = (master_volume_milli * instrument_gain_milli) / 1000;
    if g > 2500 {
        2500
    } else {
        g
    }
}

/// Computes the clamped render gain in thousandths. Whatever the inputs, the
/// result never exceeds 2500 (a gain of 2.5), so a clamped output sample
/// always stays inside the unit range.
pub fn gain_milli(master_volume_milli: u32, instrument_gain_milli: u32) -> (g: u32)
    ensures
        g as nat == spec_gain_milli(master_volume_milli as nat, instrument_gain_milli as nat),
        g <= 2500,
{
    proof {
        vstd::arithmetic::mul::lemma_mul_upper_bound(
            master_volume_milli as int,
            u32::MAX as int,
            instrument_gain_milli as int,
            u32::MAX as int,
        );
    }
    let product: u64 = (master_volume_milli as u64) * (instrument_gain_milli as u64);
    let scaled: u64 = product / 1000;
    if scaled > 2500 {
        2500
    } else {
        scaled as u32
    }
}

/// The gain invariant: whatever master volume and instrument gain
/// multiplier a render runs with, the applied gain never exceeds 2.5, so
/// an output sample clamped by the front end always lies inside [-1, 1].
pub proof fn lemma_gain_never_exceeds_clamp(master_volume_milli: nat, instrument_gain_milli: nat)
    ensures
        spec_gain_milli(master_volume_milli, instrument_gain_milli) <= 2500,
{
}

/// A fully prepared render call: the buffer size, the schedule in order, the
/// plan that drives the synthesizer, and the gain for the final interleave.
#[derive(Debug)]
pub struct RenderPlan {
    /// Stereo frames of the output buffer.
    pub total_frames: usize,
    /// The schedule, sorted by frame with note-offs before note-ons.
    pub actions: Vec<ScheduledAction>,
    /// The steps to execute in order against a fresh synthesizer.
    pub steps: Vec<RenderStep>,
    /// Gain in thousandths to apply to every sample, already clamped.
    pub gain_milli: u32,
}

impl RenderPlan {
    /// A valid plan: the schedule is ordered, the steps realize it over the
    /// whole buffer, and the gain is clamped.
    pub open spec fn wf(self) -> bool {
        &&& sorted_by_frame(self.actions@)
        &&& plan_valid(self.steps@, self.actions@, self.total_frames as nat)
        &&& plan_applied(self.steps@) == self.actions@.len()
        &&& plan_cursor(self.steps@) == self.total_frames
        &&& self.gain_milli <= 2500
    }
}

/// Prepares a render: drops the actions that lie beyond the buffer, sorts
/// the rest into schedule order, plans the synthesizer walk, and computes
/// the gain. A zero-length render yields an empty plan at once, without
/// error, whatever the sample rate; otherwise a sample rate outside
/// 16000..=192000 is rejected.
pub fn plan_render(
    total_frames: usize,
    actions: &Vec<ScheduledAction>,
    sample_rate_hz: u32,
    master_volume_milli: u32,
    instrument_gain_milli: u32,
) -> (r: Result<RenderPlan, EngineError>)
    ensures
        total_frames == 0 ==> (r matches Ok(p) && p.total_frames == 0 && p.steps@.len() == 0
            && p.actions@.len() == 0),
        total_frames > 0 ==> ((r is Ok) <==> 16000 <= sample_rate_hz <= 192000),
        r matches Err(e) ==> e == EngineError::UnsupportedSampleRate,
        r matches Ok(p) ==> {
            &&& p.wf()
            &&& p.total_frames == total_frames
            &&& p.gain_milli as nat == spec_gain_milli(
                master_volume_milli as nat,
                instrument_gain_milli as nat,
            )
        },
        total_frames > 0 ==> (r matches Ok(p) ==> p.actions@.to_multiset() == spec_retain(
            actions@,
            total_frames as nat,
        ).to_multiset()),
{
    let gain = gain_milli(master_volume_milli, instrument_gain_milli);
    if total_frames == 0 {
        return Ok(
            RenderPlan {
                total_frames: 0,
                actions: Vec::new(),
                steps: Vec::new(),
                gain_milli: gain,
            },
        );
    }
    if sample_rate_hz < 16000 || sample_rate_hz > 192000 {
        return Err(EngineError::UnsupportedSampleRate);
    }
    let kept = retain_in_range(actions, total_frames);
    let sorted = sort_actions(&kept);
    proof {
        lemma_spec_retain_in_range(actions@, total_frames as nat);
        assert forall|q: int| 0 <= q < sorted@.len() implies (#[trigger] sorted@[q]).frame
            <= total_frames by {
            assert(sorted@.to_multiset().contains(sorted@[q]));
            assert(kept@.contains(sorted@[q]));
        }
    }
    let steps = build_render_plan(&sorted, total_frames);
    Ok(RenderPlan { total_frames, actions: sorted, steps, gain_milli: gain })
}

} // verus!
