//! The frames of a zoom animation: which frames there are, how they are
//! numbered, and how many iterations each is given.

use vstd::prelude::*;
use crate::value::NormalizedValue;

verus! {

/// What a frame shows.
#[derive(Clone, Copy, Debug, PartialEq, Eq, Structural)]
pub enum FrameKind {
    /// A frame of the first phase: unit zoom and a growing iteration budget.
    IterationRamp { iterations: u32 },
    /// A frame of the second phase. Its zoom is the greatest zoom raised to
    /// the power `exponent`, so the zoom grows geometrically from frame to
    /// frame; its iteration budget is `base_iterations` plus the whole part
    /// of that zoom.
    ZoomRamp { exponent: NormalizedValue, base_iterations: u32 },
}

/// One frame of the animation.
#[derive(Clone, Copy, Debug, PartialEq, Eq, Structural)]
pub struct Frame {
    /// The index under which the frame is stored.
    pub number: u32,
    pub kind: FrameKind,
}

/// Number of frames in the first phase: one for each iteration budget from 1
/// up to, but not including, `max_iterations`.
pub open spec fn ramp_frames(max_iterations: u32) -> nat {
    if max_iterations == 0 {
        0
    } else {
        (max_iterations - 1) as nat
    }
}

/// Number of frames in the whole animation.
pub open spec fn frame_count(max_iterations: u32, max_frames: u32) -> nat {
    ramp_frames(max_iterations) + max_frames as nat
}

/// The frame at position `k` of the animation, counted from zero.
pub open spec fn frame_at(max_iterations: u32, max_frames: u32, k: int) -> Frame {
    if k < ramp_frames(max_iterations) {
        Frame {
            number: (k + 1) as u32,
            kind: FrameKind::IterationRamp { iterations: (k + 1) as u32 },
        }
    } else {
        let step = k - ramp_frames(max_iterations);
        Frame {
            number: (step + max_iterations) as u32,
            kind: FrameKind::ZoomRamp {
                exponent: NormalizedValue { numerator: step as u32, denominator: max_frames },
                base_iterations: max_iterations,
            },
        }
    }
}

/// The iteration budget of a frame whose zoom has the whole part
/// `zoom_floor`, if it fits in 32 bits.
pub open spec fn spec_frame_iterations(kind: FrameKind, zoom_floor: u32) -> Option<u32> {
    match kind {
        FrameKind::IterationRamp { iterations } => Some(iterations),
        FrameKind::ZoomRamp { base_iterations, .. } => if base_iterations + zoom_floor
            <= u32::MAX {
            Some((base_iterations + zoom_floor) as u32)
        } else {
            None
        },
    }
}

impl Frame {
    /// The iteration budget of the frame. `zoom_floor` is the whole part of
    /// the frame's zoom; a frame of the first phase does not look at it.
    /// Returns nothing where the budget does not fit in 32 bits.
    pub fn iterations(&self, zoom_floor: u32) -> (budget: Option<u32>)
        ensures
            budget == spec_frame_iterations(self.kind, zoom_floor),
    {
        match self.kind {
            FrameKind::IterationRamp { iterations } => Some(iterations),
            FrameKind::ZoomRamp { base_iterations, .. } => {
                if zoom_floor <= u32::MAX - base_iterations {
                    Some(base_iterations + zoom_floor)
                } else {
                    None
                }
            },
        }
    }
}

/// Makes the frames of the animation, in the order in which they are shown:
/// first the frames with iteration budgets 1, 2, ... up to but not including
/// `max_iterations`, at unit zoom; then `max_frames` frames of growing zoom.
/// Rendering and storing them is left to the caller.
pub fn make_zoom_frames(max_iterations: u32, max_frames: u32) -> (frames: Vec<Frame>)
    requires
        max_iterations + max_frames <= u32::MAX,
    ensures
        frames@ == Seq::new(
            frame_count(max_iterations, max_frames),
            |k: int| frame_at(max_iterations, max_frames, k),
        ),
{
    let mut frames: Vec<Frame> = Vec::new();
    let mut iteration: u32 = 1;
    while iteration < max_iterations
        invariant
            1 <= iteration,
            iteration <= max_iterations || max_iterations == 0,
            frames@.len() == iteration - 1,
            frames@.len() <= ramp_frames(max_iterations),
            forall|k: int|
                0 <= k < frames@.len() ==> frames@[k] == frame_at(max_iterations, max_frames, k),
        decreases max_iterations - iteration,
    {
        frames.push(
            Frame { number: iteration, kind: FrameKind::IterationRamp { iterations: iteration } },
        );
        iteration = iteration + 1;
    }
    let mut step: u32 = 0;
    while step < max_frames
        invariant
            step <= max_frames,
            max_iterations + max_frames <= u32::MAX,
            frames@.len() == ramp_frames(max_iterations) + step,
            forall|k: int|
                0 <= k < frames@.len() ==> frames@[k] == frame_at(max_iterations, max_frames, k),
        decreases max_frames - step,
    {
        frames.push(
            Frame {
                number: step + max_iterations,
                kind: FrameKind::ZoomRamp {
                    exponent: NormalizedValue { numerator: step, denominator: max_frames },
                    base_iterations: max_iterations,
                },
            },
        );
        step = step + 1;
    }
    assert(frames@ =~= Seq::new(
        frame_count(max_iterations, max_frames),
        |k: int| frame_at(max_iterations, max_frames, k),
    ));
    frames
}

/// The frames are numbered without gaps: each frame's number is one more
/// than the number of the frame before it.
pub proof fn lemma_frame_numbers_sequential(max_iterations: u32, max_frames: u32, k: int)
    requires
        max_iterations + max_frames <= u32::MAX,
        0 <= k,
        k + 1 < frame_count(max_iterations, max_frames),
    ensures
        frame_at(max_iterations, max_frames, k + 1).number == frame_at(
            max_iterations,
            max_frames,
            k,
        ).number + 1,
{
}

/// The first phase comes first and is a ramp: its frame at position `k` has
/// the iteration budget `k + 1`, whatever its zoom is taken to be.
pub proof fn lemma_ramp_budgets(max_iterations: u32, max_frames: u32, k: int, zoom_floor: u32)
    requires
        0 <= k < ramp_frames(max_iterations),
    ensures
        spec_frame_iterations(frame_at(max_iterations, max_frames, k).kind, zoom_floor) == Some(
            (k + 1) as u32,
        ),
{
}

/// The second phase starts at unit zoom and stops short of the greatest
/// zoom: the exponent of its first frame is zero, every exponent is a
/// fraction below one, and each frame's exponent is one step above that of
/// the frame before it.
pub proof fn lemma_zoom_exponents(max_iterations: u32, max_frames: u32, k: int)
    requires
        ramp_frames(max_iterations) <= k < frame_count(max_iterations, max_frames),
    ensures
        frame_at(max_iterations, max_frames, k).kind matches FrameKind::ZoomRamp {
            exponent,
            base_iterations,
        } && {
            &&& base_iterations == max_iterations
            &&& exponent.denominator == max_frames
            &&& exponent.numerator == k - ramp_frames(max_iterations)
            &&& exponent.numerator < exponent.denominator
            &&& exponent.in_unit_interval()
        },
{
}

} // verus!
