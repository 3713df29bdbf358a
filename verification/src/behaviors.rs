//! Behaviors: the pipeline stages that decide what ultimately reaches the
//! transport. The solid behavior passes each frame through unchanged; the
//! audio behavior scales the frame's two physical halves by the two smoothed
//! channel levels.

use vstd::prelude::*;

use crate::sequence::{spec_adjusted_halfs, LedSequence};

verus! {

/// The closed set of behavior variants.
#[derive(Clone, Copy, PartialEq, Eq, Structural, Debug)]
pub enum BehaviorMod {
    Audio,
    Solid,
}

/// The pass-through behavior: what arrives is what is rendered.
#[derive(Clone, Copy, PartialEq, Eq, Structural, Debug)]
pub struct SolidBhv {}

impl SolidBhv {
    pub fn new() -> (b: SolidBhv)
        ensures
            b == (SolidBhv {  }),
    {
        SolidBhv {  }
    }

    /// The frame to render for an incoming frame: the same frame.
    pub fn poll_next(&self, colors: &LedSequence) -> (out: LedSequence)
        ensures
            out@ == colors@,
    {
        colors.duplicate()
    }
}

/// The audio-reactive behavior: it remembers the latest smoothed stereo
/// levels (in thousandths) and multiplies the frame's halves by them.
#[derive(Clone, Copy, PartialEq, Eq, Structural, Debug)]
pub struct AudioBhv {
    pub left_milli: u32,
    pub right_milli: u32,
}

impl AudioBhv {
    pub open spec fn wf(&self) -> bool {
        self.left_milli <= 1000 && self.right_milli <= 1000
    }

    pub fn new() -> (b: AudioBhv)
        ensures
            b == (AudioBhv { left_milli: 0u32, right_milli: 0u32 }),
            b.wf(),
    {
        AudioBhv { left_milli: 0, right_milli: 0 }
    }

    /// Adopts the newest levels from the capture thread's register;
    /// latest value wins.
    pub fn update_levels(&mut self, left_milli: u32, right_milli: u32)
        requires
            left_milli <= 1000,
            right_milli <= 1000,
        ensures
            *final(self) == (AudioBhv { left_milli, right_milli }),
            final(self).wf(),
    {
        self.left_milli = left_milli;
        self.right_milli = right_milli;
    }

    /// The frame to render for an incoming frame: its halves scaled by the
    /// two current levels.
    pub fn poll_next(&self, colors: &LedSequence) -> (out: LedSequence)
        requires
            self.wf(),
        ensures
            out@ == spec_adjusted_halfs(colors@, (self.left_milli, self.right_milli)),
    {
        colors.duplicate().adjusted_halfs_value((self.left_milli, self.right_milli))
    }
}


/// The behavior table as a closed tagged union.
#[derive(Clone, Copy, PartialEq, Eq, Structural, Debug)]
pub enum Behavior {
    Audio(AudioBhv),
    Solid(SolidBhv),
}

impl Behavior {
    pub open spec fn wf(&self) -> bool {
        match self {
            Behavior::Audio(a) => a.wf(),
            Behavior::Solid(_) => true,
        }
    }

    /// The frame this behavior renders for an incoming frame.
    pub fn poll_next(&self, colors: &LedSequence) -> (out: LedSequence)
        requires
            self.wf(),
        ensures
            match self {
                Behavior::Audio(a) => out@ == spec_adjusted_halfs(
                    colors@,
                    (a.left_milli, a.right_milli),
                ),
                Behavior::Solid(_) => out@ == colors@,
            },
    {
        match self {
            Behavior::Audio(a) => a.poll_next(colors),
            Behavior::Solid(sb) => sb.poll_next(colors),
        }
    }
}

impl BehaviorMod {
    /// The behavior this table entry stands for, in its initial state.
    pub fn get_behavior(&self) -> (b: Behavior)
        ensures
            self is Audio ==> b == Behavior::Audio(
                AudioBhv { left_milli: 0u32, right_milli: 0u32 },
            ),
            self is Solid ==> b == Behavior::Solid(SolidBhv {  }),
            b.wf(),
    {
        match self {
            BehaviorMod::Audio => Behavior::Audio(AudioBhv::new()),
            BehaviorMod::Solid => Behavior::Solid(SolidBhv::new()),
        }
    }
}

} // verus!
