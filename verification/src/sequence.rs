//! One frame for the whole strip: an ordered buffer of colors whose length is
//! fixed by the strip geometry. Every write preserves the length; moving to a
//! different length is a contract violation, so it is a precondition here.

use vstd::prelude::*;

use crate::color::Color;

verus! {

/// Scaling a color by a level in thousandths, channel by channel, truncating.
pub open spec fn spec_scale_color(c: Color, level_milli: u32) -> Color {
    Color {
        r: ((c.r as int * level_milli as int) / 1000) as u8,
        g: ((c.g as int * level_milli as int) / 1000) as u8,
        b: ((c.b as int * level_milli as int) / 1000) as u8,
    }
}

/// A sequence with its first half scaled by `levels.1` and its second half by
/// `levels.0`: the strip's physical left half answers the right audio channel
/// and vice versa.
pub open spec fn spec_adjusted_halfs(s: Seq<Color>, levels: (u32, u32)) -> Seq<Color> {
    Seq::new(
        s.len(),
        |i: int|
            if i < s.len() as int / 2 {
                spec_scale_color(s[i], levels.1)
            } else {
                spec_scale_color(s[i], levels.0)
            },
    )
}

/// Multiplies one color by a unit-interval level given in thousandths.
pub fn scale_color(c: Color, level_milli: u32) -> (r: Color)
    requires
        level_milli <= 1000,
    ensures
        r == spec_scale_color(c, level_milli),
{
    proof {
        assert(c.r as int * level_milli as int <= 255 * 1000
            && c.g as int * level_milli as int <= 255 * 1000
            && c.b as int * level_milli as int <= 255 * 1000) by (nonlinear_arith)
            requires
                level_milli <= 1000,
                c.r <= 255,
                c.g <= 255,
                c.b <= 255,
        ;
    }
    Color {
        r: ((c.r as u32 * level_milli) / 1000) as u8,
        g: ((c.g as u32 * level_milli) / 1000) as u8,
        b: ((c.b as u32 * level_milli) / 1000) as u8,
    }
}

/// One frame of colors, one per physical LED.
#[derive(Clone, Debug)]
pub struct LedSequence {
    led_colors: Vec<Color>,
}

impl View for LedSequence {
    type V = Seq<Color>;

    closed spec fn view(&self) -> Seq<Color> {
        self.led_colors@
    }
}

impl LedSequence {
    /// A black frame of the given length.
    pub fn new(len: usize) -> (s: LedSequence)
        ensures
            s@.len() == len,
            forall|i: int| 0 <= i < len ==> s@[i] == (Color { r: 0u8, g: 0u8, b: 0u8 }),
    {
        let mut led_colors: Vec<Color> = Vec::new();
        let mut i: usize = 0;
        while i < len
            invariant
                i <= len,
                led_colors@.len() == i,
                forall|j: int| 0 <= j < i ==> led_colors@[j] == (Color { r: 0u8, g: 0u8, b: 0u8 }),
            decreases len - i,
        {
            led_colors.push(Color { r: 0, g: 0, b: 0 });
            i = i + 1;
        }
        LedSequence { led_colors }
    }

    /// An element-for-element copy of this frame.
    pub fn duplicate(&self) -> (r: LedSequence)
        ensures
            r@ == self@,
    {
        LedSequence { led_colors: vstd::slice::slice_to_vec(self.led_colors.as_slice()) }
    }

    /// Wraps an already-built buffer of colors.
    pub fn from_colors(led_colors: Vec<Color>) -> (s: LedSequence)
        ensures
            s@ == led_colors@,
    {
        LedSequence { led_colors }
    }

    pub fn len(&self) -> (l: usize)
        ensures
            l == self@.len(),
    {
        self.led_colors.len()
    }

    pub fn is_empty(&self) -> (e: bool)
        ensures
            e == (self@.len() == 0),
    {
        self.led_colors.len() == 0
    }

    pub fn get(&self, index: usize) -> (r: Option<&Color>)
        ensures
            index < self@.len() <==> r is Some,
            r is Some ==> *r->0 == self@[index as int],
    {
        if index < self.led_colors.len() {
            Some(&self.led_colors[index])
        } else {
            None
        }
    }

    /// Paints the whole frame with one color; the length does not change.
    pub fn set_color(&mut self, color: Color)
        ensures
            final(self)@.len() == old(self)@.len(),
            forall|i: int| 0 <= i < final(self)@.len() ==> final(self)@[i] == color,
    {
        let len = self.led_colors.len();
        let mut led_colors: Vec<Color> = Vec::new();
        let mut i: usize = 0;
        while i < len
            invariant
                i <= len,
                led_colors@.len() == i,
                forall|j: int| 0 <= j < i ==> led_colors@[j] == color,
            decreases len - i,
        {
            led_colors.push(color);
            i = i + 1;
        }
        self.led_colors = led_colors;
    }

    /// Replaces the frame's colors; the replacement must have the same length.
    pub fn set_colors(&mut self, led_colors: &Vec<Color>)
        requires
            led_colors@.len() == old(self)@.len(),
        ensures
            final(self)@ == led_colors@,
    {
        self.led_colors = vstd::slice::slice_to_vec(led_colors.as_slice());
    }

    /// Takes over another frame of the same length.
    pub fn set_sequence(&mut self, led_sequence: LedSequence)
        requires
            led_sequence@.len() == old(self)@.len(),
        ensures
            final(self)@ == led_sequence@,
    {
        self.led_colors = led_sequence.led_colors;
    }

    /// Scales the two physical halves of the frame by the two channel levels
    /// (in thousandths): the first half by `levels.1`, the second by
    /// `levels.0`.
    pub fn adjusted_halfs_value(self, levels: (u32, u32)) -> (r: LedSequence)
        requires
            levels.0 <= 1000,
            levels.1 <= 1000,
        ensures
            r@ == spec_adjusted_halfs(self@, levels),
    {
        let len = self.led_colors.len();
        let mid = len / 2;
        let mut led_colors: Vec<Color> = Vec::new();
        let mut i: usize = 0;
        while i < len
            invariant
                i <= len,
                mid == len / 2,
                len == self@.len(),
                self.led_colors@ == self@,
                levels.0 <= 1000,
                levels.1 <= 1000,
                led_colors@.len() == i,
                forall|j: int| 0 <= j < i ==> led_colors@[j] == spec_adjusted_halfs(self@, levels)[j],
            decreases len - i,
        {
            let level = if i < mid {
                levels.1
            } else {
                levels.0
            };
            led_colors.push(scale_color(self.led_colors[i], level));
            i = i + 1;
        }
        LedSequence { led_colors }
    }
}

} // verus!
