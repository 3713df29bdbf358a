//! Colors as byte triples and the tint transform that prepares them for the
//! wire: per-channel gamma curves, saturation, brightness, and the channel
//! reorder that matches the strip's wiring.
//!
//! Saturation and brightness factors are fixed-point values in thousandths
//! (a factor of `1000` means `1.0`), so every step is exact integer
//! arithmetic: `out = clamp(round(num / den), 0, 255)` with the rounding
//! written out in the specification.

use vstd::prelude::*;

verus! {

use vstd::string::StrSliceExecFns;

/// One LED's color: three 8-bit channels.
#[derive(Clone, Copy, PartialEq, Eq, Structural, Debug)]
pub struct Color {
    pub r: u8,
    pub g: u8,
    pub b: u8,
}

impl Color {
    pub fn new(r: u8, g: u8, b: u8) -> (c: Color)
        ensures
            c == (Color { r, g, b }),
    {
        Color { r, g, b }
    }

    pub fn black() -> (c: Color)
        ensures
            c == (Color { r: 0u8, g: 0u8, b: 0u8 }),
    {
        Color { r: 0, g: 0, b: 0 }
    }
}

/// The six-minus-one wiring orders the firmware understands; an order string
/// that is not recognized falls back to `Rgb`.
#[derive(Clone, Copy, PartialEq, Eq, Structural, Debug)]
pub enum ChannelOrder {
    Rgb,
    Grb,
    Brg,
    Bgr,
    Rbg,
}

impl ChannelOrder {
    /// Where each input channel ends up: the permuted triple.
    pub open spec fn spec_apply(self, c: (u8, u8, u8)) -> (u8, u8, u8) {
        match self {
            ChannelOrder::Rgb => (c.0, c.1, c.2),
            ChannelOrder::Grb => (c.1, c.0, c.2),
            ChannelOrder::Brg => (c.2, c.0, c.1),
            ChannelOrder::Bgr => (c.2, c.1, c.0),
            ChannelOrder::Rbg => (c.0, c.2, c.1),
        }
    }

    /// The inverse mapping: recovers the original triple from a permuted one.
    pub open spec fn spec_unapply(self, c: (u8, u8, u8)) -> (u8, u8, u8) {
        match self {
            ChannelOrder::Rgb => (c.0, c.1, c.2),
            ChannelOrder::Grb => (c.1, c.0, c.2),
            ChannelOrder::Brg => (c.1, c.2, c.0),
            ChannelOrder::Bgr => (c.2, c.1, c.0),
            ChannelOrder::Rbg => (c.0, c.2, c.1),
        }
    }

    pub fn apply(self, r: u8, g: u8, b: u8) -> (t: (u8, u8, u8))
        ensures
            t == self.spec_apply((r, g, b)),
    {
        match self {
            ChannelOrder::Rgb => (r, g, b),
            ChannelOrder::Grb => (g, r, b),
            ChannelOrder::Brg => (b, r, g),
            ChannelOrder::Bgr => (b, g, r),
            ChannelOrder::Rbg => (r, b, g),
        }
    }

    pub fn unapply(self, r: u8, g: u8, b: u8) -> (t: (u8, u8, u8))
        ensures
            t == self.spec_unapply((r, g, b)),
    {
        match self {
            ChannelOrder::Rgb => (r, g, b),
            ChannelOrder::Grb => (g, r, b),
            ChannelOrder::Brg => (g, b, r),
            ChannelOrder::Bgr => (b, g, r),
            ChannelOrder::Rbg => (r, b, g),
        }
    }

    /// Reads a wiring order from its configuration string; anything
    /// unrecognized means `Rgb`.
    pub fn parse(s: &str) -> (o: ChannelOrder)
        ensures
            s@ == "RGB"@ ==> o == ChannelOrder::Rgb,
            s@ == "GRB"@ ==> o == ChannelOrder::Grb,
            s@ == "BRG"@ ==> o == ChannelOrder::Brg,
            s@ == "BGR"@ ==> o == ChannelOrder::Bgr,
            s@ == "RBG"@ ==> o == ChannelOrder::Rbg,
            s@ != "RGB"@ && s@ != "GRB"@ && s@ != "BRG"@ && s@ != "BGR"@ && s@ != "RBG"@
                ==> o == ChannelOrder::Rgb,
    {
        proof {
            reveal_strlit("RGB");
            reveal_strlit("GRB");
            reveal_strlit("BRG");
            reveal_strlit("BGR");
            reveal_strlit("RBG");
        }
        if s.unicode_len() != 3 {
            return ChannelOrder::Rgb;
        }
        let c0 = s.get_char(0);
        let c1 = s.get_char(1);
        let c2 = s.get_char(2);
        let o = if c0 == 'R' && c1 == 'G' && c2 == 'B' {
            ChannelOrder::Rgb
        } else if c0 == 'G' && c1 == 'R' && c2 == 'B' {
            ChannelOrder::Grb
        } else if c0 == 'B' && c1 == 'R' && c2 == 'G' {
            ChannelOrder::Brg
        } else if c0 == 'B' && c1 == 'G' && c2 == 'R' {
            ChannelOrder::Bgr
        } else if c0 == 'R' && c1 == 'B' && c2 == 'G' {
            ChannelOrder::Rbg
        } else {
            ChannelOrder::Rgb
        };
        proof {
            assert(s@ =~= seq![c0, c1, c2]);
            if c0 == 'R' && c1 == 'G' && c2 == 'B' {
                assert(s@ =~= "RGB"@);
            }
            if c0 == 'G' && c1 == 'R' && c2 == 'B' {
                assert(s@ =~= "GRB"@);
            }
            if c0 == 'B' && c1 == 'R' && c2 == 'G' {
                assert(s@ =~= "BRG"@);
            }
            if c0 == 'B' && c1 == 'G' && c2 == 'R' {
                assert(s@ =~= "BGR"@);
            }
            if c0 == 'R' && c1 == 'B' && c2 == 'G' {
                assert(s@ =~= "RBG"@);
            }
        }
        o
    }
}

/// Every wiring order is a bijection on channel triples: the inverse mapping
/// undoes it, and it undoes its inverse mapping.
pub proof fn lemma_order_bijection(o: ChannelOrder, c: (u8, u8, u8))
    ensures
        o.spec_unapply(o.spec_apply(c)) == c,
        o.spec_apply(o.spec_unapply(c)) == c,
{
}

/// The declared range of the fixed-point factor representation: saturation
/// and brightness factors are unitless multipliers stored in thousandths, and
/// this model admits any factor up to 1000.0. (Factors above roughly 8.0
/// already clamp every channel at full scale, so the range is not a
/// behavioral limit.)
pub const MAX_FACTOR_MILLI: u32 = 1_000_000;

/// A per-channel gamma response: one output byte for each of the 256 input
/// bytes. The curve itself comes from configuration binding (where
/// `round(255 * (v / 255)^(1 / gamma))` is evaluated once per entry); inside
/// the pipeline it is a plain table, applied exactly.
#[derive(Clone, Debug)]
pub struct GammaCurve {
    table: Vec<u8>,
}

impl View for GammaCurve {
    type V = Seq<u8>;

    closed spec fn view(&self) -> Seq<u8> {
        self.table@
    }
}

impl GammaCurve {
    /// What `round(255 * (v / 255)^(1 / gamma))` guarantees for every
    /// positive gamma: one entry per channel value, black maps to black,
    /// full scale maps to full scale, and the response never decreases.
    pub open spec fn wf(&self) -> bool {
        &&& self@.len() == 256
        &&& self@[0] == 0
        &&& self@[255] == 255
        &&& forall|i: int| 0 <= i < 255 ==> self@[i] <= #[trigger] self@[i + 1]
    }

    /// What the curve sends the channel value `c` to.
    pub open spec fn spec_at(&self, c: u8) -> u8 {
        self@[c as int]
    }

    /// The curve that leaves every channel value unchanged (gamma 1.0).
    pub fn identity() -> (g: GammaCurve)
        ensures
            g.wf(),
            forall|c: u8| g.spec_at(c) == c,
    {
        let mut table: Vec<u8> = Vec::new();
        let mut i: usize = 0;
        while i < 256
            invariant
                i <= 256,
                table@.len() == i,
                forall|j: int| 0 <= j < i ==> table@[j] == j,
            decreases 256 - i,
        {
            table.push(i as u8);
            i = i + 1;
        }
        GammaCurve { table }
    }

    /// Adopts a full 256-entry response table; anything shorter or longer,
    /// with the wrong endpoints, or not monotone is not a gamma curve.
    pub fn from_table(table: Vec<u8>) -> (g: Option<GammaCurve>)
        ensures
            g is Some <==> (table@.len() == 256 && table@[0] == 0 && table@[255] == 255 && forall|
                i: int,
            | 0 <= i < 255 ==> table@[i] <= #[trigger] table@[i + 1]),
            g is Some ==> g->0.wf() && g->0@ == table@,
    {
        if table.len() != 256 {
            return None;
        }
        if table[0] != 0 || table[255] != 255 {
            return None;
        }
        let mut i: usize = 0;
        while i < 255
            invariant
                i <= 255,
                table@.len() == 256,
                forall|q: int| 0 <= q < i ==> table@[q] <= #[trigger] table@[q + 1],
            decreases 255 - i,
        {
            if table[i] > table[i + 1] {
                return None;
            }
            i = i + 1;
        }
        Some(GammaCurve { table })
    }

    pub fn at(&self, c: u8) -> (r: u8)
        requires
            self.wf(),
        ensures
            r == self.spec_at(c),
    {
        self.table[c as usize]
    }
}

/// Saturation step on one channel, exact fixed-point form of
/// `clamp(avg + s * (c - avg), 0, 255)` with `avg = sum / 3` and `s` in
/// thousandths: the numerator over the common denominator 3000 is rounded to
/// the nearest integer and clamped.
pub open spec fn spec_saturate(c: u8, sum: int, s_milli: u32) -> u8 {
    let num = sum * 1000 + (s_milli as int) * (3 * c - sum);
    if num <= 0 {
        0u8
    } else {
        let v = (num + 1500) / 3000;
        if v >= 255 {
            255u8
        } else {
            v as u8
        }
    }
}

/// Brightness step on one channel: `clamp(round(b * c), 0, 255)` with `b` in
/// thousandths.
pub open spec fn spec_brighten(c: u8, b_milli: u32) -> u8 {
    let v = ((b_milli as int) * c + 500) / 1000;
    if v >= 255 {
        255u8
    } else {
        v as u8
    }
}

fn saturate(c: u8, sum: u16, s_milli: u32) -> (r: u8)
    requires
        sum <= 765,
        s_milli <= MAX_FACTOR_MILLI,
    ensures
        r == spec_saturate(c, sum as int, s_milli),
{
    proof {
        assert((s_milli as int) * (3 * (c as int) - (sum as int)) <= 1_000_000 * 765
            && (s_milli as int) * (3 * (c as int) - (sum as int)) >= -1_000_000 * 765)
            by (nonlinear_arith)
            requires
                s_milli <= 1_000_000,
                sum <= 765,
                c <= 255,
        ;
    }
    let num: i64 = (sum as i64) * 1000 + (s_milli as i64) * (3 * (c as i64) - (sum as i64));
    if num <= 0 {
        0
    } else {
        let v: i64 = (num + 1500) / 3000;
        if v >= 255 {
            255
        } else {
            v as u8
        }
    }
}

fn brighten(c: u8, b_milli: u32) -> (r: u8)
    requires
        b_milli <= MAX_FACTOR_MILLI,
    ensures
        r == spec_brighten(c, b_milli),
{
    proof {
        assert((b_milli as int) * (c as int) <= 1_000_000 * 255) by (nonlinear_arith)
            requires
                b_milli <= 1_000_000,
                c <= 255,
        ;
    }
    let v: u64 = ((b_milli as u64) * (c as u64) + 500) / 1000;
    if v >= 255 {
        255
    } else {
        v as u8
    }
}

/// The whole tint: per-channel gamma curves, saturation and brightness
/// factors in thousandths, and the wiring order, read from configuration
/// once and never mutated afterwards.
#[derive(Clone, Debug)]
pub struct TintProfile {
    pub gamma_r: GammaCurve,
    pub gamma_g: GammaCurve,
    pub gamma_b: GammaCurve,
    pub saturation: [u32; 3],
    pub brightness: [u32; 3],
    pub order: ChannelOrder,
}

impl TintProfile {
    pub open spec fn wf(&self) -> bool {
        &&& self.gamma_r.wf()
        &&& self.gamma_g.wf()
        &&& self.gamma_b.wf()
        &&& forall|i: int| 0 <= i < 3 ==> self.saturation@[i] <= MAX_FACTOR_MILLI
        &&& forall|i: int| 0 <= i < 3 ==> self.brightness@[i] <= MAX_FACTOR_MILLI
    }

    /// The tint that changes nothing: identity curves, factors of 1.0, and
    /// the `Rgb` order.
    pub fn neutral() -> (t: TintProfile)
        ensures
            t.wf(),
            forall|c: u8| t.gamma_r.spec_at(c) == c,
            forall|c: u8| t.gamma_g.spec_at(c) == c,
            forall|c: u8| t.gamma_b.spec_at(c) == c,
            t.saturation@ =~= seq![1000u32, 1000u32, 1000u32],
            t.brightness@ =~= seq![1000u32, 1000u32, 1000u32],
            t.order == ChannelOrder::Rgb,
    {
        TintProfile {
            gamma_r: GammaCurve::identity(),
            gamma_g: GammaCurve::identity(),
            gamma_b: GammaCurve::identity(),
            saturation: [1000, 1000, 1000],
            brightness: [1000, 1000, 1000],
            order: ChannelOrder::Rgb,
        }
    }
}

/// The full transform of one color into the three bytes the strip receives,
/// in the fixed step order: gamma, saturation, brightness, channel reorder.
pub open spec fn spec_apply_tint(c: Color, t: TintProfile) -> (u8, u8, u8) {
    let gr = t.gamma_r.spec_at(c.r);
    let gg = t.gamma_g.spec_at(c.g);
    let gb = t.gamma_b.spec_at(c.b);
    let sum = gr + gg + gb;
    let sr = spec_saturate(gr, sum, t.saturation@[0]);
    let sg = spec_saturate(gg, sum, t.saturation@[1]);
    let sb = spec_saturate(gb, sum, t.saturation@[2]);
    let br = spec_brighten(sr, t.brightness@[0]);
    let bg = spec_brighten(sg, t.brightness@[1]);
    let bb = spec_brighten(sb, t.brightness@[2]);
    t.order.spec_apply((br, bg, bb))
}

impl Color {
    /// Hardware-ready bytes for this color, in wire channel order.
    pub fn apply_tint(&self, tint: &TintProfile) -> (t: (u8, u8, u8))
        requires
            tint.wf(),
        ensures
            t == spec_apply_tint(*self, *tint),
    {
        let gr = tint.gamma_r.at(self.r);
        let gg = tint.gamma_g.at(self.g);
        let gb = tint.gamma_b.at(self.b);
        let sum: u16 = gr as u16 + gg as u16 + gb as u16;
        let sr = saturate(gr, sum, tint.saturation[0]);
        let sg = saturate(gg, sum, tint.saturation[1]);
        let sb = saturate(gb, sum, tint.saturation[2]);
        let br = brighten(sr, tint.brightness[0]);
        let bg = brighten(sg, tint.brightness[1]);
        let bb = brighten(sb, tint.brightness[2]);
        tint.order.apply(br, bg, bb)
    }
}

} // verus!
