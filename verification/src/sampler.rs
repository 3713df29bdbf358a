//! Mapping a captured 2-D image onto the 1-D LED ring: each LED gets a
//! rectangular window of pixels at its edge of the image, reduced to one
//! color by the configured aggregator — the per-channel mean, or the
//! per-channel median (the lower middle element for even counts).

use vstd::prelude::*;
use vstd::relations::{sorted_by, total_ordering};
use vstd::seq_lib::group_to_multiset_ensures;
use vstd::seq_lib::lemma_sorted_unique;

use crate::color::Color;
use crate::config::{ParseMode, StripConf};
use crate::errors::PLightError;
use crate::sequence::LedSequence;

verus! {

/// An RGB raster in row-major order.
#[derive(Clone, Debug)]
pub struct Raster {
    pub data: Vec<Color>,
    pub width: usize,
    pub height: usize,
}

impl Raster {
    /// A consistent raster: one pixel per cell, and sides small enough that
    /// every coordinate product stays far from overflow.
    pub open spec fn wf(&self) -> bool {
        &&& self.data@.len() == self.width * self.height
        &&& 0 < self.width <= 0x8000
        &&& 0 < self.height <= 0x8000
    }

    pub open spec fn spec_pixel(&self, x: int, y: int) -> Color {
        self.data@[y * self.width + x]
    }

    /// Wraps a row-major pixel buffer; the buffer must fill the given size
    /// exactly.
    pub fn new(width: usize, height: usize, data: Vec<Color>) -> (r: Option<Raster>)
        ensures
            r is Some <==> (data@.len() == width * height && 0 < width <= 0x8000 && 0 < height
                <= 0x8000),
            r is Some ==> r->0.wf() && r->0 == (Raster { data, width, height }),
    {
        if width == 0 || width > 0x8000 || height == 0 || height > 0x8000 {
            return None;
        }
        proof {
            assert((width as int) * (height as int) <= 0x8000 * 0x8000) by (nonlinear_arith)
                requires
                    width <= 0x8000,
                    height <= 0x8000,
            ;
        }
        if data.len() == width * height {
            Some(Raster { data, width, height })
        } else {
            None
        }
    }


    /// Builds a raster from packed RGB bytes, three per pixel.
    pub fn from_rgb_bytes(width: usize, height: usize, bytes: &Vec<u8>) -> (r: Option<Raster>)
        ensures
            r is Some <==> (bytes@.len() == 3 * (width * height) && 0 < width <= 0x8000 && 0
                < height <= 0x8000),
            r is Some ==> r->0.wf() && r->0.width == width && r->0.height == height && forall|
                i: int,
            |
                0 <= i < width * height ==> r->0.data@[i] == (Color {
                    r: bytes@[3 * i],
                    g: bytes@[3 * i + 1],
                    b: bytes@[3 * i + 2],
                }),
    {
        if width == 0 || width > 0x8000 || height == 0 || height > 0x8000 {
            return None;
        }
        proof {
            assert((width as int) * (height as int) <= 0x8000 * 0x8000) by (nonlinear_arith)
                requires
                    width <= 0x8000,
                    height <= 0x8000,
            ;
        }
        let n: usize = width * height;
        if bytes.len() != 3 * n {
            return None;
        }
        let mut data: Vec<Color> = Vec::new();
        let mut i: usize = 0;
        while i < n
            invariant
                i <= n,
                n == width * height,
                bytes@.len() == 3 * n,
                bytes@.len() <= usize::MAX,
                data@.len() == i,
                forall|j: int|
                    0 <= j < i ==> data@[j] == (Color {
                        r: bytes@[3 * j],
                        g: bytes@[3 * j + 1],
                        b: bytes@[3 * j + 2],
                    }),
            decreases n - i,
        {
            data.push(
                Color { r: bytes[3 * i], g: bytes[3 * i + 1], b: bytes[3 * i + 2] },
            );
            i = i + 1;
        }
        Some(Raster { data, width, height })
    }

    pub fn pixel(&self, x: usize, y: usize) -> (c: Color)
        requires
            self.wf(),
            x < self.width,
            y < self.height,
        ensures
            c == self.spec_pixel(x as int, y as int),
    {
        proof {
            assert((y as int) * (self.width as int) + (x as int) < (self.width as int)
                * (self.height as int) && (y as int) * (self.width as int) + (x as int) < 0x8000
                * 0x8000) by (nonlinear_arith)
                requires
                    x < self.width,
                    y < self.height,
                    self.width <= 0x8000,
                    self.height <= 0x8000,
            ;
        }
        self.data[y * self.width + x]
    }
}

/// One channel of a color, by channel index 0, 1, 2.
pub open spec fn spec_chan(c: Color, ch: int) -> u8 {
    if ch == 0 {
        c.r
    } else if ch == 1 {
        c.g
    } else {
        c.b
    }
}

/// Sum of one channel over the first `k` pixels.
pub open spec fn spec_chan_sum_prefix(s: Seq<Color>, ch: int, k: int) -> int
    decreases k,
{
    if k <= 0 {
        0
    } else {
        spec_chan_sum_prefix(s, ch, k - 1) + spec_chan(s[k - 1], ch)
    }
}

/// Per-channel mean, truncating: the average aggregator.
pub open spec fn spec_average(s: Seq<Color>) -> Color {
    Color {
        r: (spec_chan_sum_prefix(s, 0, s.len() as int) / s.len() as int) as u8,
        g: (spec_chan_sum_prefix(s, 1, s.len() as int) / s.len() as int) as u8,
        b: (spec_chan_sum_prefix(s, 2, s.len() as int) / s.len() as int) as u8,
    }
}

/// The ordering the median sorts by.
pub open spec fn u8_le(a: u8, b: u8) -> bool {
    a <= b
}

/// That ordering as a relation value, for `sort_by` and `sorted_by`.
pub open spec fn u8_leq() -> spec_fn(u8, u8) -> bool {
    |a: u8, b: u8| u8_le(a, b)
}

/// The midpoint of a sorted sequence of channel values: the lower of the two
/// middle elements when the count is even.
pub open spec fn spec_median_of(s: Seq<u8>) -> u8 {
    s.sort_by(u8_leq())[(s.len() - 1) as int / 2]
}

/// Per-channel sorted midpoint: the median aggregator.
pub open spec fn spec_median(s: Seq<Color>) -> Color {
    Color {
        r: spec_median_of(s.map_values(|c: Color| spec_chan(c, 0))),
        g: spec_median_of(s.map_values(|c: Color| spec_chan(c, 1))),
        b: spec_median_of(s.map_values(|c: Color| spec_chan(c, 2))),
    }
}

/// What the configured aggregator makes of a window of pixels.
pub open spec fn spec_aggregate(s: Seq<Color>, mode: ParseMode) -> Color {
    match mode {
        ParseMode::Average => spec_average(s),
        ParseMode::Median => spec_median(s),
    }
}

/// The prefix sums stay within `255 * k`.
proof fn lemma_chan_sum_prefix_bound(s: Seq<Color>, ch: int, k: int)
    requires
        0 <= k <= s.len(),
    ensures
        0 <= spec_chan_sum_prefix(s, ch, k) <= 255 * k,
    decreases k,
{
    if k > 0 {
        lemma_chan_sum_prefix_bound(s, ch, k - 1);
    }
}

/// Sorts a byte vector ascending, keeping exactly the same elements.
#[verifier::rlimit(60)]
fn sort_u8(v: &mut Vec<u8>)
    ensures
        final(v)@.len() == old(v)@.len(),
        sorted_by(final(v)@, u8_leq()),
        final(v)@.to_multiset() == old(v)@.to_multiset(),
{
    broadcast use group_to_multiset_ensures;

    let n = v.len();
    let mut out: Vec<u8> = Vec::new();
    let mut i: usize = 0;
    while i < n
        invariant
            i <= n,
            n == v@.len(),
            out@.len() == i,
            sorted_by(out@, u8_leq()),
            out@.to_multiset() == v@.subrange(0, i as int).to_multiset(),
        decreases n - i,
    {
        let x = v[i];
        let mut p: usize = 0;
        while p < out.len() && out[p] <= x
            invariant
                p <= out@.len(),
                forall|q: int| 0 <= q < p ==> #[trigger] out@[q] <= x,
            decreases out@.len() - p,
        {
            p = p + 1;
        }
        let ghost before = out@;
        out.insert(p, x);
        proof {
            broadcast use group_to_multiset_ensures;

            before.insert_ensures(p as int, x);
            assert forall|k: int| p <= k < before.len() implies x <= #[trigger] before[k] by {
                assert(!(before[p as int] <= x));
                if k > p {
                    assert((u8_leq())(before[p as int], before[k]));
                }
            }
            assert(sorted_by(out@, u8_leq())) by {
                assert forall|q1: int, q2: int| 0 <= q1 < q2 < out@.len() implies (u8_leq())(
                    out@[q1],
                    out@[q2],
                ) by {
                    if q1 < p {
                        assert(out@[q1] == before[q1]);
                        assert(before[q1] <= x);
                    }
                    if q2 > p {
                        assert(out@[q2] == before[q2 - 1]);
                        assert(x <= before[q2 - 1]);
                    }
                    if q1 > p && q2 > p {
                        assert((u8_leq())(before[q1 - 1], before[q2 - 1]));
                    }
                    if q1 < p && q2 < p {
                        assert((u8_leq())(before[q1], before[q2]));
                    }
                }
            }
            assert(v@.subrange(0, i + 1) =~= v@.subrange(0, i as int).push(v@[i as int]));
            assert(out@.to_multiset() =~= v@.subrange(0, i + 1).to_multiset()) by {
                assert(before.insert(p as int, x).to_multiset() =~= before.to_multiset().insert(
                    x,
                ));
                assert(v@.subrange(0, i as int).push(v@[i as int]).to_multiset() =~= v@.subrange(
                    0,
                    i as int,
                ).to_multiset().insert(v@[i as int]));
            }
        }
        i = i + 1;
    }
    proof {
        assert(v@.subrange(0, n as int) =~= v@);
    }
    *v = out;
}

/// Sorts the values and takes the midpoint (the lower middle element when the
/// count is even); an empty input has no median. The buffer is left sorted.
pub fn median(numbers: &mut Vec<u8>) -> (r: Option<u8>)
    ensures
        r is Some <==> old(numbers)@.len() > 0,
        r is Some ==> r->0 == spec_median_of(old(numbers)@),
        final(numbers)@ == old(numbers)@.sort_by(u8_leq()),
{
    sort_u8(numbers);
    proof {
        old(numbers)@.lemma_sort_by_ensures(u8_leq());
        assert(total_ordering(u8_leq()));
        lemma_sorted_unique(numbers@, old(numbers)@.sort_by(u8_leq()), u8_leq());
    }
    if numbers.len() == 0 {
        return None;
    }
    let len = numbers.len();
    Some(numbers[(len - 1) / 2])
}

/// Pixels of one image row between two columns.
pub open spec fn spec_row(img: Raster, y: int, x0: int, x1: int) -> Seq<Color> {
    Seq::new((x1 - x0) as nat, |dx: int| img.spec_pixel(x0 + dx, y))
}

/// Pixels of the rectangle with columns `[x0, x1)` and rows `[y0, y1)`,
/// walked row by row.
pub open spec fn spec_window(img: Raster, x0: int, x1: int, y0: int, y1: int) -> Seq<Color>
    decreases y1 - y0,
{
    if y1 <= y0 {
        Seq::empty()
    } else {
        spec_window(img, x0, x1, y0, y1 - 1) + spec_row(img, y1 - 1, x0, x1)
    }
}

/// A window holds one pixel per cell of its rectangle.
pub proof fn lemma_window_len(img: Raster, x0: int, x1: int, y0: int, y1: int)
    requires
        x0 <= x1,
        y0 <= y1,
    ensures
        spec_window(img, x0, x1, y0, y1).len() == (y1 - y0) * (x1 - x0),
    decreases y1 - y0,
{
    if y1 > y0 {
        lemma_window_len(img, x0, x1, y0, y1 - 1);
        assert(spec_window(img, x0, x1, y0, y1) == spec_window(img, x0, x1, y0, y1 - 1) + spec_row(
            img,
            y1 - 1,
            x0,
            x1,
        ));
        assert(spec_row(img, y1 - 1, x0, x1).len() == x1 - x0);
        assert(spec_window(img, x0, x1, y0, y1).len() == (y1 - 1 - y0) * (x1 - x0) + (x1 - x0));
        assert((y1 - y0) * (x1 - x0) == (y1 - 1 - y0) * (x1 - x0) + (x1 - x0)) by (nonlinear_arith);
    } else {
        assert(spec_window(img, x0, x1, y0, y1).len() == 0);
        assert((y1 - y0) * (x1 - x0) == 0) by (nonlinear_arith)
            requires
                y0 == y1,
        ;
    }
}

/// Gathers the pixels of one rectangle, row-major.
fn collect_window(img: &Raster, x0: usize, x1: usize, y0: usize, y1: usize) -> (w: Vec<Color>)
    requires
        img.wf(),
        x0 <= x1 <= img.width,
        y0 <= y1 <= img.height,
    ensures
        w@ =~= spec_window(*img, x0 as int, x1 as int, y0 as int, y1 as int),
{
    let mut w: Vec<Color> = Vec::new();
    let mut y = y0;
    while y < y1
        invariant
            img.wf(),
            x0 <= x1 <= img.width,
            y0 <= y <= y1 <= img.height,
            w@ =~= spec_window(*img, x0 as int, x1 as int, y0 as int, y as int),
        decreases y1 - y,
    {
        let mut x = x0;
        while x < x1
            invariant
                img.wf(),
                x0 <= x <= x1 <= img.width,
                y0 <= y < y1 <= img.height,
                w@ =~= spec_window(*img, x0 as int, x1 as int, y0 as int, y as int) + Seq::new(
                    (x - x0) as nat,
                    |dx: int| img.spec_pixel(x0 + dx, y as int),
                ),
            decreases x1 - x,
        {
            w.push(img.pixel(x, y));
            x = x + 1;
        }
        proof {
            assert(w@ =~= spec_window(*img, x0 as int, x1 as int, y0 as int, y + 1));
        }
        y = y + 1;
    }
    w
}

/// Reduces a non-empty window of pixels with the chosen aggregator.
fn aggregate(window: &Vec<Color>, mode: ParseMode) -> (c: Color)
    requires
        0 < window@.len() <= 0x4000_0000,
    ensures
        c == spec_aggregate(window@, mode),
{
    let n = window.len();
    match mode {
        ParseMode::Average => {
            let mut sum_r: u64 = 0;
            let mut sum_g: u64 = 0;
            let mut sum_b: u64 = 0;
            let mut i: usize = 0;
            while i < n
                invariant
                    i <= n,
                    n == window@.len() <= 0x4000_0000,
                    sum_r == spec_chan_sum_prefix(window@, 0, i as int),
                    sum_g == spec_chan_sum_prefix(window@, 1, i as int),
                    sum_b == spec_chan_sum_prefix(window@, 2, i as int),
                decreases n - i,
            {
                proof {
                    lemma_chan_sum_prefix_bound(window@, 0, i as int);
                    lemma_chan_sum_prefix_bound(window@, 1, i as int);
                    lemma_chan_sum_prefix_bound(window@, 2, i as int);
                    assert(255 * (i as int) <= 255 * 0x4000_0000) by (nonlinear_arith)
                        requires
                            i <= 0x4000_0000,
                    ;
                }
                let p = window[i];
                sum_r = sum_r + p.r as u64;
                sum_g = sum_g + p.g as u64;
                sum_b = sum_b + p.b as u64;
                i = i + 1;
            }
            proof {
                lemma_chan_sum_prefix_bound(window@, 0, n as int);
                lemma_chan_sum_prefix_bound(window@, 1, n as int);
                lemma_chan_sum_prefix_bound(window@, 2, n as int);
                assert(255 * (n as int) <= 255 * 0x4000_0000) by (nonlinear_arith)
                    requires
                        n <= 0x4000_0000,
                ;
                assert(spec_chan_sum_prefix(window@, 0, n as int) / (n as int) <= 255
                    && spec_chan_sum_prefix(window@, 1, n as int) / (n as int) <= 255
                    && spec_chan_sum_prefix(window@, 2, n as int) / (n as int) <= 255)
                    by (nonlinear_arith)
                    requires
                        n >= 1,
                        0 <= spec_chan_sum_prefix(window@, 0, n as int) <= 255 * (n as int),
                        0 <= spec_chan_sum_prefix(window@, 1, n as int) <= 255 * (n as int),
                        0 <= spec_chan_sum_prefix(window@, 2, n as int) <= 255 * (n as int),
                ;
            }
            Color {
                r: (sum_r / n as u64) as u8,
                g: (sum_g / n as u64) as u8,
                b: (sum_b / n as u64) as u8,
            }
        },
        ParseMode::Median => {
            let mut r_values: Vec<u8> = Vec::new();
            let mut g_values: Vec<u8> = Vec::new();
            let mut b_values: Vec<u8> = Vec::new();
            let mut i: usize = 0;
            while i < n
                invariant
                    i <= n,
                    n == window@.len(),
                    r_values@.len() == i,
                    g_values@.len() == i,
                    b_values@.len() == i,
                    forall|j: int| 0 <= j < i ==> r_values@[j] == spec_chan(window@[j], 0),
                    forall|j: int| 0 <= j < i ==> g_values@[j] == spec_chan(window@[j], 1),
                    forall|j: int| 0 <= j < i ==> b_values@[j] == spec_chan(window@[j], 2),
                decreases n - i,
            {
                let p = window[i];
                r_values.push(p.r);
                g_values.push(p.g);
                b_values.push(p.b);
                i = i + 1;
            }
            proof {
                assert(r_values@ =~= window@.map_values(|c: Color| spec_chan(c, 0)));
                assert(g_values@ =~= window@.map_values(|c: Color| spec_chan(c, 1)));
                assert(b_values@ =~= window@.map_values(|c: Color| spec_chan(c, 2)));
            }
            let mr = median(&mut r_values).unwrap();
            let mg = median(&mut g_values).unwrap();
            let mb = median(&mut b_values).unwrap();
            Color { r: mr, g: mg, b: mb }
        },
    }
}

/// One LED's color: the configured aggregate of one rectangle of the image.
fn sample_rect(img: &Raster, x0: usize, x1: usize, y0: usize, y1: usize, mode: ParseMode) -> (c:
    Color)
    requires
        img.wf(),
        x0 < x1 <= img.width,
        y0 < y1 <= img.height,
    ensures
        c == spec_aggregate(
            spec_window(*img, x0 as int, x1 as int, y0 as int, y1 as int),
            mode,
        ),
{
    let w = collect_window(img, x0, x1, y0, y1);
    proof {
        lemma_window_len(*img, x0 as int, x1 as int, y0 as int, y1 as int);
        assert(0 < ((y1 - y0) as int) * ((x1 - x0) as int) <= 0x8000 * 0x8000) by (nonlinear_arith)
            requires
                0 < (x1 - x0) as int <= 0x8000,
                0 < (y1 - y0) as int <= 0x8000,
        ;
    }
    aggregate(&w, mode)
}

/// Width in pixels of one horizontal sampling cell.
pub open spec fn spec_hcell(geom: StripConf, img: Raster) -> int {
    (img.width - 2 * geom.corner_size_p) / geom.width as int
}

/// Height in pixels of one vertical sampling cell.
pub open spec fn spec_vcell(geom: StripConf, img: Raster) -> int {
    (img.height - 2 * geom.corner_size_p) / geom.height as int
}

/// When the strip geometry and the image size are consistent: the corners
/// leave room for at least one pixel per LED cell, and the window depth fits
/// inside the image. Anything else is an input-validation failure, never a
/// silent wrap.
pub open spec fn spec_geometry_ok(geom: StripConf, img: Raster) -> bool {
    &&& 2 * geom.corner_size_p < img.width
    &&& 2 * geom.corner_size_p < img.height
    &&& spec_hcell(geom, img) >= 1
    &&& spec_vcell(geom, img) >= 1
    &&& 1 <= geom.thickness_p
    &&& geom.thickness_p <= img.height
    &&& geom.thickness_p <= img.width
}

/// The image rectangle `(x0, x1, y0, y1)` that LED `k` samples. The wiring
/// path starts at the bottom-right of the gap and walks outwards to the
/// bottom-right corner (cells `half + gap` up to `width` of the bottom edge),
/// then the right edge bottom to top, the top edge right to left, the left
/// edge top to bottom, and ends with the bottom-left half, corner to gap.
pub open spec fn spec_led_window(geom: StripConf, img: Raster, k: int) -> (int, int, int, int) {
    let sw = geom.width as int;
    let sh = geom.height as int;
    let gap = geom.bottom_gap as int;
    let half = geom.spec_half_bottom();
    let hc = spec_hcell(geom, img);
    let vc = spec_vcell(geom, img);
    let wp = img.width as int;
    let hp = img.height as int;
    let th = geom.thickness_p as int;
    let cs = geom.corner_size_p as int;
    if k < half {
        ((cs + (half + gap + k) * hc), (cs + (half + gap + k) * hc + hc), hp - th, hp)
    } else if k < half + sh {
        let i = sh - 1 - (k - half);
        (wp - th, wp, i * vc, i * vc + vc)
    } else if k < half + sh + sw {
        let i = sw - 1 - (k - half - sh);
        (i * hc, i * hc + hc, 0, th)
    } else if k < half + 2 * sh + sw {
        let i = k - (half + sh + sw);
        (0, th, i * vc, i * vc + vc)
    } else {
        let i = k - (half + 2 * sh + sw);
        (i * hc, i * hc + hc, hp - th, hp)
    }
}

/// The color LED `k` ends up with: the aggregate of its window.
pub open spec fn spec_led_color(geom: StripConf, img: Raster, k: int, mode: ParseMode) -> Color {
    let w = spec_led_window(geom, img, k);
    spec_aggregate(spec_window(img, w.0, w.1, w.2, w.3), mode)
}

/// Maps the image onto the ring: replaces the frame's colors with one
/// aggregated window per LED, in wiring order. Inconsistent geometry is
/// rejected up front and leaves the frame untouched.
#[verifier::loop_isolation(false)]
#[verifier::rlimit(60)]
pub fn parse_image(
    img: &Raster,
    geom: &StripConf,
    mode: ParseMode,
    led_sequence: &mut LedSequence,
) -> (r: Result<(), PLightError>)
    requires
        img.wf(),
        geom.wf(),
        old(led_sequence)@.len() == geom.spec_len(),
    ensures
        r is Ok <==> spec_geometry_ok(*geom, *img),
        r is Ok ==> final(led_sequence)@.len() == geom.spec_len() && forall|k: int|
            0 <= k < geom.spec_len() ==> final(led_sequence)@[k] == spec_led_color(
                *geom,
                *img,
                k,
                mode,
            ),
        r is Err ==> final(led_sequence)@ == old(led_sequence)@ && r->Err_0 == (
        PLightError::InvalidGeometry { image_width: img.width, image_height: img.height }),
{
    let wp: usize = img.width;
    let hp: usize = img.height;
    let sw: usize = geom.width;
    let sh: usize = geom.height;
    let cs: usize = geom.corner_size_p;
    let th: usize = geom.thickness_p;
    if 2 * cs >= wp || 2 * cs >= hp {
        return Err(PLightError::InvalidGeometry { image_width: wp, image_height: hp });
    }
    let hcell: usize = (wp - 2 * cs) / sw;
    let vcell: usize = (hp - 2 * cs) / sh;
    if hcell == 0 || vcell == 0 || th == 0 || th > hp || th > wp {
        return Err(PLightError::InvalidGeometry { image_width: wp, image_height: hp });
    }
    let half: usize = (sw - geom.bottom_gap) / 2;
    proof {
        assert(hcell as int == spec_hcell(*geom, *img));
        assert(vcell as int == spec_vcell(*geom, *img));
        assert(spec_geometry_ok(*geom, *img));
        vstd::arithmetic::div_mod::lemma_fundamental_div_mod((wp - 2 * cs) as int, sw as int);
        vstd::arithmetic::div_mod::lemma_fundamental_div_mod((hp - 2 * cs) as int, sh as int);
        vstd::arithmetic::div_mod::lemma_mod_bound((wp - 2 * cs) as int, sw as int);
        vstd::arithmetic::div_mod::lemma_mod_bound((hp - 2 * cs) as int, sh as int);
        assert((sw as int) * (hcell as int) <= wp - 2 * cs) by (nonlinear_arith)
            requires
                (wp - 2 * cs) as int == (sw as int) * ((wp - 2 * cs) as int / (sw as int)) + (wp - 2
                    * cs) as int % (sw as int),
                hcell as int == (wp - 2 * cs) as int / (sw as int),
                0 <= (wp - 2 * cs) as int % (sw as int),
        ;
        assert((sh as int) * (vcell as int) <= hp - 2 * cs) by (nonlinear_arith)
            requires
                (hp - 2 * cs) as int == (sh as int) * ((hp - 2 * cs) as int / (sh as int)) + (hp - 2
                    * cs) as int % (sh as int),
                vcell as int == (hp - 2 * cs) as int / (sh as int),
                0 <= (hp - 2 * cs) as int % (sh as int),
        ;
        vstd::arithmetic::div_mod::lemma_fundamental_div_mod((sw - geom.bottom_gap) as int, 2);
        assert(2 * (half as int) == sw - geom.bottom_gap);
        assert(half as int == geom.spec_half_bottom());
        assert((half as int + geom.bottom_gap) * (hcell as int) <= (sw as int) * (hcell as int)
            && (half as int) * (hcell as int) <= (sw as int) * (hcell as int)
            && (half as int + geom.bottom_gap) * (hcell as int) + (half as int) * (hcell as int)
            == (sw as int) * (hcell as int)) by (nonlinear_arith)
            requires
                half as int + geom.bottom_gap <= sw as int,
                half as int <= sw as int,
                2 * (half as int) + geom.bottom_gap == sw as int,
                0 <= hcell,
        ;
    }
    let rbo: usize = cs + (half + geom.bottom_gap) * hcell;
    let mut colors: Vec<Color> = Vec::new();

    let mut k: usize = 0;
    while k < half
        invariant
            k <= half,
            colors@.len() == k,
            forall|j: int| 0 <= j < k ==> colors@[j] == spec_led_color(*geom, *img, j, mode),
        decreases half - k,
    {
        proof {
            assert((k as int) * (hcell as int) + (hcell as int) <= (half as int) * (hcell as int)
                && (half as int + geom.bottom_gap) * (hcell as int) + (k as int) * (hcell as int)
                == (half as int + geom.bottom_gap + k) * (hcell as int)) by (nonlinear_arith)
                requires
                    k as int + 1 <= half as int,
                    0 <= hcell,
            ;
        }
        let x0: usize = rbo + k * hcell;
        let c0 = sample_rect(img, x0, x0 + hcell, hp - th, hp, mode);
        proof {
            assert(spec_led_window(*geom, *img, k as int) == (
                x0 as int,
                x0 as int + hcell as int,
                hp as int - th as int,
                hp as int,
            ));
        }
        colors.push(c0);
        k = k + 1;
    }
    while k < half + sh
        invariant
            half <= k <= half + sh,
            colors@.len() == k,
            forall|j: int| 0 <= j < k ==> colors@[j] == spec_led_color(*geom, *img, j, mode),
        decreases half + sh - k,
    {
        let i: usize = sh - 1 - (k - half);
        proof {
            assert((i as int) * (vcell as int) + (vcell as int) <= (sh as int) * (vcell as int))
                by (nonlinear_arith)
                requires
                    i as int + 1 <= sh as int,
                    0 <= vcell,
            ;
        }
        let y0: usize = i * vcell;
        let c0 = sample_rect(img, wp - th, wp, y0, y0 + vcell, mode);
        proof {
            assert(spec_led_window(*geom, *img, k as int) == (
                wp as int - th as int,
                wp as int,
                y0 as int,
                y0 as int + vcell as int,
            ));
        }
        colors.push(c0);
        k = k + 1;
    }
    while k < half + sh + sw
        invariant
            half + sh <= k <= half + sh + sw,
            colors@.len() == k,
            forall|j: int| 0 <= j < k ==> colors@[j] == spec_led_color(*geom, *img, j, mode),
        decreases half + sh + sw - k,
    {
        let i: usize = sw - 1 - (k - half - sh);
        proof {
            assert((i as int) * (hcell as int) + (hcell as int) <= (sw as int) * (hcell as int))
                by (nonlinear_arith)
                requires
                    i as int + 1 <= sw as int,
                    0 <= hcell,
            ;
        }
        let x0: usize = i * hcell;
        let c0 = sample_rect(img, x0, x0 + hcell, 0, th, mode);
        proof {
            assert(spec_led_window(*geom, *img, k as int) == (
                x0 as int,
                x0 as int + hcell as int,
                0int,
                th as int,
            ));
        }
        colors.push(c0);
        k = k + 1;
    }
    while k < half + sh + sw + sh
        invariant
            half + sh + sw <= k <= half + sh + sw + sh,
            colors@.len() == k,
            forall|j: int| 0 <= j < k ==> colors@[j] == spec_led_color(*geom, *img, j, mode),
        decreases half + sh + sw + sh - k,
    {
        let i: usize = k - half - sh - sw;
        proof {
            assert((i as int) * (vcell as int) + (vcell as int) <= (sh as int) * (vcell as int))
                by (nonlinear_arith)
                requires
                    i as int + 1 <= sh as int,
                    0 <= vcell,
            ;
        }
        let y0: usize = i * vcell;
        let c0 = sample_rect(img, 0, th, y0, y0 + vcell, mode);
        proof {
            assert(spec_led_window(*geom, *img, k as int) == (
                0int,
                th as int,
                y0 as int,
                y0 as int + vcell as int,
            ));
        }
        colors.push(c0);
        k = k + 1;
    }
    while k < half + sh + sw + sh + half
        invariant
            half + sh + sw + sh <= k <= half + sh + sw + sh + half,
            colors@.len() == k,
            forall|j: int| 0 <= j < k ==> colors@[j] == spec_led_color(*geom, *img, j, mode),
        decreases half + sh + sw + sh + half - k,
    {
        let i: usize = k - half - sh - sw - sh;
        proof {
            assert((i as int) * (hcell as int) + (hcell as int) <= (half as int) * (hcell as int))
                by (nonlinear_arith)
                requires
                    i as int + 1 <= half as int,
                    0 <= hcell,
            ;
            assert((half as int) * (hcell as int) <= (sw as int) * (hcell as int))
                by (nonlinear_arith)
                requires
                    half as int <= sw as int,
                    0 <= hcell,
            ;
        }
        let x0: usize = i * hcell;
        let c0 = sample_rect(img, x0, x0 + hcell, hp - th, hp, mode);
        proof {
            assert(spec_led_window(*geom, *img, k as int) == (
                x0 as int,
                x0 as int + hcell as int,
                hp as int - th as int,
                hp as int,
            ));
        }
        colors.push(c0);
        k = k + 1;
    }
    proof {
        assert(colors@.len() == geom.spec_len());
    }
    led_sequence.set_colors(&colors);
    Ok(())
}



/// On a run of equal pixels the channel sum is just the count times the
/// channel.
proof fn lemma_const_chan_sum(s: Seq<Color>, c: Color, ch: int, k: int)
    requires
        0 <= k <= s.len(),
        forall|i: int| 0 <= i < s.len() ==> s[i] == c,
    ensures
        spec_chan_sum_prefix(s, ch, k) == k * spec_chan(c, ch),
    decreases k,
{
    let v = spec_chan(c, ch) as int;
    if k > 0 {
        lemma_const_chan_sum(s, c, ch, k - 1);
        assert((k - 1) * v + v == k * v) by (nonlinear_arith);
    } else {
        assert(k * v == 0) by (nonlinear_arith)
            requires
                k == 0,
        ;
    }
}

/// The median of equal values is that value.
proof fn lemma_const_median(vals: Seq<u8>, v: u8)
    requires
        vals.len() > 0,
        forall|i: int| 0 <= i < vals.len() ==> vals[i] == v,
    ensures
        spec_median_of(vals) == v,
{
    broadcast use group_to_multiset_ensures;

    vals.lemma_sort_by_ensures(u8_leq());
    let sorted = vals.sort_by(u8_leq());
    assert(sorted.to_multiset() =~= vals.to_multiset());
    assert(sorted.to_multiset().len() == sorted.len());
    assert(vals.to_multiset().len() == vals.len());
    let m = (vals.len() - 1) as int / 2;
    assert(0 <= m < sorted.len());
    assert(sorted.contains(sorted[m]));
    assert(vals.contains(sorted[m]));
    let i = choose|i: int| 0 <= i < vals.len() && vals[i] == sorted[m];
    assert(vals[i] == v);
}

/// A uniform window aggregates to its own color whichever aggregator is
/// configured: the mean of equal values is that value, and so is their
/// median.
pub proof fn lemma_uniform_aggregate(s: Seq<Color>, c: Color, mode: ParseMode)
    requires
        s.len() > 0,
        forall|i: int| 0 <= i < s.len() ==> s[i] == c,
    ensures
        spec_aggregate(s, mode) == c,
{
    let n = s.len() as int;
    match mode {
        ParseMode::Average => {
            lemma_const_chan_sum(s, c, 0, n);
            lemma_const_chan_sum(s, c, 1, n);
            lemma_const_chan_sum(s, c, 2, n);
            assert(n * (spec_chan(c, 0) as int) / n == spec_chan(c, 0) as int
                && n * (spec_chan(c, 1) as int) / n == spec_chan(c, 1) as int
                && n * (spec_chan(c, 2) as int) / n == spec_chan(c, 2) as int)
                by (nonlinear_arith)
                requires
                    n >= 1,
            ;
        },
        ParseMode::Median => {
            let f0 = |p: Color| spec_chan(p, 0);
            let f1 = |p: Color| spec_chan(p, 1);
            let f2 = |p: Color| spec_chan(p, 2);
            assert(forall|i: int| 0 <= i < s.len() ==> s.map_values(f0)[i] == c.r);
            assert(forall|i: int| 0 <= i < s.len() ==> s.map_values(f1)[i] == c.g);
            assert(forall|i: int| 0 <= i < s.len() ==> s.map_values(f2)[i] == c.b);
            lemma_const_median(s.map_values(f0), c.r);
            lemma_const_median(s.map_values(f1), c.g);
            lemma_const_median(s.map_values(f2), c.b);
        },
    }
}

} // verus!
