//! Sources: the pipeline stages that produce one LedSequence per poll from an
//! ambient signal. The pure decisions live here; blocking on a subprocess,
//! a capture stream or the audio thread happens outside and hands its result
//! in as a plain value.

use vstd::prelude::*;

use crate::color::Color;
use crate::config::StripConf;
use crate::errors::PLightError;
use crate::sequence::LedSequence;

verus! {

/// A run mode naming the one ambient signal that drives the whole pipeline
/// when source and behavior are not picked separately.
#[derive(Clone, Copy, PartialEq, Eq, Structural, Debug)]
pub enum Mode {
    Audio,
    CavaWallDcol,
    Color,
    Screen,
    Wallpaper,
}

/// The closed set of source variants.
#[derive(Clone, Copy, PartialEq, Eq, Structural, Debug)]
pub enum SourceMod {
    Color,
    Screen,
    Wallpaper,
}

/// The solid color source: every poll paints the whole frame with one
/// configured color.
#[derive(Clone, Copy, PartialEq, Eq, Structural, Debug)]
pub struct ColorSrc {
    pub color: Color,
}

impl ColorSrc {
    pub fn new(color: [u8; 3]) -> (s: ColorSrc)
        ensures
            s.color == (Color { r: color[0], g: color[1], b: color[2] }),
    {
        ColorSrc { color: Color { r: color[0], g: color[1], b: color[2] } }
    }

    /// Fills the frame with the configured color; the length never changes.
    pub fn poll_next(&mut self, led_sequence: &mut LedSequence)
        ensures
            *final(self) == *old(self),
            final(led_sequence)@.len() == old(led_sequence)@.len(),
            forall|i: int|
                0 <= i < final(led_sequence)@.len() ==> final(led_sequence)@[i] == old(self).color,
    {
        led_sequence.set_color(self.color);
    }
}

/// The screen source's verified half: it keeps the newest parsed frame;
/// draining the capture channel and decoding raw video happens at the
/// boundary, which hands finished rasters to `sampler::parse_image` aimed at
/// `colors`.
#[derive(Clone, Debug)]
pub struct ScreenSrc {
    pub colors: LedSequence,
}

impl ScreenSrc {
    pub fn new(strip_len: usize) -> (s: ScreenSrc)
        ensures
            s.colors@.len() == strip_len,
    {
        ScreenSrc { colors: LedSequence::new(strip_len) }
    }

    /// Hands the latest frame to a render pass; the frame keeps its length.
    pub fn poll_next(&self, led_sequence: &mut LedSequence)
        requires
            self.colors@.len() == old(led_sequence)@.len(),
        ensures
            final(led_sequence)@ == self.colors@,
    {
        led_sequence.set_sequence(self.colors.duplicate());
    }
}

/// The literal line prefix the wallpaper daemon prints before the image path.
pub open spec fn spec_image_prefix() -> Seq<u8> {
    seq![105u8, 109u8, 97u8, 103u8, 101u8, 58u8, 32u8]
}

/// Whether the prefix occurs at position `i` of the output.
pub open spec fn spec_match_at(s: Seq<u8>, i: int) -> bool {
    i + 7 <= s.len() && s.subrange(i, i + 7) =~= spec_image_prefix()
}

/// The bytes of `s` up to position `k` with every newline removed.
pub open spec fn spec_strip_newlines(s: Seq<u8>, k: int) -> Seq<u8>
    decreases k,
{
    if k <= 0 {
        Seq::empty()
    } else {
        let p = spec_strip_newlines(s, k - 1);
        if s[k - 1] == 10 {
            p
        } else {
            p.push(s[k - 1])
        }
    }
}

/// Extracts the image path from the wallpaper daemon's output: everything
/// after the first `image: `, with newlines removed. Output of any other
/// shape has no path.
pub fn parse_wallpaper_output(output: &Vec<u8>) -> (r: Option<Vec<u8>>)
    ensures
        r is Some <==> exists|i: int| 0 <= i && spec_match_at(output@, i),
        r is Some ==> exists|i: int|
            {
                &&& 0 <= i
                &&& #[trigger] spec_match_at(output@, i)
                &&& forall|j: int| 0 <= j < i ==> !spec_match_at(output@, j)
                &&& r->0@ == spec_strip_newlines(
                    output@.subrange(i + 7, output@.len() as int),
                    output@.len() - i - 7,
                )
            },
{
    let n = output.len();
    if n < 7 {
        proof {
            assert(forall|i: int| 0 <= i ==> !spec_match_at(output@, i));
        }
        return None;
    }
    let mut i: usize = 0;
    while i <= n - 7
        invariant
            n == output@.len(),
            7 <= n,
            i <= n,
            forall|j: int| 0 <= j < i ==> !spec_match_at(output@, j),
        decreases n - i,
    {
        let hit = output[i] == 105 && output[i + 1] == 109 && output[i + 2] == 97 && output[i + 3]
            == 103 && output[i + 4] == 101 && output[i + 5] == 58 && output[i + 6] == 32;
        if hit {
            proof {
                assert(output@.subrange(i as int, i + 7) =~= spec_image_prefix());
                assert(spec_match_at(output@, i as int));
            }
            let tail_len: usize = n - (i + 7);
            let mut path: Vec<u8> = Vec::new();
            let mut t: usize = 0;
            let ghost suffix = output@.subrange(i + 7, n as int);
            while t < tail_len
                invariant
                    n == output@.len(),
                    i + 7 <= n,
                    tail_len == n - (i + 7),
                    t <= tail_len,
                    suffix == output@.subrange(i + 7, n as int),
                    path@ == spec_strip_newlines(suffix, t as int),
                decreases tail_len - t,
            {
                let b = output[i + 7 + t];
                proof {
                    assert(suffix[t as int] == output@[i + 7 + t]);
                }
                if b != 10 {
                    path.push(b);
                }
                t = t + 1;
            }
            return Some(path);
        }
        proof {
            if spec_match_at(output@, i as int) {
                assert(output@.subrange(i as int, i + 7)[0] == output@[i as int]);
                assert(output@.subrange(i as int, i + 7)[1] == output@[i + 1]);
                assert(output@.subrange(i as int, i + 7)[2] == output@[i + 2]);
                assert(output@.subrange(i as int, i + 7)[3] == output@[i + 3]);
                assert(output@.subrange(i as int, i + 7)[4] == output@[i + 4]);
                assert(output@.subrange(i as int, i + 7)[5] == output@[i + 5]);
                assert(output@.subrange(i as int, i + 7)[6] == output@[i + 6]);
                assert(false);
            }
        }
        i = i + 1;
    }
    proof {
        assert(forall|j: int| 0 <= j && spec_match_at(output@, j) ==> j + 7 <= n);
    }
    None
}

/// What a wallpaper poll should do next.
#[derive(Clone, Debug)]
pub enum WallpaperStep {
    /// The daemon's answer has not changed: render the cached frame again.
    Reuse,
    /// A new wallpaper: open this file and sample it.
    Load { path: Vec<u8> },
}

/// The wallpaper source's verified half: it remembers the daemon's last
/// answer and the frame sampled from it. Running the query command and
/// opening the image file happen at the boundary; the decision about what the
/// answer means is made here.
#[derive(Clone, Debug)]
pub struct WallpaperSrc {
    pub prev_output: Vec<u8>,
    pub colors: LedSequence,
}

impl WallpaperSrc {
    pub fn new(strip_len: usize) -> (s: WallpaperSrc)
        ensures
            s.colors@.len() == strip_len,
            s.prev_output@ == Seq::<u8>::empty(),
    {
        WallpaperSrc { prev_output: Vec::new(), colors: LedSequence::new(strip_len) }
    }

    /// Decides on the daemon's output: unchanged output reuses the cache; a
    /// changed output is remembered and either names a file to load or, in
    /// any other shape, is the wrong-wallpaper-path error.
    pub fn poll_decision(&mut self, output: &Vec<u8>) -> (r: Result<WallpaperStep, PLightError>)
        ensures
            final(self).colors == old(self).colors,
            output@ == old(self).prev_output@ ==> (r matches Ok(WallpaperStep::Reuse))
                && final(self).prev_output@ == old(self).prev_output@,
            output@ != old(self).prev_output@ ==> final(self).prev_output@ == output@ && (
            if exists|i: int| 0 <= i && spec_match_at(output@, i) {
                r matches Ok(WallpaperStep::Load { path }) && exists|i: int|
                    {
                        &&& 0 <= i
                        &&& #[trigger] spec_match_at(output@, i)
                        &&& forall|j: int| 0 <= j < i ==> !spec_match_at(output@, j)
                        &&& path@ == spec_strip_newlines(
                            output@.subrange(i + 7, output@.len() as int),
                            output@.len() - i - 7,
                        )
                    }
            } else {
                r matches Err(PLightError::WrongWallpaperPath { given }) && given@ == output@
            }),
    {
        if vecs_equal(output, &self.prev_output) {
            return Ok(WallpaperStep::Reuse);
        }
        self.prev_output = vstd::slice::slice_to_vec(output.as_slice());
        match parse_wallpaper_output(output) {
            Some(path) => Ok(WallpaperStep::Load { path }),
            None => Err(
                PLightError::WrongWallpaperPath {
                    given: vstd::slice::slice_to_vec(output.as_slice()),
                },
            ),
        }
    }
}

/// Byte-for-byte equality of two buffers.
fn vecs_equal(a: &Vec<u8>, b: &Vec<u8>) -> (r: bool)
    ensures
        r == (a@ == b@),
{
    if a.len() != b.len() {
        return false;
    }
    let n = a.len();
    let mut i: usize = 0;
    while i < n
        invariant
            n == a@.len() == b@.len(),
            i <= n,
            forall|j: int| 0 <= j < i ==> a@[j] == b@[j],
        decreases n - i,
    {
        if a[i] != b[i] {
            return false;
        }
        i = i + 1;
    }
    proof {
        assert(a@ =~= b@);
    }
    true
}

/// The gradient color of LED `k` for the cava mode: the warmest gradient
/// entry along the bottom, the coolest along the top, and a stepped blend up
/// each side.
pub open spec fn spec_gradient_color(g: Seq<Color>, geom: StripConf, k: int) -> Color {
    let h = geom.height as int;
    let w = geom.width as int;
    let half = geom.spec_half_bottom();
    if k < half {
        g[6]
    } else if k < half + h {
        let i = k - half;
        g[6 - (i * 7 / h) % 7]
    } else if k < half + h + w {
        g[0]
    } else if k < half + 2 * h + w {
        let i = k - (half + h + w);
        g[(i * 7 / h) % 7]
    } else {
        g[6]
    }
}

/// Builds one frame from the seven cava gradient colors: bottom segments and
/// top edge are solid, the sides step through the gradient.
#[verifier::loop_isolation(false)]
pub fn gradient_sequence(g: &Vec<Color>, geom: &StripConf) -> (r: Vec<Color>)
    requires
        g@.len() == 7,
        geom.wf(),
    ensures
        r@.len() == geom.spec_len(),
        forall|k: int| 0 <= k < r@.len() ==> r@[k] == spec_gradient_color(g@, *geom, k),
{
    let w: usize = geom.width;
    let h: usize = geom.height;
    let half: usize = (w - geom.bottom_gap) / 2;
    proof {
        vstd::arithmetic::div_mod::lemma_fundamental_div_mod((w - geom.bottom_gap) as int, 2);
        assert(half as int == geom.spec_half_bottom());
    }
    let mut colors: Vec<Color> = Vec::new();
    let mut k: usize = 0;
    while k < half
        invariant
            k <= half,
            colors@.len() == k,
            forall|j: int| 0 <= j < k ==> colors@[j] == spec_gradient_color(g@, *geom, j),
        decreases half - k,
    {
        colors.push(g[6]);
        k = k + 1;
    }
    while k < half + h
        invariant
            half <= k <= half + h,
            colors@.len() == k,
            forall|j: int| 0 <= j < k ==> colors@[j] == spec_gradient_color(g@, *geom, j),
        decreases half + h - k,
    {
        let i: usize = k - half;
        let idx: usize = (i * 7 / h) % 7;
        colors.push(g[6 - idx]);
        k = k + 1;
    }
    while k < half + h + w
        invariant
            half + h <= k <= half + h + w,
            colors@.len() == k,
            forall|j: int| 0 <= j < k ==> colors@[j] == spec_gradient_color(g@, *geom, j),
        decreases half + h + w - k,
    {
        colors.push(g[0]);
        k = k + 1;
    }
    while k < half + h + w + h
        invariant
            half + h + w <= k <= half + h + w + h,
            colors@.len() == k,
            forall|j: int| 0 <= j < k ==> colors@[j] == spec_gradient_color(g@, *geom, j),
        decreases half + h + w + h - k,
    {
        let i: usize = k - half - h - w;
        let idx: usize = (i * 7 / h) % 7;
        colors.push(g[idx]);
        k = k + 1;
    }
    while k < half + h + w + h + half
        invariant
            half + h + w + h <= k <= half + h + w + h + half,
            colors@.len() == k,
            forall|j: int| 0 <= j < k ==> colors@[j] == spec_gradient_color(g@, *geom, j),
        decreases half + h + w + h + half - k,
    {
        colors.push(g[6]);
        k = k + 1;
    }
    colors
}


/// The source table as a closed tagged union.
#[derive(Clone, Debug)]
pub enum Source {
    Color(ColorSrc),
    Screen(ScreenSrc),
    Wallpaper(WallpaperSrc),
}

impl SourceMod {
    /// The source this table entry stands for, in its initial state. The
    /// screen and wallpaper variants start with a black cached frame of the
    /// strip's length; their capture plumbing is the caller's side of the
    /// boundary.
    pub fn get_source(&self, conf: &crate::config::SourcesConf, strip_len: usize) -> (s: Source)
        ensures
            self is Color ==> s == Source::Color(
                ColorSrc {
                    color: Color {
                        r: conf.color.color[0],
                        g: conf.color.color[1],
                        b: conf.color.color[2],
                    },
                },
            ),
            self is Screen ==> (s matches Source::Screen(sc) && sc.colors@.len() == strip_len),
            self is Wallpaper ==> (s matches Source::Wallpaper(ws) && ws.colors@.len()
                == strip_len && ws.prev_output@ == Seq::<u8>::empty()),
    {
        match self {
            SourceMod::Color => Source::Color(ColorSrc::new(conf.color.color)),
            SourceMod::Screen => Source::Screen(ScreenSrc::new(strip_len)),
            SourceMod::Wallpaper => Source::Wallpaper(WallpaperSrc::new(strip_len)),
        }
    }
}

} // verus!
