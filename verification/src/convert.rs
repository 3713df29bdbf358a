//! Small value conversions at the edge of the pipeline: hex color strings
//! from the cava gradient files, and RGBA pixel buffers from capture streams.

use vstd::prelude::*;
use vstd::string::StringSliceAdditionalSpecFns;

use crate::color::Color;
use crate::errors::PLightError;

verus! {

/// The value of an ASCII hex digit, or -1 for any other byte.
pub open spec fn spec_hex_digit(b: u8) -> int {
    if 48 <= b <= 57 {
        b - 48
    } else if 97 <= b <= 102 {
        b - 87
    } else if 65 <= b <= 70 {
        b - 55
    } else {
        -1
    }
}

/// The input with every leading `#` removed.
pub open spec fn spec_trim_hashes(s: Seq<u8>) -> Seq<u8>
    decreases s.len(),
{
    if s.len() > 0 && s[0] == 35 {
        spec_trim_hashes(s.drop_first())
    } else {
        s
    }
}

/// Whether the first six bytes are hex digits.
pub open spec fn spec_hex_color_ok(s: Seq<u8>) -> bool {
    s.len() >= 6 && forall|i: int| 0 <= i < 6 ==> spec_hex_digit(#[trigger] s[i]) >= 0
}

/// The color written in the first six hex digits.
pub open spec fn spec_hex_color(s: Seq<u8>) -> Color {
    Color {
        r: (16 * spec_hex_digit(s[0]) + spec_hex_digit(s[1])) as u8,
        g: (16 * spec_hex_digit(s[2]) + spec_hex_digit(s[3])) as u8,
        b: (16 * spec_hex_digit(s[4]) + spec_hex_digit(s[5])) as u8,
    }
}

fn hex_digit_val(b: u8) -> (v: i32)
    ensures
        v == spec_hex_digit(b),
{
    if 48 <= b && b <= 57 {
        b as i32 - 48
    } else if 97 <= b && b <= 102 {
        b as i32 - 87
    } else if 65 <= b && b <= 70 {
        b as i32 - 55
    } else {
        -1
    }
}

/// Reads a `#rrggbb` hex color (any number of leading `#`, anything after the
/// six digits ignored); anything else is rejected.
pub fn hex_to_rgb(hex: &str) -> (r: Result<Color, PLightError>)
    ensures
        r is Ok <==> spec_hex_color_ok(spec_trim_hashes(hex.spec_bytes())),
        r is Ok ==> r->Ok_0 == spec_hex_color(spec_trim_hashes(hex.spec_bytes())),
        r is Err ==> r->Err_0 matches PLightError::InvalidHexColor { .. },
{
    let bytes = hex.as_bytes();
    let n = bytes.len();
    let ghost whole = hex.spec_bytes();
    proof {
        assert(whole.subrange(0, n as int) =~= whole);
    }
    let mut j: usize = 0;
    while j < n && bytes[j] == 35
        invariant
            n == whole.len(),
            bytes@ == whole,
            j <= n,
            spec_trim_hashes(whole) == spec_trim_hashes(whole.subrange(j as int, n as int)),
        decreases n - j,
    {
        proof {
            assert(whole.subrange(j as int, n as int).drop_first() =~= whole.subrange(
                j + 1,
                n as int,
            ));
        }
        j = j + 1;
    }
    let ghost trimmed = whole.subrange(j as int, n as int);
    proof {
        if j < n {
            assert(trimmed[0] == whole[j as int]);
        }
        assert(spec_trim_hashes(whole) == trimmed);
    }
    if n - j < 6 {
        return Err(PLightError::InvalidHexColor { given: vstd::slice::slice_to_vec(bytes) });
    }
    let d0 = hex_digit_val(bytes[j]);
    let d1 = hex_digit_val(bytes[j + 1]);
    let d2 = hex_digit_val(bytes[j + 2]);
    let d3 = hex_digit_val(bytes[j + 3]);
    let d4 = hex_digit_val(bytes[j + 4]);
    let d5 = hex_digit_val(bytes[j + 5]);
    proof {
        assert(trimmed[0] == whole[j as int] && trimmed[1] == whole[j + 1] && trimmed[2] == whole[j
            + 2] && trimmed[3] == whole[j + 3] && trimmed[4] == whole[j + 4] && trimmed[5] == whole[
            j + 5]);
    }
    if d0 < 0 || d1 < 0 || d2 < 0 || d3 < 0 || d4 < 0 || d5 < 0 {
        return Err(PLightError::InvalidHexColor { given: vstd::slice::slice_to_vec(bytes) });
    }
    Ok(
        Color {
            r: (16 * d0 + d1) as u8,
            g: (16 * d2 + d3) as u8,
            b: (16 * d4 + d5) as u8,
        },
    )
}

/// The first `k` four-byte pixels with their alpha byte dropped.
pub open spec fn spec_rgba_to_rgb(s: Seq<u8>, k: int) -> Seq<u8>
    decreases k,
{
    if k <= 0 {
        Seq::empty()
    } else {
        spec_rgba_to_rgb(s, k - 1) + seq![s[4 * (k - 1)], s[4 * (k - 1) + 1], s[4 * (k - 1) + 2]]
    }
}

/// Strips the alpha channel from an RGBA byte buffer: every four input bytes
/// become three output bytes. A trailing partial pixel is dropped.
pub fn rgba8_to_rgb8(input: &Vec<u8>) -> (r: Vec<u8>)
    ensures
        r@ == spec_rgba_to_rgb(input@, input@.len() as int / 4),
{
    let n = input.len() / 4;
    proof {
        vstd::arithmetic::div_mod::lemma_fundamental_div_mod(input@.len() as int, 4);
        vstd::arithmetic::div_mod::lemma_mod_bound(input@.len() as int, 4);
        assert(input@.len() == input.len());
    }
    let mut out: Vec<u8> = Vec::new();
    let mut k: usize = 0;
    while k < n
        invariant
            n == input@.len() as int / 4,
            4 * n <= input@.len(),
            input@.len() <= usize::MAX,
            k <= n,
            out@ == spec_rgba_to_rgb(input@, k as int),
        decreases n - k,
    {
        out.push(input[4 * k]);
        out.push(input[4 * k + 1]);
        out.push(input[4 * k + 2]);
        proof {
            assert(out@ =~= spec_rgba_to_rgb(input@, k + 1));
        }
        k = k + 1;
    }
    out
}

} // verus!
