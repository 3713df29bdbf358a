//! The framed serial protocol: one frame is the 3-byte sync prefix, a 3-byte
//! anti-replay nonce (two random bytes and their checksum), and three tinted
//! bytes per LED; the device answers with the prefix reversed. Everything
//! here is the protocol's arithmetic — building the exact byte stream and
//! judging the acknowledgement. Writing to and reading from the device is the
//! caller's side of the boundary; it hands the answer back as a
//! [`ReadOutcome`].

use vstd::prelude::*;

use crate::color::{spec_apply_tint, TintProfile};
use crate::errors::PLightError;
use crate::sequence::LedSequence;

verus! {

/// The sync prefix every frame starts with.
pub open spec fn spec_sync_prefix() -> Seq<u8> {
    seq![89u8, 124u8, 234u8]
}

pub fn sync_prefix() -> (p: [u8; 3])
    ensures
        p@ =~= spec_sync_prefix(),
{
    [89, 124, 234]
}

/// The three wire bytes of one LED.
pub open spec fn spec_tint_triple(c: crate::color::Color, t: TintProfile) -> Seq<u8> {
    let trip = spec_apply_tint(c, t);
    seq![trip.0, trip.1, trip.2]
}

/// The payload of a frame: the tinted bytes of every LED, in strip order.
pub open spec fn spec_tinted_bytes(s: Seq<crate::color::Color>, t: TintProfile) -> Seq<u8>
    decreases s.len(),
{
    if s.len() == 0 {
        Seq::empty()
    } else {
        spec_tint_triple(s[0], t) + spec_tinted_bytes(s.drop_first(), t)
    }
}

proof fn lemma_tinted_bytes_push(s: Seq<crate::color::Color>, t: TintProfile, c: crate::color::Color)
    ensures
        spec_tinted_bytes(s.push(c), t) =~= spec_tinted_bytes(s, t) + spec_tint_triple(c, t),
    decreases s.len(),
{
    reveal_with_fuel(spec_tinted_bytes, 3);
    if s.len() == 0 {
        assert(s.push(c).drop_first() =~= Seq::empty());
        assert(s.push(c)[0] == c);
        assert(spec_tinted_bytes(s.push(c), t) =~= spec_tint_triple(c, t));
        assert(spec_tinted_bytes(s, t) + spec_tint_triple(c, t) =~= spec_tint_triple(c, t));
    } else {
        lemma_tinted_bytes_push(s.drop_first(), t, c);
        assert(s.push(c).drop_first() =~= s.drop_first().push(c));
        assert(s.push(c)[0] == s[0]);
        assert(spec_tinted_bytes(s.push(c), t) =~= spec_tint_triple(s[0], t) + (spec_tinted_bytes(
            s.drop_first(),
            t,
        ) + spec_tint_triple(c, t)));
        assert(spec_tint_triple(s[0], t) + (spec_tinted_bytes(s.drop_first(), t) + spec_tint_triple(
            c,
            t,
        )) =~= (spec_tint_triple(s[0], t) + spec_tinted_bytes(s.drop_first(), t))
            + spec_tint_triple(c, t));
    }
}

/// A frame holds exactly three payload bytes per LED, whatever the tint: the
/// transform never drops, adds or widens a channel.
pub proof fn lemma_tinted_bytes_len(s: Seq<crate::color::Color>, t: TintProfile)
    ensures
        spec_tinted_bytes(s, t).len() == 3 * s.len(),
    decreases s.len(),
{
    if s.len() > 0 {
        lemma_tinted_bytes_len(s.drop_first(), t);
    }
}

/// The whole byte stream of one frame: prefix, nonce with checksum, payload.
pub open spec fn spec_frame_bytes(
    s: Seq<crate::color::Color>,
    t: TintProfile,
    hi: u8,
    lo: u8,
) -> Seq<u8> {
    seq![89u8, 124u8, 234u8, hi, lo, hi ^ lo ^ 0x55] + spec_tinted_bytes(s, t)
}

/// A well-formed acknowledgement: the three answered bytes, reversed, are the
/// sync prefix.
pub open spec fn spec_postfix_ok(buf: Seq<u8>) -> bool {
    buf.len() == 3 && seq![buf[2], buf[1], buf[0]] =~= spec_sync_prefix()
}

pub fn postfix_matches(buf: &[u8; 3]) -> (ok: bool)
    ensures
        ok == spec_postfix_ok(buf@),
{
    let ok = buf[2] == 89 && buf[1] == 124 && buf[0] == 234;
    proof {
        if ok {
            assert(seq![buf@[2], buf@[1], buf@[0]] =~= spec_sync_prefix());
        }
    }
    ok
}

/// What the caller saw when it read the 3-byte acknowledgement.
#[derive(Clone, Debug)]
pub enum ReadOutcome {
    /// Three bytes arrived.
    Received { postfix: [u8; 3] },
    /// The read timed out: a slow or silent firmware, not a fault.
    TimedOut,
    /// A hard I/O fault, with the reader's message.
    Failed { message: String },
}

/// How one frame's exchange ended.
#[derive(Clone, Debug)]
pub enum ResponseVerdict {
    /// The acknowledgement matched: the frame is confirmed delivered.
    Accepted,
    /// Some other three bytes came back; the payload was very likely
    /// delivered, so this is logged and the frame counts as delivered.
    AcceptedWrongPostfix { got: [u8; 3] },
    /// Nothing came back in time; same rationale, the frame counts as
    /// delivered.
    AcceptedTimeout,
    /// A hard fault: the frame fails.
    Fatal,
}

impl ResponseVerdict {
    /// Everything but a hard fault counts as delivered.
    pub fn is_delivered(&self) -> (d: bool)
        ensures
            d == !(self is Fatal),
    {
        !matches!(self, ResponseVerdict::Fatal)
    }
}

/// Judges the device's answer: a matching postfix or any recoverable oddity
/// (mismatch, timeout) is success for the frame; only a hard read fault is
/// fatal.
pub fn classify_response(outcome: &ReadOutcome) -> (v: ResponseVerdict)
    ensures
        forall|postfix: [u8; 3]|
            *outcome == (ReadOutcome::Received { postfix }) ==> if spec_postfix_ok(postfix@) {
                v is Accepted
            } else {
                v == (ResponseVerdict::AcceptedWrongPostfix { got: postfix })
            },
        outcome is TimedOut ==> v is AcceptedTimeout,
        outcome is Failed ==> v is Fatal,
{
    match outcome {
        ReadOutcome::Received { postfix } => {
            if postfix_matches(postfix) {
                ResponseVerdict::Accepted
            } else {
                ResponseVerdict::AcceptedWrongPostfix { got: *postfix }
            }
        },
        ReadOutcome::TimedOut => ResponseVerdict::AcceptedTimeout,
        ReadOutcome::Failed { .. } => ResponseVerdict::Fatal,
    }
}

/// The error a frame ends with, if any: only a hard read fault makes one.
pub fn finish_frame(outcome: ReadOutcome) -> (r: Result<ResponseVerdict, PLightError>)
    ensures
        r is Ok <==> !(outcome is Failed),
        outcome is TimedOut ==> r == Ok::<ResponseVerdict, PLightError>(
            ResponseVerdict::AcceptedTimeout,
        ),
        forall|postfix: [u8; 3]|
            outcome == (ReadOutcome::Received { postfix }) ==> r is Ok && if spec_postfix_ok(
                postfix@,
            ) {
                r->Ok_0 is Accepted
            } else {
                r->Ok_0 == (ResponseVerdict::AcceptedWrongPostfix { got: postfix })
            },
        r is Err ==> r->Err_0 is PostfixReading,
{
    match outcome {
        ReadOutcome::Failed { message } => Err(PLightError::PostfixReading { message }),
        other => Ok(classify_response(&other)),
    }
}

/// Relies on `rand::random`: two independently drawn bytes. Nothing is
/// promised of their values; every caller must hold for every outcome. Like
/// an allocation failure, the generator aborts the process if the operating
/// system's entropy source fails at seeding — a fault that depends on no
/// input.
#[verifier::external_body]
fn random_nonce_bytes() -> (u8, u8) {
    (rand::random::<u8>(), rand::random::<u8>())
}

/// The verified half of the transport: it owns the strip length and the tint,
/// and turns a frame of colors into the exact byte stream for the device.
#[derive(Clone, Debug)]
pub struct StripTransport {
    pub strip_length: usize,
    pub tint: TintProfile,
}

impl StripTransport {
    pub open spec fn wf(&self) -> bool {
        self.tint.wf()
    }

    pub fn new(strip_length: usize, tint: TintProfile) -> (t: StripTransport)
        ensures
            t.strip_length == strip_length,
            t.tint == tint,
    {
        StripTransport { strip_length, tint }
    }

    /// The byte stream for one frame with a given nonce: defined exactly, and
    /// owed exactly when the frame's length matches the strip; a mismatch is
    /// the length-mismatch error and produces no bytes at all.
    pub fn encode_frame(&self, led_colors: &LedSequence, hi: u8, lo: u8) -> (r: Result<
        Vec<u8>,
        PLightError,
    >)
        requires
            self.wf(),
        ensures
            r is Ok <==> led_colors@.len() == self.strip_length,
            r is Ok ==> r->Ok_0@ =~= spec_frame_bytes(led_colors@, self.tint, hi, lo),
            r is Ok ==> r->Ok_0@.len() == 6 + 3 * led_colors@.len(),
            r is Err ==> r->Err_0 == (PLightError::WrongLength {
                given: led_colors@.len() as usize,
                actual: self.strip_length,
            }),
    {
        let n = led_colors.len();
        if n != self.strip_length {
            return Err(PLightError::WrongLength { given: n, actual: self.strip_length });
        }
        let mut bytes: Vec<u8> = Vec::new();
        bytes.push(89);
        bytes.push(124);
        bytes.push(234);
        bytes.push(hi);
        bytes.push(lo);
        bytes.push(hi ^ lo ^ 0x55);
        proof {
            assert(bytes@ =~= seq![89u8, 124u8, 234u8, hi, lo, hi ^ lo ^ 0x55]);
        }
        let mut i: usize = 0;
        while i < n
            invariant
                i <= n,
                n == led_colors@.len(),
                self.wf(),
                bytes@ =~= seq![89u8, 124u8, 234u8, hi, lo, hi ^ lo ^ 0x55] + spec_tinted_bytes(
                    led_colors@.subrange(0, i as int),
                    self.tint,
                ),
            decreases n - i,
        {
            let c = *led_colors.get(i).unwrap();
            let (b0, b1, b2) = c.apply_tint(&self.tint);
            bytes.push(b0);
            bytes.push(b1);
            bytes.push(b2);
            proof {
                lemma_tinted_bytes_push(
                    led_colors@.subrange(0, i as int),
                    self.tint,
                    led_colors@[i as int],
                );
                assert(led_colors@.subrange(0, i as int).push(led_colors@[i as int]) =~= led_colors@
                    .subrange(0, i + 1));
            }
            i = i + 1;
        }
        proof {
            assert(led_colors@.subrange(0, n as int) =~= led_colors@);
            lemma_tinted_bytes_len(led_colors@, self.tint);
        }
        Ok(bytes)
    }

    /// One frame with a fresh random nonce: the returned stream is exactly
    /// the encoding of the frame under the two nonce bytes that are handed
    /// back with it, whatever the generator drew.
    pub fn make_frame(&self, led_colors: &LedSequence) -> (r: Result<
        (Vec<u8>, u8, u8),
        PLightError,
    >)
        requires
            self.wf(),
        ensures
            r is Ok <==> led_colors@.len() == self.strip_length,
            r is Ok ==> r->Ok_0.0@ =~= spec_frame_bytes(
                led_colors@,
                self.tint,
                r->Ok_0.1,
                r->Ok_0.2,
            ),
            r is Ok ==> r->Ok_0.0@.len() == 6 + 3 * led_colors@.len(),
            r is Err ==> r->Err_0 == (PLightError::WrongLength {
                given: led_colors@.len() as usize,
                actual: self.strip_length,
            }),
    {
        let (hi, lo) = random_nonce_bytes();
        match self.encode_frame(led_colors, hi, lo) {
            Ok(bytes) => Ok((bytes, hi, lo)),
            Err(e) => Err(e),
        }
    }
}

} // verus!
