//! Core of an ambient LED strip driver: colors and the tint transform that
//! readies them for the wire, fixed-length LED frames, the framed serial
//! protocol with its checksummed nonce and acknowledgement rules, the mapping
//! of captured images onto the physical ring, the audio loudness envelope,
//! and the source/behavior stages that the render loop is built from.
//!
//! Everything in this crate is verified; device I/O, capture streams and
//! configuration files live with the program around it, which exchanges plain
//! values with these modules.

pub mod audio;
pub mod behaviors;
pub mod color;
pub mod config;
pub mod convert;
pub mod errors;
pub mod sampler;
pub mod sequence;
pub mod sources;
pub mod timer;
pub mod transport;

use vstd::prelude::*;

verus! {

} // verus!
