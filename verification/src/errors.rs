//! The library's error taxonomy: contract violations (wrong length, bad
//! geometry), transport faults, and upstream signal faults.

use vstd::prelude::*;

verus! {

/// Everything the pipeline can fail with.
#[derive(Clone, Debug)]
pub enum PLightError {
    /// The wallpaper query's output held no `image: <path>` line; the raw
    /// output is kept for the log.
    WrongWallpaperPath { given: Vec<u8> },
    /// The capture stack failed before any frame arrived.
    PipewireError,
    /// The device could not be opened at startup.
    DeviceOpen { message: String },
    /// Reading the acknowledgement failed with a hard I/O fault (not a
    /// timeout).
    PostfixReading { message: String },
    /// A frame whose length does not match the strip.
    WrongLength { given: usize, actual: usize },
    /// The acknowledgement arrived but was not the reversed sync prefix.
    WrongPostfix { got: [u8; 3] },
    /// Strip geometry and image size are inconsistent: a sampling window
    /// would be empty or fall outside the image.
    InvalidGeometry { image_width: usize, image_height: usize },
    /// A gradient color string that does not hold six hex digits.
    InvalidHexColor { given: Vec<u8> },
}

/// Faults of the audio decoding path.
#[derive(Clone, Copy, Debug)]
pub enum AudioError {
    /// The capture buffer handed no data at all.
    NoData,
    /// Only mono and stereo are understood.
    UnsupportedChannels { channels: usize },
    /// A sample encoding the decoder does not know, by its raw format code.
    UnsupportedFormat { code: u32 },
    /// Fewer bytes than one full frame.
    BufferTooShort,
    /// A sample slice whose length does not match the sample size.
    InvalidBytes { len: usize },
}

} // verus!
