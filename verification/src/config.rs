//! Configuration values as the pipeline consumes them: already parsed,
//! already validated, plain data. Loading, defaulting and templating belong
//! to the collaborator that owns the configuration file.

use vstd::prelude::*;

use crate::behaviors::BehaviorMod;
use crate::color::TintProfile;
use crate::sources::SourceMod;

verus! {

/// How a sampling window is reduced to one color.
#[derive(Clone, Copy, PartialEq, Eq, Structural, Debug)]
pub enum ParseMode {
    Average,
    Median,
}

#[derive(Clone, Copy, PartialEq, Eq, Structural, Debug)]
pub struct GlobalConf {
    pub parse_mode: ParseMode,
}

/// The strip's physical geometry and its device binding.
#[derive(Clone, Debug)]
pub struct StripConf {
    /// LEDs along the top or bottom edge.
    pub width: usize,
    /// LEDs along the left or right edge.
    pub height: usize,
    /// LEDs missing from the bottom edge's center.
    pub bottom_gap: usize,
    /// Pixels of image corner skipped before the edge cells start.
    pub corner_size_p: usize,
    /// Pixel depth of each sampling window, measured from the edge inwards.
    pub thickness_p: usize,
    pub serial_port: String,
    pub baudrate: u32,
    pub tint: TintProfile,
}

impl StripConf {
    /// Geometry sanity: the gap fits in the bottom edge and splits it evenly,
    /// and the edge counts are small enough that every length computation
    /// stays in bounds.
    pub open spec fn wf(&self) -> bool {
        &&& 0 < self.width <= 0x10000
        &&& 0 < self.height <= 0x10000
        &&& self.bottom_gap <= self.width
        &&& (self.width - self.bottom_gap) % 2 == 0
        &&& self.corner_size_p <= 0x10000
        &&& self.thickness_p <= 0x10000
        &&& self.tint.wf()
    }

    /// The strip's LED count: the perimeter minus the bottom gap.
    pub open spec fn spec_len(&self) -> int {
        2 * self.width + 2 * self.height - self.bottom_gap
    }

    /// Half the bottom edge: the LEDs between the gap and one bottom corner.
    pub open spec fn spec_half_bottom(&self) -> int {
        (self.width - self.bottom_gap) as int / 2
    }

    pub fn len(&self) -> (l: usize)
        requires
            self.wf(),
        ensures
            l == self.spec_len(),
    {
        2 * self.width + 2 * self.height - self.bottom_gap
    }
}

/// Solid color source configuration.
#[derive(Clone, Copy, PartialEq, Eq, Debug)]
pub struct ColorSrcConf {
    pub color: [u8; 3],
}

#[derive(Clone, Copy, PartialEq, Eq, Structural, Debug)]
pub struct ScreenSrcConf {}

/// Which external wallpaper daemon answers the query.
#[derive(Clone, Copy, PartialEq, Eq, Structural, Debug)]
pub enum WallpaperEngine {
    Swww,
}

#[derive(Clone, Copy, PartialEq, Eq, Structural, Debug)]
pub struct WallpaperSrcConf {
    pub engine: WallpaperEngine,
}

#[derive(Clone, Copy, PartialEq, Eq, Debug)]
pub struct SourcesConf {
    pub color: ColorSrcConf,
    pub screen: ScreenSrcConf,
    pub wallpaper: WallpaperSrcConf,
}

#[derive(Clone, Copy, PartialEq, Eq, Structural, Debug)]
pub struct SolidBhvConf {}

/// Audio behavior tuning: smoothing rates in thousandths, window bounds in
/// hundredths of a decibel.
#[derive(Clone, Copy, PartialEq, Eq, Structural, Debug)]
pub struct AudioBhvConf {
    /// Rate of the smoothing step towards a louder level, in thousandths.
    pub attack_milli: u32,
    /// Rate of the smoothing step towards a quieter level, in thousandths.
    pub decay_milli: u32,
    /// Loudness mapped to level 0, in centi-decibels.
    pub min_level_centi_db: i32,
    /// Loudness mapped to level 1, in centi-decibels.
    pub max_level_centi_db: i32,
}

impl AudioBhvConf {
    pub open spec fn wf(&self) -> bool {
        &&& self.attack_milli <= 1000
        &&& self.decay_milli <= 1000
        &&& self.min_level_centi_db < self.max_level_centi_db
    }
}

#[derive(Clone, Copy, PartialEq, Eq, Structural, Debug)]
pub struct BehaviorsConf {
    pub solid: SolidBhvConf,
    pub audio: AudioBhvConf,
}

/// Where the cava gradient colors are read from.
#[derive(Clone, Debug)]
pub struct CavaWallDcolModConf {
    pub path_to_dcol: String,
}

/// The gradient color strings of a cava `Wall-Dcol` file, as hex colors.
#[derive(Clone, Debug)]
pub struct CavaGradientsColorConf {
    pub gradient_color_2: String,
    pub gradient_color_5: String,
    pub gradient_color_6: String,
    pub gradient_color_7: String,
    pub gradient_color_8: String,
}

#[derive(Clone, Debug)]
pub struct CavaGradientsConf {
    pub color: CavaGradientsColorConf,
}

/// Configuration of the solid color run mode.
#[derive(Clone, Copy, PartialEq, Eq, Debug)]
pub struct ColorModConf {
    pub color: [u8; 3],
}

/// Configuration of the screen capture run mode.
#[derive(Clone, Copy, PartialEq, Eq, Structural, Debug)]
pub struct ScreenModConf {
    pub capture_fps: u32,
}

/// The whole configuration as the core consumes it.
#[derive(Clone, Debug)]
pub struct Conf {
    pub global: GlobalConf,
    pub strip: StripConf,
    pub source: SourceMod,
    pub sources: SourcesConf,
    pub behavior: BehaviorMod,
    pub modes: BehaviorsConf,
}

} // verus!
