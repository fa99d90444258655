//! The request: what to convert and how.
//!
//! Quantities that may carry a fraction are held as integers in
//! thousandths: times in milliseconds, the volume in thousandths of a
//! percent, crop coordinates in thousandths of a pixel.

use vstd::prelude::*;

verus! {

/// What happens to the metadata of the source.
#[derive(Debug, Clone, Copy, PartialEq, Eq, Structural)]
pub enum MetadataMode {
    /// Strip everything.
    Clean,
    /// Strip everything, then write the fields given here.
    Replace,
    /// Keep what is there and write the fields given here over it.
    Preserve,
}

/// The metadata policy and the fields to write.
#[derive(Debug, Clone)]
pub struct MetadataConfig {
    pub mode: MetadataMode,
    pub title: Option<String>,
    pub artist: Option<String>,
    pub album: Option<String>,
    pub genre: Option<String>,
    pub date: Option<String>,
    pub comment: Option<String>,
}

/// A crop rectangle in source pixels, each coordinate in thousandths of a
/// pixel.
#[derive(Debug, Clone, Copy, PartialEq, Eq, Structural)]
pub struct CropConfig {
    pub enabled: bool,
    pub x: i64,
    pub y: i64,
    pub width: i64,
    pub height: i64,
}

/// One requested transformation.
#[derive(Debug, Clone)]
pub struct ConversionConfig {
    pub start_time: Option<String>,
    pub end_time: Option<String>,
    pub container: String,
    pub video_codec: String,
    pub video_bitrate_mode: String,
    pub video_bitrate: String,
    pub crf: u32,
    pub quality: u32,
    pub preset: String,
    pub nvenc_spatial_aq: bool,
    pub nvenc_temporal_aq: bool,
    pub videotoolbox_allow_sw: bool,
    pub flip_horizontal: bool,
    pub flip_vertical: bool,
    pub rotation: String,
    pub crop: Option<CropConfig>,
    pub resolution: String,
    pub scaling_algorithm: String,
    pub custom_width: Option<String>,
    pub custom_height: Option<String>,
    pub fps: String,
    pub subtitle_burn_path: Option<String>,
    pub audio_codec: String,
    pub audio_bitrate: String,
    pub audio_channels: String,
    pub audio_normalize: bool,
    /// The volume in thousandths of a percent: 100000 leaves it unchanged.
    pub audio_volume: u32,
    pub selected_audio_tracks: Vec<u32>,
    pub selected_subtitle_tracks: Vec<u32>,
    pub metadata: MetadataConfig,
    pub ml_upscale: Option<String>,
}

/// One unit of work.
#[derive(Debug, Clone)]
pub struct ConversionTask {
    pub id: String,
    pub file_path: String,
    pub output_name: Option<String>,
    pub config: ConversionConfig,
}

/// A frame rate as a fraction of two whole numbers, frames per second.
#[derive(Debug, Clone, Copy, PartialEq, Eq, Structural)]
pub struct FrameRate {
    pub numerator: u64,
    pub denominator: u64,
}

impl FrameRate {
    /// A frame rate has a denominator other than zero.
    pub open spec fn wf(self) -> bool {
        self.denominator > 0
    }

    /// The rate taken where the source reports none: 30 frames per second.
    pub fn fallback() -> (rate: FrameRate)
        ensures
            rate.wf(),
            rate.numerator == 30,
            rate.denominator == 1,
    {
        FrameRate { numerator: 30, denominator: 1 }
    }
}

} // verus!
