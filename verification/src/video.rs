//! The video branch of a command line: encoder, rate control, preset,
//! encoder switches and the filter chain.

use vstd::prelude::*;
use vstd::string::*;
use crate::number::{append_decimal, decimal_text, rounded_units};
use crate::text::{is_present, join, joined, present, push_char, same_text, to_chars};
use crate::types::{ConversionConfig, CropConfig};
use crate::utils::{
    is_nvenc_codec, is_videotoolbox_codec, map_nvenc_preset, nvenc_codec, nvenc_preset,
    videotoolbox_codec,
};

verus! {

/// Appends one argument.
pub(crate) fn push_arg(args: &mut Vec<String>, arg: String)
    ensures
        final(args).deep_view() == old(args).deep_view().push(arg@),
{
    args.push(arg);
    assert(args.deep_view() =~= old(args).deep_view().push(arg@));
}

/// Appends a flag and its value.
pub(crate) fn push_pair(args: &mut Vec<String>, flag: &str, value: String)
    ensures
        final(args).deep_view() == old(args).deep_view() + seq![flag@, value@],
{
    push_arg(args, flag.to_string());
    push_arg(args, value);
    assert(args.deep_view() =~= old(args).deep_view() + seq![flag@, value@]);
}

/// The nearest whole number to `n / 2`, a half going away from zero.
pub open spec fn half_rounded(n: int) -> int {
    if n >= 0 {
        (n + 1) / 2
    } else {
        -((1 - n) / 2)
    }
}

/// The constant-quality value of the NVENC encoders for a quality setting:
/// `52 - quality / 2` rounded to the nearest whole number and held within
/// 1 and 51.
pub open spec fn nvenc_cq(quality: int) -> int {
    let cq = half_rounded(104 - quality);
    if cq < 1 {
        1
    } else if cq > 51 {
        51
    } else {
        cq
    }
}

/// Computes the constant-quality value for a quality setting.
pub fn nvenc_constant_quality(quality: u32) -> (cq: u32)
    ensures
        cq == nvenc_cq(quality as int),
        1 <= cq <= 51,
        quality == 0 ==> cq == 51,
{
    if quality >= 103 {
        1
    } else {
        let cq = (105 - quality) / 2;
        if cq > 51 {
            51
        } else {
            cq
        }
    }
}

/// On the usual scale of 0 to 100 the constant-quality value is
/// `52 - quality / 2` rounded to the nearest whole number, a half going up:
/// for an even quality twice the value is `104 - quality`, for an odd one
/// it is `105 - quality`. Only at the bottom of the scale, where that would
/// be 52, the value is held at 51.
pub proof fn lemma_nvenc_cq_on_scale(quality: int)
    requires
        0 <= quality <= 100,
    ensures
        1 <= nvenc_cq(quality) <= 51,
        quality >= 2 && quality % 2 == 0 ==> 2 * nvenc_cq(quality) == 104 - quality,
        quality >= 2 && quality % 2 == 1 ==> 2 * nvenc_cq(quality) == 105 - quality,
        quality < 2 ==> nvenc_cq(quality) == 51,
        nvenc_cq(0) == 51,
        nvenc_cq(100) == 2,
{
}

/// A higher quality setting never gives a higher constant-quality value.
pub proof fn lemma_nvenc_cq_falls(low: int, high: int)
    requires
        low <= high,
    ensures
        nvenc_cq(high) <= nvenc_cq(low),
{
}

/// The rate control of the video encoder. A fixed bit rate wins over every
/// quality control; else NVENC gets its constant quality under VBR,
/// VideoToolbox its own quality flag, and any other encoder the CRF.
pub open spec fn rate_control_args(config: &ConversionConfig) -> Seq<Seq<char>> {
    if config.video_bitrate_mode@ == "bitrate"@ {
        seq!["-b:v"@, config.video_bitrate@ + "k"@]
    } else if nvenc_codec(config.video_codec@) {
        seq!["-rc:v"@, "vbr"@, "-cq:v"@, decimal_text(nvenc_cq(config.quality as int) as nat)]
    } else if videotoolbox_codec(config.video_codec@) {
        seq!["-q:v"@, decimal_text(config.quality as nat)]
    } else {
        seq!["-crf"@, decimal_text(config.crf as nat)]
    }
}

/// The preset: none for VideoToolbox, the NVENC name for NVENC, and the
/// configured name for any other encoder.
pub open spec fn preset_args(config: &ConversionConfig) -> Seq<Seq<char>> {
    if videotoolbox_codec(config.video_codec@) {
        Seq::empty()
    } else if nvenc_codec(config.video_codec@) {
        seq!["-preset"@, nvenc_preset(config.preset@)]
    } else {
        seq!["-preset"@, config.preset@]
    }
}

/// The switches that only one family of encoders knows, each only when it
/// is on.
pub open spec fn encoder_switch_args(config: &ConversionConfig) -> Seq<Seq<char>> {
    (if nvenc_codec(config.video_codec@) && config.nvenc_spatial_aq {
        seq!["-spatial_aq"@, "1"@]
    } else {
        Seq::empty()
    }) + (if nvenc_codec(config.video_codec@) && config.nvenc_temporal_aq {
        seq!["-temporal_aq"@, "1"@]
    } else {
        Seq::empty()
    }) + (if videotoolbox_codec(config.video_codec@) && config.videotoolbox_allow_sw {
        seq!["-allow_sw"@, "1"@]
    } else {
        Seq::empty()
    })
}

/// Appends the rate control.
pub(crate) fn push_rate_control(args: &mut Vec<String>, config: &ConversionConfig)
    ensures
        final(args).deep_view() == old(args).deep_view() + rate_control_args(config),
{
    if same_text(config.video_bitrate_mode.as_str(), "bitrate") {
        let mut value = config.video_bitrate.clone();
        value.append("k");
        push_pair(args, "-b:v", value);
    } else if is_nvenc_codec(config.video_codec.as_str()) {
        push_pair(args, "-rc:v", "vbr".to_string());
        let mut value = String::new();
        append_decimal(&mut value, nvenc_constant_quality(config.quality) as u64);
        assert(value@ =~= decimal_text(nvenc_cq(config.quality as int) as nat));
        push_pair(args, "-cq:v", value);
        assert(args.deep_view() =~= old(args).deep_view() + rate_control_args(config));
    } else if is_videotoolbox_codec(config.video_codec.as_str()) {
        let mut value = String::new();
        append_decimal(&mut value, config.quality as u64);
        assert(value@ =~= decimal_text(config.quality as nat));
        push_pair(args, "-q:v", value);
    } else {
        let mut value = String::new();
        append_decimal(&mut value, config.crf as u64);
        assert(value@ =~= decimal_text(config.crf as nat));
        push_pair(args, "-crf", value);
    }
}

/// Appends the preset, where the encoder has one.
pub(crate) fn push_preset(args: &mut Vec<String>, config: &ConversionConfig)
    ensures
        final(args).deep_view() == old(args).deep_view() + preset_args(config),
{
    if is_videotoolbox_codec(config.video_codec.as_str()) {
        assert(args.deep_view() =~= old(args).deep_view() + preset_args(config));
    } else if is_nvenc_codec(config.video_codec.as_str()) {
        push_pair(args, "-preset", map_nvenc_preset(config.preset.as_str()));
    } else {
        push_pair(args, "-preset", config.preset.clone());
    }
}

/// Appends the switches of the encoder that are on.
pub(crate) fn push_encoder_switches(args: &mut Vec<String>, config: &ConversionConfig)
    ensures
        final(args).deep_view() == old(args).deep_view() + encoder_switch_args(config),
{
    let nvenc = is_nvenc_codec(config.video_codec.as_str());
    if nvenc && config.nvenc_spatial_aq {
        push_pair(args, "-spatial_aq", "1".to_string());
    }
    if nvenc && config.nvenc_temporal_aq {
        push_pair(args, "-temporal_aq", "1".to_string());
    }
    if is_videotoolbox_codec(config.video_codec.as_str()) && config.videotoolbox_allow_sw {
        push_pair(args, "-allow_sw", "1".to_string());
    }
    assert(args.deep_view() =~= old(args).deep_view() + encoder_switch_args(config));
}

/// A width or height of the crop in whole pixels: rounded to the nearest
/// pixel, at least 1, and no more than a 32-bit signed number holds.
pub open spec fn crop_extent(thousandths: int) -> int {
    let units = rounded_units(if thousandths < 1000 {
        1000
    } else {
        thousandths
    });
    if units > i32::MAX {
        i32::MAX as int
    } else {
        units
    }
}

/// A corner coordinate of the crop in whole pixels: rounded to the nearest
/// pixel, at least 0, and no more than a 32-bit signed number holds.
pub open spec fn crop_offset(thousandths: int) -> int {
    let units = rounded_units(if thousandths < 0 {
        0
    } else {
        thousandths
    });
    if units > i32::MAX {
        i32::MAX as int
    } else {
        units
    }
}

/// Rounds thousandths to whole units.
fn round_units(thousandths: i64) -> (units: u64)
    requires
        thousandths >= 0,
    ensures
        units == rounded_units(thousandths as int),
{
    let t = thousandths as u64;
    if t % 1000 >= 500 {
        t / 1000 + 1
    } else {
        t / 1000
    }
}

/// Computes a width or height of the crop in whole pixels.
pub fn crop_extent_pixels(thousandths: i64) -> (pixels: u32)
    ensures
        pixels == crop_extent(thousandths as int),
        1 <= pixels <= i32::MAX,
{
    let units = round_units(if thousandths < 1000 {
        1000
    } else {
        thousandths
    });
    if units > 2147483647 {
        2147483647
    } else {
        units as u32
    }
}

/// Computes a corner coordinate of the crop in whole pixels.
pub fn crop_offset_pixels(thousandths: i64) -> (pixels: u32)
    ensures
        pixels == crop_offset(thousandths as int),
        0 <= pixels <= i32::MAX,
{
    let units = round_units(if thousandths < 0 {
        0
    } else {
        thousandths
    });
    if units > 2147483647 {
        2147483647
    } else {
        units as u32
    }
}

/// The crop filter: `crop=W:H:X:Y` in whole pixels.
pub open spec fn crop_filter(crop: CropConfig) -> Seq<char> {
    "crop="@ + decimal_text(crop_extent(crop.width as int) as nat) + ":"@ + decimal_text(
        crop_extent(crop.height as int) as nat,
    ) + ":"@ + decimal_text(crop_offset(crop.x as int) as nat) + ":"@ + decimal_text(
        crop_offset(crop.y as int) as nat,
    )
}

/// Writes the crop filter.
pub fn crop_filter_text(crop: &CropConfig) -> (filter: String)
    ensures
        filter@ == crop_filter(*crop),
{
    let mut filter = "crop=".to_string();
    append_decimal(&mut filter, crop_extent_pixels(crop.width) as u64);
    filter.append(":");
    append_decimal(&mut filter, crop_extent_pixels(crop.height) as u64);
    filter.append(":");
    append_decimal(&mut filter, crop_offset_pixels(crop.x) as u64);
    filter.append(":");
    append_decimal(&mut filter, crop_offset_pixels(crop.y) as u64);
    assert(filter@ =~= crop_filter(*crop));
    filter
}

/// The crop filter of a configuration, where cropping is on.
pub open spec fn crop_filters(config: &ConversionConfig) -> Seq<Seq<char>> {
    match config.crop {
        Some(crop) if crop.enabled => seq![crop_filter(crop)],
        _ => Seq::empty(),
    }
}

/// How one character of a subtitle path is written inside the filter: a
/// backslash becomes a slash, a colon is escaped.
pub open spec fn escaped_char(c: char) -> Seq<char> {
    if c == '\\' {
        seq!['/']
    } else if c == ':' {
        seq!['\\', ':']
    } else {
        seq![c]
    }
}

/// A subtitle path as it is written inside the filter.
pub open spec fn escaped_path(path: Seq<char>) -> Seq<char>
    decreases path.len(),
{
    if path.len() == 0 {
        Seq::empty()
    } else {
        escaped_path(path.drop_last()) + escaped_char(path.last())
    }
}

/// The filter that burns subtitles into the picture.
pub open spec fn subtitle_filter(path: Seq<char>) -> Seq<char> {
    "subtitles='"@ + escaped_path(path) + "'"@
}

/// Writes the filter that burns subtitles into the picture.
pub fn subtitle_filter_text(path: &str) -> (filter: String)
    ensures
        filter@ == subtitle_filter(path@),
{
    let chars = to_chars(path);
    let mut filter = "subtitles='".to_string();
    let mut i: usize = 0;
    assert(chars@.take(0) =~= Seq::<char>::empty());
    assert(filter@ =~= "subtitles='"@ + escaped_path(chars@.take(0)));
    while i < chars.len()
        invariant
            i <= chars.len(),
            filter@ == "subtitles='"@ + escaped_path(chars@.take(i as int)),
        decreases chars.len() - i,
    {
        let c = chars[i];
        let ghost before = filter@;
        if c == '\\' {
            push_char(&mut filter, '/');
        } else if c == ':' {
            push_char(&mut filter, '\\');
            push_char(&mut filter, ':');
        } else {
            push_char(&mut filter, c);
        }
        proof {
            assert(chars@.take(i + 1).drop_last() =~= chars@.take(i as int));
            assert(chars@.take(i + 1).last() == c);
            assert(filter@ =~= before + escaped_char(c));
            assert(filter@ =~= "subtitles='"@ + escaped_path(chars@.take(i + 1)));
        }
        i = i + 1;
    }
    assert(chars@.take(chars@.len() as int) =~= chars@);
    filter.append("'");
    filter
}

/// The hint that names the scaling algorithm; empty for an unknown name.
pub open spec fn algorithm_hint(algorithm: Seq<char>) -> Seq<char> {
    if algorithm == "lanczos"@ {
        ":flags=lanczos"@
    } else if algorithm == "bilinear"@ {
        ":flags=bilinear"@
    } else if algorithm == "nearest"@ {
        ":flags=neighbor"@
    } else if algorithm == "bicubic"@ {
        ":flags=bicubic"@
    } else {
        Seq::empty()
    }
}

/// A custom dimension as configured; `-1`, which leaves it open, where none
/// is given.
pub open spec fn custom_dimension(dimension: Option<String>) -> Seq<char> {
    match dimension {
        Some(d) => d@,
        None => "-1"@,
    }
}

/// The scale stage for a custom size. With both sides fixed the picture is
/// scaled down into the box and padded to it; with both open nothing is
/// changed; with one open the other decides.
pub open spec fn custom_scale_filter(w: Seq<char>, h: Seq<char>, hint: Seq<char>) -> Seq<char> {
    if w != "-1"@ && h != "-1"@ {
        "scale="@ + w + ":"@ + h + ":force_original_aspect_ratio=decrease"@ + hint + ",pad="@ + w
            + ":"@ + h + ":(ow-iw)/2:(oh-ih)/2"@
    } else if w == "-1"@ && h == "-1"@ {
        "scale=-1:-1"@
    } else {
        "scale="@ + w + ":"@ + h + hint
    }
}

/// The scale stage for a named size: the height is fixed and the width
/// follows, kept even.
pub open spec fn named_scale_filter(resolution: Seq<char>, hint: Seq<char>) -> Seq<char> {
    if resolution == "1080p"@ {
        "scale=-2:1080"@ + hint
    } else if resolution == "720p"@ {
        "scale=-2:720"@ + hint
    } else if resolution == "480p"@ {
        "scale=-2:480"@ + hint
    } else {
        "scale=-1:-1"@
    }
}

/// The scale stage of a configuration; none where the size stays as it is.
pub open spec fn scale_filters(config: &ConversionConfig) -> Seq<Seq<char>> {
    if config.resolution@ == "original"@ {
        Seq::empty()
    } else if config.resolution@ == "custom"@ {
        seq![
            custom_scale_filter(
                custom_dimension(config.custom_width),
                custom_dimension(config.custom_height),
                algorithm_hint(config.scaling_algorithm@),
            ),
        ]
    } else {
        seq![named_scale_filter(config.resolution@, algorithm_hint(config.scaling_algorithm@))]
    }
}

/// The hint for a scaling algorithm.
fn algorithm_hint_text(algorithm: &str) -> (hint: &'static str)
    ensures
        hint@ == algorithm_hint(algorithm@),
{
    if same_text(algorithm, "lanczos") {
        ":flags=lanczos"
    } else if same_text(algorithm, "bilinear") {
        ":flags=bilinear"
    } else if same_text(algorithm, "nearest") {
        ":flags=neighbor"
    } else if same_text(algorithm, "bicubic") {
        ":flags=bicubic"
    } else {
        proof {
            reveal_strlit("");
            assert(""@ =~= Seq::<char>::empty());
        }
        ""
    }
}

/// A custom dimension as configured, or `-1`.
fn custom_dimension_text(dimension: &Option<String>) -> (text: String)
    ensures
        text@ == custom_dimension(*dimension),
{
    match dimension {
        Some(d) => d.clone(),
        None => "-1".to_string(),
    }
}

/// Writes the scale stage for a custom size.
fn custom_scale_filter_text(w: &str, h: &str, hint: &str) -> (filter: String)
    ensures
        filter@ == custom_scale_filter(w@, h@, hint@),
{
    let w_open = same_text(w, "-1");
    let h_open = same_text(h, "-1");
    if !w_open && !h_open {
        let mut filter = "scale=".to_string();
        filter.append(w);
        filter.append(":");
        filter.append(h);
        filter.append(":force_original_aspect_ratio=decrease");
        filter.append(hint);
        filter.append(",pad=");
        filter.append(w);
        filter.append(":");
        filter.append(h);
        filter.append(":(ow-iw)/2:(oh-ih)/2");
        filter
    } else if w_open && h_open {
        "scale=-1:-1".to_string()
    } else {
        let mut filter = "scale=".to_string();
        filter.append(w);
        filter.append(":");
        filter.append(h);
        filter.append(hint);
        filter
    }
}

/// Writes the scale stage for a named size.
fn named_scale_filter_text(resolution: &str, hint: &str) -> (filter: String)
    ensures
        filter@ == named_scale_filter(resolution@, hint@),
{
    if same_text(resolution, "1080p") {
        let mut filter = "scale=-2:1080".to_string();
        filter.append(hint);
        filter
    } else if same_text(resolution, "720p") {
        let mut filter = "scale=-2:720".to_string();
        filter.append(hint);
        filter
    } else if same_text(resolution, "480p") {
        let mut filter = "scale=-2:480".to_string();
        filter.append(hint);
        filter
    } else {
        "scale=-1:-1".to_string()
    }
}

/// The turn of the picture: a quarter turn is one transpose, a half turn
/// two, three quarters the opposite transpose; anything else is no turn.
pub open spec fn rotation_filters(rotation: Seq<char>) -> Seq<Seq<char>> {
    if rotation == "90"@ {
        seq!["transpose=1"@]
    } else if rotation == "180"@ {
        seq!["transpose=1,transpose=1"@]
    } else if rotation == "270"@ {
        seq!["transpose=2"@]
    } else {
        Seq::empty()
    }
}

/// The subtitle filter of a configuration, where a path is given.
pub open spec fn subtitle_filters(config: &ConversionConfig) -> Seq<Seq<char>> {
    if present(config.subtitle_burn_path) {
        seq![subtitle_filter(config.subtitle_burn_path.unwrap()@)]
    } else {
        Seq::empty()
    }
}

/// The flips of a configuration.
pub open spec fn flip_filters(config: &ConversionConfig) -> Seq<Seq<char>> {
    (if config.flip_horizontal {
        seq!["hflip"@]
    } else {
        Seq::empty()
    }) + (if config.flip_vertical {
        seq!["vflip"@]
    } else {
        Seq::empty()
    })
}

/// The filters of a configuration in the order in which they apply: flips,
/// turn, crop, subtitles, scale.
pub open spec fn video_filters(config: &ConversionConfig) -> Seq<Seq<char>> {
    flip_filters(config) + rotation_filters(config.rotation@) + crop_filters(config)
        + subtitle_filters(config) + scale_filters(config)
}

/// The filter flag: all filters in one argument, joined by commas; nothing
/// where there is no filter.
pub open spec fn filter_args(config: &ConversionConfig) -> Seq<Seq<char>> {
    if video_filters(config).len() > 0 {
        seq!["-vf"@, joined(video_filters(config), ","@)]
    } else {
        Seq::empty()
    }
}

/// Builds the video filters of a configuration.
pub fn build_video_filters(config: &ConversionConfig) -> (filters: Vec<String>)
    ensures
        filters.deep_view() == video_filters(config),
{
    let mut filters: Vec<String> = Vec::new();
    assert(filters.deep_view() =~= Seq::<Seq<char>>::empty());
    if config.flip_horizontal {
        push_arg(&mut filters, "hflip".to_string());
    }
    if config.flip_vertical {
        push_arg(&mut filters, "vflip".to_string());
    }
    assert(filters.deep_view() =~= flip_filters(config));
    let ghost flips = filters.deep_view();
    let rotation = config.rotation.as_str();
    if same_text(rotation, "90") {
        push_arg(&mut filters, "transpose=1".to_string());
    } else if same_text(rotation, "180") {
        push_arg(&mut filters, "transpose=1,transpose=1".to_string());
    } else if same_text(rotation, "270") {
        push_arg(&mut filters, "transpose=2".to_string());
    }
    assert(filters.deep_view() =~= flips + rotation_filters(config.rotation@));
    let ghost turned = filters.deep_view();
    match &config.crop {
        Some(crop) => {
            if crop.enabled {
                push_arg(&mut filters, crop_filter_text(crop));
            }
        },
        None => {},
    }
    assert(filters.deep_view() =~= turned + crop_filters(config));
    let ghost cropped = filters.deep_view();
    if is_present(&config.subtitle_burn_path) {
        match &config.subtitle_burn_path {
            Some(path) => {
                push_arg(&mut filters, subtitle_filter_text(path.as_str()));
            },
            None => {},
        }
    }
    assert(filters.deep_view() =~= cropped + subtitle_filters(config));
    let ghost burned = filters.deep_view();
    let resolution = config.resolution.as_str();
    if !same_text(resolution, "original") {
        let hint = algorithm_hint_text(config.scaling_algorithm.as_str());
        if same_text(resolution, "custom") {
            let w = custom_dimension_text(&config.custom_width);
            let h = custom_dimension_text(&config.custom_height);
            push_arg(&mut filters, custom_scale_filter_text(w.as_str(), h.as_str(), hint));
        } else {
            push_arg(&mut filters, named_scale_filter_text(resolution, hint));
        }
    }
    assert(filters.deep_view() =~= burned + scale_filters(config));
    assert(filters.deep_view() =~= video_filters(config));
    filters
}

/// Appends the filter flag, where there is a filter.
pub(crate) fn push_filters(args: &mut Vec<String>, config: &ConversionConfig)
    ensures
        final(args).deep_view() == old(args).deep_view() + filter_args(config),
{
    let filters = build_video_filters(config);
    if filters.len() > 0 {
        push_pair(args, "-vf", join(&filters, ","));
    } else {
        assert(args.deep_view() =~= old(args).deep_view() + filter_args(config));
    }
}

} // verus!
