//! The argument compiler: from a conversion request to the ordered argument
//! list of the transcoder.

use vstd::prelude::*;
use vstd::slice::*;
use vstd::string::*;
use crate::error::{ConversionError, ErrorKind};
use crate::number::{
    append_decimal, append_fixed2, append_fixed3, decimal_text, fixed2_text, fixed3_text,
    i32_value, is_number, is_positive_number, number_sign, parse_i32,
};
use crate::path::{
    add_default_extension, join_path, joined_path, parent_dir, parent_dir_len,
    with_default_extension,
};
use crate::text::{
    from_chars, is_present, join, joined, present, same_text, to_chars, trim, trimmed,
};
use crate::types::{ConversionConfig, MetadataConfig, MetadataMode};
use crate::utils::{audio_only_container, is_audio_only_container, parse_time, parsed_time};
use crate::video::{
    custom_dimension, encoder_switch_args, filter_args, preset_args, push_arg,
    push_encoder_switches, push_filters, push_pair, push_preset, push_rate_control,
    rate_control_args,
};

verus! {

/// The volume, in thousandths of a percent, that leaves the sound as it is.
pub const VOLUME_UNCHANGED: u32 = 100000;

/// How far the volume may lie from `VOLUME_UNCHANGED`, in thousandths of a
/// percent, and still count as unchanged.
pub const VOLUME_EPSILON: u32 = 10;

/// The seek before the input: given where a start time is set.
pub open spec fn seek_args(config: &ConversionConfig) -> Seq<Seq<char>> {
    if present(config.start_time) {
        seq!["-ss"@, config.start_time.unwrap()@]
    } else {
        Seq::empty()
    }
}

/// The end of the clip. With a start and an end that both read as times,
/// the length between them in seconds with three decimal places, and
/// nothing unless the end lies after the start. With an end alone, the end
/// itself as written. Without an end, nothing.
pub open spec fn clip_args(config: &ConversionConfig) -> Seq<Seq<char>> {
    if !present(config.end_time) {
        Seq::empty()
    } else if !present(config.start_time) {
        seq!["-to"@, config.end_time.unwrap()@]
    } else {
        match (parsed_time(config.start_time.unwrap()@), parsed_time(config.end_time.unwrap()@)) {
            (Some(start), Some(end)) if end > start => seq![
                "-t"@,
                fixed3_text((end - start) as nat),
            ],
            _ => Seq::empty(),
        }
    }
}

/// One metadata field: the flag and `key=value`, where the value is given
/// and not empty. `key` comes with its equals sign.
pub open spec fn metadata_field(key: Seq<char>, value: Option<String>) -> Seq<Seq<char>> {
    if present(value) {
        seq!["-metadata"@, key + value.unwrap()@]
    } else {
        Seq::empty()
    }
}

/// The metadata fields that are given, in a fixed order.
pub open spec fn metadata_flags(metadata: &MetadataConfig) -> Seq<Seq<char>> {
    metadata_field("title="@, metadata.title) + metadata_field("artist="@, metadata.artist)
        + metadata_field("album="@, metadata.album) + metadata_field("genre="@, metadata.genre)
        + metadata_field("date="@, metadata.date) + metadata_field("comment="@, metadata.comment)
}

/// The flag that strips all metadata of the source.
pub open spec fn strip_metadata_args() -> Seq<Seq<char>> {
    seq!["-map_metadata"@, "-1"@]
}

/// The metadata part of the command line.
pub open spec fn metadata_args(metadata: &MetadataConfig) -> Seq<Seq<char>> {
    match metadata.mode {
        MetadataMode::Clean => strip_metadata_args(),
        MetadataMode::Replace => strip_metadata_args() + metadata_flags(metadata),
        MetadataMode::Preserve => metadata_flags(metadata),
    }
}

/// The frame-rate flag, unless the rate stays as it is.
pub open spec fn frame_rate_args(config: &ConversionConfig) -> Seq<Seq<char>> {
    if config.fps@ != "original"@ {
        seq!["-r"@, config.fps@]
    } else {
        Seq::empty()
    }
}

/// What selects and configures the video encoder: the codec, its rate
/// control, its preset and its switches.
pub open spec fn encoder_args(config: &ConversionConfig) -> Seq<Seq<char>> {
    seq!["-c:v"@, config.video_codec@] + rate_control_args(config) + preset_args(config)
        + encoder_switch_args(config)
}

/// The video part of the command line: video is switched off for a
/// container that holds sound only.
pub open spec fn video_args(config: &ConversionConfig) -> Seq<Seq<char>> {
    if audio_only_container(config.container@) {
        seq!["-vn"@]
    } else {
        encoder_args(config) + filter_args(config) + frame_rate_args(config)
    }
}

/// One map flag for each selected track, in the order of selection.
pub open spec fn track_maps(tracks: Seq<u32>) -> Seq<Seq<char>>
    decreases tracks.len(),
{
    if tracks.len() == 0 {
        Seq::empty()
    } else {
        track_maps(tracks.drop_last()) + seq!["-map"@, "0:"@ + decimal_text(tracks.last() as nat)]
    }
}

/// The first video stream, mapped by name once any track is selected by
/// hand and video is on.
pub open spec fn primary_video_map(config: &ConversionConfig) -> Seq<Seq<char>> {
    if (config.selected_audio_tracks@.len() > 0 || config.selected_subtitle_tracks@.len() > 0)
        && !audio_only_container(config.container@) {
        seq!["-map"@, "0:v:0"@]
    } else {
        Seq::empty()
    }
}

/// The selected audio tracks and, with any selected, the audio codec.
pub open spec fn audio_map_args(config: &ConversionConfig) -> Seq<Seq<char>> {
    if config.selected_audio_tracks@.len() > 0 {
        track_maps(config.selected_audio_tracks@) + seq!["-c:a"@, config.audio_codec@]
    } else {
        Seq::empty()
    }
}

/// The selected subtitle tracks; with none selected and video on, all
/// subtitles of the source if it has any.
pub open spec fn subtitle_map_args(config: &ConversionConfig) -> Seq<Seq<char>> {
    if config.selected_subtitle_tracks@.len() > 0 {
        track_maps(config.selected_subtitle_tracks@)
    } else if !audio_only_container(config.container@) {
        seq!["-map"@, "0:s?"@]
    } else {
        Seq::empty()
    }
}

/// Subtitles are copied as they are, unless they are burnt into the
/// picture.
pub open spec fn subtitle_codec_args(config: &ConversionConfig) -> Seq<Seq<char>> {
    if !present(config.subtitle_burn_path) {
        seq!["-c:s"@, "copy"@]
    } else {
        Seq::empty()
    }
}

/// The mapping of streams.
pub open spec fn stream_args(config: &ConversionConfig) -> Seq<Seq<char>> {
    primary_video_map(config) + audio_map_args(config) + subtitle_map_args(config)
        + subtitle_codec_args(config)
}

/// Audio codecs that keep every bit and so take no bit rate.
pub open spec fn lossless_audio_codec(codec: Seq<char>) -> bool {
    codec == "flac"@ || codec == "alac"@ || codec == "pcm_s16le"@
}

/// The audio bit rate: given once an audio track is selected and the codec
/// is not lossless.
pub open spec fn audio_bitrate_args(config: &ConversionConfig) -> Seq<Seq<char>> {
    if !lossless_audio_codec(config.audio_codec@) && config.selected_audio_tracks@.len() > 0 {
        seq!["-b:a"@, config.audio_bitrate@ + "k"@]
    } else {
        Seq::empty()
    }
}

/// The number of channels: two for stereo, one for mono, else left open.
pub open spec fn channel_args(config: &ConversionConfig) -> Seq<Seq<char>> {
    if config.audio_channels@ == "stereo"@ {
        seq!["-ac"@, "2"@]
    } else if config.audio_channels@ == "mono"@ {
        seq!["-ac"@, "1"@]
    } else {
        Seq::empty()
    }
}

/// Whether the volume differs from unchanged by more than the epsilon.
pub open spec fn volume_changed(volume: u32) -> bool {
    volume > VOLUME_UNCHANGED + VOLUME_EPSILON || volume + VOLUME_EPSILON < VOLUME_UNCHANGED
}

/// The volume as a factor in hundredths: the thousandths of a percent
/// divided by a thousand and rounded to the nearest, a half going to the
/// even neighbour.
pub open spec fn volume_hundredths(volume: u32) -> nat {
    let whole = (volume / 1000) as nat;
    let rest = volume % 1000;
    if rest > 500 || (rest == 500 && whole % 2 == 1) {
        whole + 1
    } else {
        whole
    }
}

/// The audio filters: loudness normalisation where asked for, then the
/// volume where it is changed.
pub open spec fn audio_filters(config: &ConversionConfig) -> Seq<Seq<char>> {
    (if config.audio_normalize {
        seq!["loudnorm=I=-16:TP=-1.5:LRA=11"@]
    } else {
        Seq::empty()
    }) + (if volume_changed(config.audio_volume) {
        seq!["volume="@ + fixed2_text(volume_hundredths(config.audio_volume))]
    } else {
        Seq::empty()
    })
}

/// The audio filter flag: all filters in one argument, joined by commas.
pub open spec fn audio_filter_args(config: &ConversionConfig) -> Seq<Seq<char>> {
    if audio_filters(config).len() > 0 {
        seq!["-af"@, joined(audio_filters(config), ","@)]
    } else {
        Seq::empty()
    }
}

/// The argument list for one conversion, part by part in the order that
/// the transcoder expects.
pub open spec fn ffmpeg_args(input: Seq<char>, output: Seq<char>, config: &ConversionConfig) -> Seq<
    Seq<char>,
> {
    seek_args(config) + seq!["-i"@, input] + clip_args(config) + metadata_args(&config.metadata)
        + video_args(config) + stream_args(config) + audio_bitrate_args(config) + channel_args(
        config,
    ) + audio_filter_args(config) + seq!["-y"@, output]
}

/// Appends the seek.
pub(crate) fn push_seek(args: &mut Vec<String>, config: &ConversionConfig)
    ensures
        final(args).deep_view() == old(args).deep_view() + seek_args(config),
{
    if is_present(&config.start_time) {
        match &config.start_time {
            Some(start) => {
                push_pair(args, "-ss", start.clone());
            },
            None => {},
        }
    } else {
        assert(args.deep_view() =~= old(args).deep_view() + seek_args(config));
    }
}

/// Appends the end of the clip.
pub(crate) fn push_clip(args: &mut Vec<String>, config: &ConversionConfig)
    ensures
        final(args).deep_view() == old(args).deep_view() + clip_args(config),
{
    assert(args.deep_view() =~= old(args).deep_view() + Seq::<Seq<char>>::empty());
    if !is_present(&config.end_time) {
        return ;
    }
    match (&config.start_time, &config.end_time) {
        (Some(start), Some(end)) => {
            if is_present(&config.start_time) {
                match (parse_time(start.as_str()), parse_time(end.as_str())) {
                    (Some(from), Some(to)) => {
                        if to > from {
                            let mut length = String::new();
                            append_fixed3(&mut length, to - from);
                            assert(length@ =~= fixed3_text((to - from) as nat));
                            push_pair(args, "-t", length);
                        }
                    },
                    _ => {},
                }
            } else {
                push_pair(args, "-to", end.clone());
            }
        },
        (None, Some(end)) => {
            push_pair(args, "-to", end.clone());
        },
        _ => {},
    }
}

/// Appends one metadata field, where it is given.
fn push_metadata_field(args: &mut Vec<String>, key: &str, value: &Option<String>)
    ensures
        final(args).deep_view() == old(args).deep_view() + metadata_field(key@, *value),
{
    if is_present(value) {
        match value {
            Some(v) => {
                let mut entry = key.to_string();
                entry.append(v.as_str());
                push_pair(args, "-metadata", entry);
            },
            None => {},
        }
    } else {
        assert(args.deep_view() =~= old(args).deep_view() + metadata_field(key@, *value));
    }
}

/// Appends the metadata fields that are given and not empty.
pub fn add_metadata_flags(args: &mut Vec<String>, metadata: &MetadataConfig)
    ensures
        final(args).deep_view() == old(args).deep_view() + metadata_flags(metadata),
{
    push_metadata_field(args, "title=", &metadata.title);
    push_metadata_field(args, "artist=", &metadata.artist);
    push_metadata_field(args, "album=", &metadata.album);
    push_metadata_field(args, "genre=", &metadata.genre);
    push_metadata_field(args, "date=", &metadata.date);
    push_metadata_field(args, "comment=", &metadata.comment);
    assert(args.deep_view() =~= old(args).deep_view() + metadata_flags(metadata));
}

/// Appends the metadata part.
fn push_metadata(args: &mut Vec<String>, metadata: &MetadataConfig)
    ensures
        final(args).deep_view() == old(args).deep_view() + metadata_args(metadata),
{
    match metadata.mode {
        MetadataMode::Clean => {
            push_pair(args, "-map_metadata", "-1".to_string());
        },
        MetadataMode::Replace => {
            push_pair(args, "-map_metadata", "-1".to_string());
            add_metadata_flags(args, metadata);
            assert(args.deep_view() =~= old(args).deep_view() + metadata_args(metadata));
        },
        MetadataMode::Preserve => {
            add_metadata_flags(args, metadata);
        },
    }
}

/// Appends the encoder with its settings.
pub(crate) fn push_encoder(args: &mut Vec<String>, config: &ConversionConfig)
    ensures
        final(args).deep_view() == old(args).deep_view() + encoder_args(config),
{
    push_pair(args, "-c:v", config.video_codec.clone());
    push_rate_control(args, config);
    push_preset(args, config);
    push_encoder_switches(args, config);
    assert(args.deep_view() =~= old(args).deep_view() + encoder_args(config));
}

/// Appends the video part.
fn push_video(args: &mut Vec<String>, config: &ConversionConfig)
    ensures
        final(args).deep_view() == old(args).deep_view() + video_args(config),
{
    if is_audio_only_container(config.container.as_str()) {
        push_arg(args, "-vn".to_string());
        assert(args.deep_view() =~= old(args).deep_view() + video_args(config));
    } else {
        push_encoder(args, config);
        push_filters(args, config);
        if !same_text(config.fps.as_str(), "original") {
            push_pair(args, "-r", config.fps.clone());
        }
        assert(args.deep_view() =~= old(args).deep_view() + video_args(config));
    }
}

/// Appends a map flag for each track.
fn push_track_maps(args: &mut Vec<String>, tracks: &Vec<u32>)
    ensures
        final(args).deep_view() == old(args).deep_view() + track_maps(tracks@),
{
    let mut i: usize = 0;
    assert(tracks@.take(0) =~= Seq::<u32>::empty());
    assert(args.deep_view() =~= old(args).deep_view() + track_maps(tracks@.take(0)));
    while i < tracks.len()
        invariant
            i <= tracks.len(),
            args.deep_view() == old(args).deep_view() + track_maps(tracks@.take(i as int)),
        decreases tracks.len() - i,
    {
        let mut stream = "0:".to_string();
        append_decimal(&mut stream, tracks[i] as u64);
        let ghost before = args.deep_view();
        push_pair(args, "-map", stream);
        proof {
            assert(tracks@.take(i + 1).drop_last() =~= tracks@.take(i as int));
            assert(tracks@.take(i + 1).last() == tracks@[i as int]);
            assert(args.deep_view() =~= old(args).deep_view() + track_maps(tracks@.take(i + 1)));
        }
        i = i + 1;
    }
    assert(tracks@.take(tracks@.len() as int) =~= tracks@);
}

/// Appends the mapping of streams.
fn push_streams(args: &mut Vec<String>, config: &ConversionConfig)
    ensures
        final(args).deep_view() == old(args).deep_view() + stream_args(config),
{
    let audio_only = is_audio_only_container(config.container.as_str());
    let any_audio = config.selected_audio_tracks.len() > 0;
    let any_subtitle = config.selected_subtitle_tracks.len() > 0;
    if (any_audio || any_subtitle) && !audio_only {
        push_pair(args, "-map", "0:v:0".to_string());
    }
    assert(args.deep_view() =~= old(args).deep_view() + primary_video_map(config));
    let ghost mapped = args.deep_view();
    if any_audio {
        push_track_maps(args, &config.selected_audio_tracks);
        push_pair(args, "-c:a", config.audio_codec.clone());
    }
    assert(args.deep_view() =~= mapped + audio_map_args(config));
    let ghost with_audio = args.deep_view();
    if any_subtitle {
        push_track_maps(args, &config.selected_subtitle_tracks);
    } else if !audio_only {
        push_pair(args, "-map", "0:s?".to_string());
    }
    assert(args.deep_view() =~= with_audio + subtitle_map_args(config));
    let ghost with_subtitles = args.deep_view();
    if !is_present(&config.subtitle_burn_path) {
        push_pair(args, "-c:s", "copy".to_string());
    }
    assert(args.deep_view() =~= with_subtitles + subtitle_codec_args(config));
    assert(args.deep_view() =~= old(args).deep_view() + stream_args(config));
}

/// Tells whether an audio codec is lossless.
pub fn is_lossless_audio_codec(codec: &str) -> (lossless: bool)
    ensures
        lossless == lossless_audio_codec(codec@),
{
    same_text(codec, "flac") || same_text(codec, "alac") || same_text(codec, "pcm_s16le")
}

/// Appends the audio bit rate, where one applies.
fn push_audio_bitrate(args: &mut Vec<String>, config: &ConversionConfig)
    ensures
        final(args).deep_view() == old(args).deep_view() + audio_bitrate_args(config),
{
    if !is_lossless_audio_codec(config.audio_codec.as_str()) && config.selected_audio_tracks.len()
        > 0 {
        let mut rate = config.audio_bitrate.clone();
        rate.append("k");
        push_pair(args, "-b:a", rate);
    } else {
        assert(args.deep_view() =~= old(args).deep_view() + audio_bitrate_args(config));
    }
}

/// Appends the number of channels, where it is set.
fn push_channels(args: &mut Vec<String>, config: &ConversionConfig)
    ensures
        final(args).deep_view() == old(args).deep_view() + channel_args(config),
{
    if same_text(config.audio_channels.as_str(), "stereo") {
        push_pair(args, "-ac", "2".to_string());
    } else if same_text(config.audio_channels.as_str(), "mono") {
        push_pair(args, "-ac", "1".to_string());
    } else {
        assert(args.deep_view() =~= old(args).deep_view() + channel_args(config));
    }
}

/// Tells whether a volume asks for a change of loudness.
pub fn is_volume_changed(volume: u32) -> (changed: bool)
    ensures
        changed == volume_changed(volume),
{
    volume as u64 > VOLUME_UNCHANGED as u64 + VOLUME_EPSILON as u64 || (volume as u64)
        + (VOLUME_EPSILON as u64) < VOLUME_UNCHANGED as u64
}

/// Computes the volume as a factor in hundredths.
pub fn volume_factor_hundredths(volume: u32) -> (factor: u32)
    ensures
        factor == volume_hundredths(volume),
{
    let whole = volume / 1000;
    let rest = volume % 1000;
    if rest > 500 || (rest == 500 && whole % 2 == 1) {
        whole + 1
    } else {
        whole
    }
}

/// Builds the audio filters of a configuration.
pub fn build_audio_filters(config: &ConversionConfig) -> (filters: Vec<String>)
    ensures
        filters.deep_view() == audio_filters(config),
{
    let mut filters: Vec<String> = Vec::new();
    assert(filters.deep_view() =~= Seq::<Seq<char>>::empty());
    if config.audio_normalize {
        push_arg(&mut filters, "loudnorm=I=-16:TP=-1.5:LRA=11".to_string());
    }
    let ghost normalized = filters.deep_view();
    if is_volume_changed(config.audio_volume) {
        let mut filter = "volume=".to_string();
        append_fixed2(&mut filter, volume_factor_hundredths(config.audio_volume) as u64);
        push_arg(&mut filters, filter);
    }
    assert(filters.deep_view() =~= audio_filters(config));
    filters
}

/// Appends the audio filter flag, where there is a filter.
fn push_audio_filters(args: &mut Vec<String>, config: &ConversionConfig)
    ensures
        final(args).deep_view() == old(args).deep_view() + audio_filter_args(config),
{
    let filters = build_audio_filters(config);
    if filters.len() > 0 {
        push_pair(args, "-af", join(&filters, ","));
    } else {
        assert(args.deep_view() =~= old(args).deep_view() + audio_filter_args(config));
    }
}

/// Compiles a conversion request into the argument list of the transcoder.
pub fn build_ffmpeg_args(input: &str, output: &str, config: &ConversionConfig) -> (args: Vec<
    String,
>)
    ensures
        args.deep_view() == ffmpeg_args(input@, output@, config),
{
    let mut args: Vec<String> = Vec::new();
    assert(args.deep_view() =~= Seq::<Seq<char>>::empty());
    push_seek(&mut args, config);
    push_pair(&mut args, "-i", input.to_string());
    push_clip(&mut args, config);
    push_metadata(&mut args, &config.metadata);
    push_video(&mut args, config);
    push_streams(&mut args, config);
    push_audio_bitrate(&mut args, config);
    push_channels(&mut args, config);
    push_audio_filters(&mut args, config);
    push_pair(&mut args, "-y", output.to_string());
    assert(args.deep_view() =~= ffmpeg_args(input@, output@, config));
    args
}

/// The name asked for, without the white space around it; empty where none
/// is asked for.
pub open spec fn custom_name(output_name: Option<String>) -> Seq<char> {
    match output_name {
        Some(name) => trimmed(name@),
        None => Seq::empty(),
    }
}

/// Where the result of a conversion goes. A name that is asked for is
/// placed in the directory of the input and gets the container as its
/// extension if it has none. Without such a name the path is the whole
/// input path followed by `_converted.` and the container.
pub open spec fn output_path(
    file_path: Seq<char>,
    container: Seq<char>,
    output_name: Option<String>,
) -> Seq<char> {
    if custom_name(output_name).len() > 0 {
        with_default_extension(
            joined_path(parent_dir(file_path), custom_name(output_name)),
            container,
        )
    } else {
        file_path + "_converted."@ + container
    }
}

/// Resolves the path of the output file.
pub fn build_output_path(file_path: &str, container: &str, output_name: Option<String>) -> (path:
    String)
    ensures
        path@ == output_path(file_path@, container@, output_name),
{
    resolve_output_path(file_path, container, &output_name)
}

/// Resolves the path of the output file for a name that the caller keeps.
pub fn resolve_output_path(file_path: &str, container: &str, output_name: &Option<String>) -> (path:
    String)
    ensures
        path@ == output_path(file_path@, container@, *output_name),
{
    let name_chars = match output_name {
        Some(name) => to_chars(name.as_str()),
        None => Vec::new(),
    };
    let custom = trim(name_chars.as_slice());
    if custom.len() > 0 {
        let input = to_chars(file_path);
        let n = parent_dir_len(input.as_slice());
        let dir = slice_subrange(input.as_slice(), 0, n);
        assert(dir@ =~= input@.take(n as int));
        let mut full = join_path(dir, custom);
        let ext = to_chars(container);
        add_default_extension(&mut full, ext.as_slice());
        from_chars(full.as_slice())
    } else {
        let mut path = file_path.to_string();
        path.append("_converted.");
        path.append(container);
        path
    }
}

/// What the caller found at the input path.
#[derive(Debug, Clone, Copy, PartialEq, Eq, Structural)]
pub enum InputKind {
    /// Nothing is there.
    Missing,
    /// Something is there that is not a regular file.
    NotAFile,
    /// A regular file.
    File,
}

/// What is wrong with the input file, if anything.
pub open spec fn input_fault(file_path: Seq<char>, input: InputKind) -> Option<Seq<char>> {
    match input {
        InputKind::Missing => Some("Input file does not exist: "@ + file_path),
        InputKind::NotAFile => Some("Input path is not a file: "@ + file_path),
        InputKind::File => None,
    }
}

/// What is wrong with a custom size, if anything: each side must be a whole
/// number, not zero, and not below -1.
pub open spec fn resolution_fault(config: &ConversionConfig) -> Option<Seq<char>> {
    let w = custom_dimension(config.custom_width);
    let h = custom_dimension(config.custom_height);
    if config.resolution@ != "custom"@ {
        None
    } else if i32_value(w).is_none() {
        Some("Invalid custom width: "@ + w)
    } else if i32_value(h).is_none() {
        Some("Invalid custom height: "@ + h)
    } else if i32_value(w).unwrap() == 0 || i32_value(h).unwrap() == 0 {
        Some("Resolution dimensions cannot be zero"@)
    } else if i32_value(w).unwrap() < -1 || i32_value(h).unwrap() < -1 {
        Some("Resolution dimensions cannot be negative (except -1 for auto)"@)
    } else {
        None
    }
}

/// What is wrong with the video bit rate, if anything: where a fixed bit
/// rate is asked for and video is on, it must be a number above zero.
pub open spec fn bitrate_fault(config: &ConversionConfig) -> Option<Seq<char>> {
    if config.video_bitrate_mode@ != "bitrate"@ || audio_only_container(config.container@) {
        None
    } else if !is_number(config.video_bitrate@) {
        Some("Invalid video bitrate: "@ + config.video_bitrate@)
    } else if !is_positive_number(config.video_bitrate@) {
        Some("Video bitrate must be positive"@)
    } else {
        None
    }
}

/// The first fault of a request in the order in which they are looked for;
/// none for a request that may run.
pub open spec fn input_fault_of(
    file_path: Seq<char>,
    input: InputKind,
    config: &ConversionConfig,
) -> Option<Seq<char>> {
    if input_fault(file_path, input).is_some() {
        input_fault(file_path, input)
    } else if resolution_fault(config).is_some() {
        resolution_fault(config)
    } else {
        bitrate_fault(config)
    }
}

/// Whether a result is the rejection that `fault` asks for.
pub open spec fn rejects_with(result: Result<(), ConversionError>, fault: Option<Seq<char>>) -> bool {
    match fault {
        None => result.is_ok(),
        Some(message) => result.is_err() && result.unwrap_err().kind_of()
            == ErrorKind::InvalidInput && result.unwrap_err().text() == message,
    }
}

/// A rejection with a message in two parts.
fn invalid(prefix: &str, detail: &str) -> (error: ConversionError)
    ensures
        error.kind_of() == ErrorKind::InvalidInput,
        error.text() == prefix@ + detail@,
{
    let mut message = prefix.to_string();
    message.append(detail);
    ConversionError::InvalidInput(message)
}

/// Judges the custom size.
fn check_resolution(config: &ConversionConfig) -> (result: Result<(), ConversionError>)
    ensures
        rejects_with(result, resolution_fault(config)),
{
    if !same_text(config.resolution.as_str(), "custom") {
        return Ok(());
    }
    proof {
        reveal_strlit("");
        assert(""@ =~= Seq::<char>::empty());
    }
    let w_text = match &config.custom_width {
        Some(w) => w.as_str(),
        None => "-1",
    };
    let h_text = match &config.custom_height {
        Some(h) => h.as_str(),
        None => "-1",
    };
    let w_chars = to_chars(w_text);
    let h_chars = to_chars(h_text);
    let w = match parse_i32(w_chars.as_slice()) {
        Some(w) => w,
        None => {
            return Err(invalid("Invalid custom width: ", w_text));
        },
    };
    let h = match parse_i32(h_chars.as_slice()) {
        Some(h) => h,
        None => {
            return Err(invalid("Invalid custom height: ", h_text));
        },
    };
    if w == 0 || h == 0 {
        let e = invalid("Resolution dimensions cannot be zero", "");
        assert(e.text() =~= "Resolution dimensions cannot be zero"@);
        return Err(e);
    }
    if w < -1 || h < -1 {
        let e = invalid("Resolution dimensions cannot be negative (except -1 for auto)", "");
        assert(e.text() =~= "Resolution dimensions cannot be negative (except -1 for auto)"@);
        return Err(e);
    }
    Ok(())
}

/// Judges the video bit rate.
fn check_bitrate(config: &ConversionConfig) -> (result: Result<(), ConversionError>)
    ensures
        rejects_with(result, bitrate_fault(config)),
{
    if !same_text(config.video_bitrate_mode.as_str(), "bitrate") || is_audio_only_container(
        config.container.as_str(),
    ) {
        return Ok(());
    }
    proof {
        reveal_strlit("");
        assert(""@ =~= Seq::<char>::empty());
    }
    let chars = to_chars(config.video_bitrate.as_str());
    match number_sign(chars.as_slice()) {
        None => Err(invalid("Invalid video bitrate: ", config.video_bitrate.as_str())),
        Some(positive) => {
            if positive {
                Ok(())
            } else {
                let e = invalid("Video bitrate must be positive", "");
                assert(e.text() =~= "Video bitrate must be positive"@);
                Err(e)
            }
        },
    }
}

/// Decides whether a request may run. `input` says what the caller found at
/// `file_path`.
pub fn validate_task_input(file_path: &str, input: InputKind, config: &ConversionConfig) -> (result:
    Result<(), ConversionError>)
    ensures
        rejects_with(result, input_fault_of(file_path@, input, config)),
        result.is_ok() <==> input_fault_of(file_path@, input, config).is_none(),
{
    match input {
        InputKind::Missing => {
            return Err(invalid("Input file does not exist: ", file_path));
        },
        InputKind::NotAFile => {
            return Err(invalid("Input path is not a file: ", file_path));
        },
        InputKind::File => {},
    }
    match check_resolution(config) {
        Err(e) => {
            return Err(e);
        },
        Ok(_) => {},
    }
    check_bitrate(config)
}

/// With an end time and no start time the command line bounds the clip by
/// the end time as it is written: right after the input stand `-to` and
/// that text, and no length is computed.
pub proof fn lemma_end_alone_is_absolute(
    input: Seq<char>,
    output: Seq<char>,
    config: &ConversionConfig,
)
    requires
        !present(config.start_time),
        present(config.end_time),
    ensures
        clip_args(config) == seq!["-to"@, config.end_time.unwrap()@],
        ffmpeg_args(input, output, config).len() >= 4,
        ffmpeg_args(input, output, config)[0] == "-i"@,
        ffmpeg_args(input, output, config)[1] == input,
        ffmpeg_args(input, output, config)[2] == "-to"@,
        ffmpeg_args(input, output, config)[3] == config.end_time.unwrap()@,
{
    let head = seek_args(config) + seq!["-i"@, input] + clip_args(config);
    assert(head =~= seq!["-i"@, input, "-to"@, config.end_time.unwrap()@]);
    lemma_args_start_with(input, output, config);
}

/// Putting three runs of arguments together does not depend on which two
/// are joined first.
pub proof fn lemma_concat_assoc(a: Seq<Seq<char>>, b: Seq<Seq<char>>, c: Seq<Seq<char>>)
    ensures
        a + (b + c) == (a + b) + c,
{
    assert(a + (b + c) =~= (a + b) + c);
}

/// A command line starts with the seek, the input and the end of the clip.
pub proof fn lemma_args_start_with(input: Seq<char>, output: Seq<char>, config: &ConversionConfig)
    ensures
        ({
            let head = seek_args(config) + seq!["-i"@, input] + clip_args(config);
            &&& head.len() <= ffmpeg_args(input, output, config).len()
            &&& ffmpeg_args(input, output, config).take(head.len() as int) == head
        }),
{
    let head = seek_args(config) + seq!["-i"@, input] + clip_args(config);
    let m = metadata_args(&config.metadata);
    let v = video_args(config);
    let s = stream_args(config);
    let b = audio_bitrate_args(config);
    let c = channel_args(config);
    let f = audio_filter_args(config);
    let y = seq!["-y"@, output];
    lemma_concat_assoc(head, m, v);
    lemma_concat_assoc(head, m + v, s);
    lemma_concat_assoc(head, m + v + s, b);
    lemma_concat_assoc(head, m + v + s + b, c);
    lemma_concat_assoc(head, m + v + s + b + c, f);
    lemma_concat_assoc(head, m + v + s + b + c + f, y);
    let rest = m + v + s + b + c + f + y;
    assert(ffmpeg_args(input, output, config) == head + rest);
    assert((head + rest).take(head.len() as int) =~= head);
}

/// With a start and an end that both read as times, the command line
/// states the length of the clip, which is the end less the start in
/// seconds with exactly three decimal places; it states none where the end
/// does not lie after the start. The flag follows the input directly.
pub proof fn lemma_clip_is_end_less_start(
    input: Seq<char>,
    output: Seq<char>,
    config: &ConversionConfig,
)
    requires
        present(config.start_time),
        present(config.end_time),
        parsed_time(config.start_time.unwrap()@).is_some(),
        parsed_time(config.end_time.unwrap()@).is_some(),
    ensures
        ({
            let start = parsed_time(config.start_time.unwrap()@).unwrap();
            let end = parsed_time(config.end_time.unwrap()@).unwrap();
            let all = ffmpeg_args(input, output, config);
            &&& end > start ==> clip_args(config) == seq!["-t"@, fixed3_text((end - start) as nat)]
            &&& end > start ==> all.len() >= 6 && all[4] == "-t"@ && all[5] == fixed3_text(
                (end - start) as nat,
            )
            &&& end <= start ==> clip_args(config) == Seq::<Seq<char>>::empty()
            &&& all.len() >= 4 && all[0] == "-ss"@ && all[1] == config.start_time.unwrap()@
                && all[2] == "-i"@ && all[3] == input
        }),
{
    let start = parsed_time(config.start_time.unwrap()@).unwrap();
    let end = parsed_time(config.end_time.unwrap()@).unwrap();
    let head = seek_args(config) + seq!["-i"@, input] + clip_args(config);
    lemma_args_start_with(input, output, config);
    if end > start {
        assert(head =~= seq![
            "-ss"@,
            config.start_time.unwrap()@,
            "-i"@,
            input,
            "-t"@,
            fixed3_text((end - start) as nat),
        ]);
    } else {
        assert(head =~= seq!["-ss"@, config.start_time.unwrap()@, "-i"@, input]);
    }
}

/// The number of metadata fields that are given and not empty.
pub open spec fn given_fields(metadata: &MetadataConfig) -> nat {
    let one = |value: Option<String>| -> nat
        {
            if present(value) {
                1nat
            } else {
                0nat
            }
        };
    one(metadata.title) + one(metadata.artist) + one(metadata.album) + one(metadata.genre) + one(
        metadata.date,
    ) + one(metadata.comment)
}

/// Whether an argument sets a metadata field: a key with its equals sign,
/// then a value that is not empty.
pub open spec fn is_metadata_entry(arg: Seq<char>) -> bool {
    exists|key: Seq<char>, value: Seq<char>|
        #![auto]
        arg == key + value && value.len() > 0 && (key == "title="@ || key == "artist="@ || key
            == "album="@ || key == "genre="@ || key == "date="@ || key == "comment="@)
}

/// Only the fields that are given are written: the metadata flags are
/// pairs of `-metadata` and an entry with a value, one pair for each given
/// field, and none of them strips anything.
pub proof fn lemma_metadata_flags_shape(metadata: &MetadataConfig)
    ensures
        metadata_flags(metadata).len() == 2 * given_fields(metadata),
        forall|i: int|
            0 <= i < metadata_flags(metadata).len() && i % 2 == 0 ==> #[trigger] metadata_flags(
                metadata,
            )[i] == "-metadata"@,
        forall|i: int|
            0 <= i < metadata_flags(metadata).len() && i % 2 == 1 ==> is_metadata_entry(
                #[trigger] metadata_flags(metadata)[i],
            ),
        forall|i: int|
            0 <= i < metadata_flags(metadata).len() ==> #[trigger] metadata_flags(metadata)[i]
                != "-map_metadata"@,
{
    reveal_strlit("-metadata");
    reveal_strlit("-map_metadata");
    reveal_strlit("title=");
    reveal_strlit("artist=");
    reveal_strlit("album=");
    reveal_strlit("genre=");
    reveal_strlit("date=");
    reveal_strlit("comment=");
    let a = metadata_field("title="@, metadata.title);
    let b = metadata_field("artist="@, metadata.artist);
    let c = metadata_field("album="@, metadata.album);
    let d = metadata_field("genre="@, metadata.genre);
    let e = metadata_field("date="@, metadata.date);
    let f = metadata_field("comment="@, metadata.comment);
    lemma_field_shape("title="@, metadata.title);
    lemma_field_shape("artist="@, metadata.artist);
    lemma_field_shape("album="@, metadata.album);
    lemma_field_shape("genre="@, metadata.genre);
    lemma_field_shape("date="@, metadata.date);
    lemma_field_shape("comment="@, metadata.comment);
    lemma_pairs_join(a, b);
    lemma_pairs_join(a + b, c);
    lemma_pairs_join(a + b + c, d);
    lemma_pairs_join(a + b + c + d, e);
    lemma_pairs_join(a + b + c + d + e, f);
}

/// Whether `args` is a run of pairs, each `-metadata` and an entry.
pub open spec fn metadata_pairs(args: Seq<Seq<char>>) -> bool {
    &&& args.len() % 2 == 0
    &&& forall|i: int| 0 <= i < args.len() && i % 2 == 0 ==> #[trigger] args[i] == "-metadata"@
    &&& forall|i: int| 0 <= i < args.len() && i % 2 == 1 ==> is_metadata_entry(#[trigger] args[i])
    &&& forall|i: int| 0 <= i < args.len() ==> (#[trigger] args[i]).len() > 0 && args[i][0] != '-'
        || args[i] == "-metadata"@
}

/// One field gives no argument or one pair.
proof fn lemma_field_shape(key: Seq<char>, value: Option<String>)
    requires
        key == "title="@ || key == "artist="@ || key == "album="@ || key == "genre="@ || key
            == "date="@ || key == "comment="@,
    ensures
        metadata_pairs(metadata_field(key, value)),
        metadata_field(key, value).len() == (if present(value) {
            2nat
        } else {
            0nat
        }),
{
    reveal_strlit("title=");
    reveal_strlit("artist=");
    reveal_strlit("album=");
    reveal_strlit("genre=");
    reveal_strlit("date=");
    reveal_strlit("comment=");
    if present(value) {
        let entry = key + value.unwrap()@;
        assert(is_metadata_entry(entry));
        assert(entry[0] == key[0]);
    }
}

/// Two runs of pairs make a run of pairs.
proof fn lemma_pairs_join(a: Seq<Seq<char>>, b: Seq<Seq<char>>)
    requires
        metadata_pairs(a),
        metadata_pairs(b),
    ensures
        metadata_pairs(a + b),
        (a + b).len() == a.len() + b.len(),
{
    let all = a + b;
    assert forall|i: int| 0 <= i < all.len() implies (i % 2 == 0 ==> #[trigger] all[i]
        == "-metadata"@) && (i % 2 == 1 ==> is_metadata_entry(all[i])) && ((all[i].len() > 0
        && all[i][0] != '-') || all[i] == "-metadata"@) by {
        if i < a.len() {
            assert(all[i] == a[i]);
        } else {
            assert(all[i] == b[i - a.len()]);
            assert((i - a.len()) % 2 == i % 2);
        }
    }
}

/// Clean strips the metadata and writes none, whatever fields are given.
/// Replace strips and then writes the given fields. Preserve writes the
/// given fields and strips nothing.
pub proof fn lemma_metadata_modes(metadata: &MetadataConfig)
    ensures
        metadata.mode == MetadataMode::Clean ==> metadata_args(metadata) == strip_metadata_args()
            && forall|i: int|
            0 <= i < metadata_args(metadata).len() ==> #[trigger] metadata_args(metadata)[i]
                != "-metadata"@,
        metadata.mode == MetadataMode::Replace ==> metadata_args(metadata).take(2)
            == strip_metadata_args() && metadata_args(metadata).skip(2) == metadata_flags(metadata),
        metadata.mode == MetadataMode::Preserve ==> metadata_args(metadata) == metadata_flags(
            metadata,
        ) && forall|i: int|
            0 <= i < metadata_args(metadata).len() ==> #[trigger] metadata_args(metadata)[i]
                != "-map_metadata"@,
{
    reveal_strlit("-metadata");
    reveal_strlit("-map_metadata");
    reveal_strlit("-1");
    lemma_metadata_flags_shape(metadata);
    let strip = strip_metadata_args();
    let flags = metadata_flags(metadata);
    assert((strip + flags).take(2) =~= strip);
    assert((strip + flags).skip(2) =~= flags);
    assert(strip[0].len() == 13);
    assert(strip[1].len() == 2);
}

/// A lossless audio codec gets no bit rate, whatever tracks are selected.
pub proof fn lemma_lossless_audio_takes_no_bitrate(config: &ConversionConfig)
    requires
        lossless_audio_codec(config.audio_codec@),
    ensures
        audio_bitrate_args(config) == Seq::<Seq<char>>::empty(),
        ffmpeg_args(""@, ""@, config) == seek_args(config) + seq!["-i"@, ""@] + clip_args(config)
            + metadata_args(&config.metadata) + video_args(config) + stream_args(config)
            + channel_args(config) + audio_filter_args(config) + seq!["-y"@, ""@],
{
    let before = seek_args(config) + seq!["-i"@, ""@] + clip_args(config) + metadata_args(
        &config.metadata,
    ) + video_args(config) + stream_args(config);
    assert(before + audio_bitrate_args(config) =~= before);
}

} // verus!
