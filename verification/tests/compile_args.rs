use conversion::args::{add_metadata_flags, build_ffmpeg_args};
use conversion::types::{ConversionConfig, CropConfig, MetadataConfig, MetadataMode};
use conversion::video::nvenc_constant_quality;

fn base_config() -> ConversionConfig {
    ConversionConfig {
        start_time: None,
        end_time: None,
        container: "mp4".to_string(),
        video_codec: "libx264".to_string(),
        video_bitrate_mode: "quality".to_string(),
        video_bitrate: "2500".to_string(),
        crf: 23,
        quality: 50,
        preset: "medium".to_string(),
        nvenc_spatial_aq: false,
        nvenc_temporal_aq: false,
        videotoolbox_allow_sw: false,
        flip_horizontal: false,
        flip_vertical: false,
        rotation: "0".to_string(),
        crop: None,
        resolution: "original".to_string(),
        scaling_algorithm: "bicubic".to_string(),
        custom_width: None,
        custom_height: None,
        fps: "original".to_string(),
        subtitle_burn_path: None,
        audio_codec: "aac".to_string(),
        audio_bitrate: "128".to_string(),
        audio_channels: "original".to_string(),
        audio_normalize: false,
        audio_volume: 100_000,
        selected_audio_tracks: vec![],
        selected_subtitle_tracks: vec![],
        metadata: MetadataConfig {
            mode: MetadataMode::Preserve,
            title: None,
            artist: None,
            album: None,
            genre: None,
            date: None,
            comment: None,
        },
        ml_upscale: None,
    }
}

fn strings(items: &[&str]) -> Vec<String> {
    items.iter().map(|s| s.to_string()).collect()
}

fn position(args: &[String], flag: &str) -> Option<usize> {
    args.iter().position(|a| a == flag)
}

fn value_after(args: &[String], flag: &str) -> Option<String> {
    position(args, flag).map(|i| args[i + 1].clone())
}

#[test]
fn plain_request_compiles_to_the_minimal_command() {
    let args = build_ffmpeg_args("in.mov", "out.mp4", &base_config());
    assert_eq!(
        args,
        strings(&[
            "-i", "in.mov", "-c:v", "libx264", "-crf", "23", "-preset", "medium", "-map", "0:s?",
            "-c:s", "copy", "-y", "out.mp4",
        ])
    );
}

#[test]
fn full_request_keeps_the_fixed_order() {
    let mut config = base_config();
    config.start_time = Some("00:00:02".to_string());
    config.end_time = Some("00:00:07".to_string());
    config.metadata.mode = MetadataMode::Replace;
    config.metadata.title = Some("Clip".to_string());
    config.metadata.artist = Some(String::new());
    config.metadata.comment = Some("a=b".to_string());
    config.flip_horizontal = true;
    config.flip_vertical = true;
    config.rotation = "180".to_string();
    config.crop = Some(CropConfig { enabled: true, x: 10_400, y: -5_000, width: 640_500, height: 400 });
    config.subtitle_burn_path = Some("C:\\subs\\a.srt".to_string());
    config.resolution = "720p".to_string();
    config.scaling_algorithm = "nearest".to_string();
    config.fps = "30".to_string();
    config.selected_audio_tracks = vec![1, 2];
    config.selected_subtitle_tracks = vec![3];
    config.audio_channels = "stereo".to_string();
    config.audio_normalize = true;
    config.audio_volume = 150_000;
    let args = build_ffmpeg_args("/v/in.mkv", "/v/out.mp4", &config);
    assert_eq!(
        args,
        strings(&[
            "-ss",
            "00:00:02",
            "-i",
            "/v/in.mkv",
            "-t",
            "5.000",
            "-map_metadata",
            "-1",
            "-metadata",
            "title=Clip",
            "-metadata",
            "comment=a=b",
            "-c:v",
            "libx264",
            "-crf",
            "23",
            "-preset",
            "medium",
            "-vf",
            "hflip,vflip,transpose=1,transpose=1,crop=641:1:10:0,subtitles='C\\:/subs/a.srt',scale=-2:720:flags=neighbor",
            "-r",
            "30",
            "-map",
            "0:v:0",
            "-map",
            "0:1",
            "-map",
            "0:2",
            "-c:a",
            "aac",
            "-map",
            "0:3",
            "-b:a",
            "128k",
            "-ac",
            "2",
            "-af",
            "loudnorm=I=-16:TP=-1.5:LRA=11,volume=1.50",
            "-y",
            "/v/out.mp4",
        ])
    );
}

#[test]
fn end_without_start_is_an_absolute_bound() {
    let mut config = base_config();
    config.end_time = Some("00:01:30".to_string());
    let args = build_ffmpeg_args("a", "b", &config);
    assert_eq!(&args[0..4], &strings(&["-i", "a", "-to", "00:01:30"])[..]);
    assert_eq!(position(&args, "-t"), None);
    assert_eq!(position(&args, "-ss"), None);

    config.start_time = Some(String::new());
    config.end_time = Some("not a time".to_string());
    let args = build_ffmpeg_args("a", "b", &config);
    assert_eq!(&args[0..4], &strings(&["-i", "a", "-to", "not a time"])[..]);
}

#[test]
fn start_without_end_seeks_and_sets_no_bound() {
    let mut config = base_config();
    config.start_time = Some("00:00:10".to_string());
    let args = build_ffmpeg_args("a", "b", &config);
    assert_eq!(&args[0..4], &strings(&["-ss", "00:00:10", "-i", "a"])[..]);
    assert_eq!(position(&args, "-t"), None);
    assert_eq!(position(&args, "-to"), None);
    config.end_time = Some(String::new());
    let args = build_ffmpeg_args("a", "b", &config);
    assert_eq!(position(&args, "-t"), None);
    assert_eq!(position(&args, "-to"), None);
}

#[test]
fn both_bounds_give_the_length_with_three_decimals() {
    let mut config = base_config();
    config.start_time = Some("00:00:01.250".to_string());
    config.end_time = Some("01:02:03.5".to_string());
    let args = build_ffmpeg_args("a", "b", &config);
    assert_eq!(&args[0..6], &strings(&["-ss", "00:00:01.250", "-i", "a", "-t", "3722.250"])[..]);

    config.start_time = Some("00:00:00".to_string());
    config.end_time = Some("00:00:00.007".to_string());
    let args = build_ffmpeg_args("a", "b", &config);
    assert_eq!(value_after(&args, "-t"), Some("0.007".to_string()));
}

#[test]
fn length_is_left_out_when_the_end_is_not_after_the_start() {
    let mut config = base_config();
    config.start_time = Some("00:00:07".to_string());
    config.end_time = Some("00:00:07".to_string());
    let args = build_ffmpeg_args("a", "b", &config);
    assert_eq!(position(&args, "-t"), None);
    assert_eq!(position(&args, "-to"), None);
    config.end_time = Some("00:00:02".to_string());
    let args = build_ffmpeg_args("a", "b", &config);
    assert_eq!(position(&args, "-t"), None);
    config.end_time = Some("later".to_string());
    let args = build_ffmpeg_args("a", "b", &config);
    assert_eq!(position(&args, "-t"), None);
    assert_eq!(position(&args, "-to"), None);
    assert_eq!(&args[0..2], &strings(&["-ss", "00:00:07"])[..]);
}

#[test]
fn nvenc_quality_maps_to_constant_quality() {
    assert_eq!(nvenc_constant_quality(0), 51);
    assert_eq!(nvenc_constant_quality(1), 51);
    assert_eq!(nvenc_constant_quality(2), 51);
    assert_eq!(nvenc_constant_quality(3), 51);
    assert_eq!(nvenc_constant_quality(4), 50);
    assert_eq!(nvenc_constant_quality(50), 27);
    assert_eq!(nvenc_constant_quality(51), 27);
    assert_eq!(nvenc_constant_quality(99), 3);
    assert_eq!(nvenc_constant_quality(100), 2);
    assert_eq!(nvenc_constant_quality(102), 1);
    assert_eq!(nvenc_constant_quality(103), 1);
    assert_eq!(nvenc_constant_quality(104), 1);
    assert_eq!(nvenc_constant_quality(u32::MAX), 1);
    for quality in 0..=100u32 {
        let cq = nvenc_constant_quality(quality);
        assert!((1..=51).contains(&cq));
        let exact = (52.0 - quality as f64 / 2.0).round().clamp(1.0, 51.0) as u32;
        assert_eq!(cq, exact);
    }
}

#[test]
fn nvenc_branch_emits_vbr_preset_and_toggles() {
    let mut config = base_config();
    config.video_codec = "hevc_nvenc".to_string();
    config.quality = 60;
    config.preset = "veryfast".to_string();
    config.nvenc_spatial_aq = true;
    config.nvenc_temporal_aq = true;
    config.videotoolbox_allow_sw = true;
    let args = build_ffmpeg_args("a", "b", &config);
    assert_eq!(
        &args[2..14],
        &strings(&[
            "-c:v", "hevc_nvenc", "-rc:v", "vbr", "-cq:v", "22", "-preset", "fast", "-spatial_aq",
            "1", "-temporal_aq", "1",
        ])[..]
    );
    assert_eq!(position(&args, "-allow_sw"), None);
    assert_eq!(position(&args, "-crf"), None);

    config.nvenc_spatial_aq = false;
    let args = build_ffmpeg_args("a", "b", &config);
    assert_eq!(position(&args, "-spatial_aq"), None);
    assert_eq!(value_after(&args, "-temporal_aq"), Some("1".to_string()));
}

#[test]
fn videotoolbox_branch_has_no_preset() {
    let mut config = base_config();
    config.video_codec = "h264_videotoolbox".to_string();
    config.quality = 65;
    config.videotoolbox_allow_sw = true;
    config.nvenc_spatial_aq = true;
    let args = build_ffmpeg_args("a", "b", &config);
    assert_eq!(
        &args[2..8],
        &strings(&["-c:v", "h264_videotoolbox", "-q:v", "65", "-allow_sw", "1"])[..]
    );
    assert_eq!(position(&args, "-preset"), None);
    assert_eq!(position(&args, "-spatial_aq"), None);
}

#[test]
fn bitrate_mode_overrides_quality_controls() {
    for codec in ["libx264", "h264_nvenc", "hevc_videotoolbox"] {
        let mut config = base_config();
        config.video_codec = codec.to_string();
        config.video_bitrate_mode = "bitrate".to_string();
        config.video_bitrate = "4500".to_string();
        let args = build_ffmpeg_args("a", "b", &config);
        assert_eq!(value_after(&args, "-b:v"), Some("4500k".to_string()));
        assert_eq!(position(&args, "-crf"), None);
        assert_eq!(position(&args, "-cq:v"), None);
        assert_eq!(position(&args, "-q:v"), None);
    }
}

#[test]
fn audio_only_container_disables_video() {
    for container in ["mp3", "WAV", "Flac", "aac", "M4A"] {
        let mut config = base_config();
        config.container = container.to_string();
        config.flip_horizontal = true;
        config.fps = "24".to_string();
        config.selected_audio_tracks = vec![0];
        let args = build_ffmpeg_args("a", "b", &config);
        assert_eq!(
            args,
            strings(&["-i", "a", "-vn", "-map", "0:0", "-c:a", "aac", "-c:s", "copy", "-b:a", "128k", "-y", "b"])
        );
    }
}

#[test]
fn clean_metadata_emits_no_fields() {
    let mut config = base_config();
    config.metadata = MetadataConfig {
        mode: MetadataMode::Clean,
        title: Some("t".to_string()),
        artist: Some("a".to_string()),
        album: Some("b".to_string()),
        genre: Some("g".to_string()),
        date: Some("2020".to_string()),
        comment: Some("c".to_string()),
    };
    let args = build_ffmpeg_args("a", "b", &config);
    assert_eq!(&args[2..4], &strings(&["-map_metadata", "-1"])[..]);
    assert_eq!(position(&args, "-metadata"), None);
}

#[test]
fn replace_metadata_strips_then_adds_non_empty_fields() {
    let mut config = base_config();
    config.metadata = MetadataConfig {
        mode: MetadataMode::Replace,
        title: Some("t".to_string()),
        artist: None,
        album: Some(String::new()),
        genre: Some("g".to_string()),
        date: None,
        comment: Some("c".to_string()),
    };
    let args = build_ffmpeg_args("a", "b", &config);
    assert_eq!(
        &args[2..10],
        &strings(&[
            "-map_metadata", "-1", "-metadata", "title=t", "-metadata", "genre=g", "-metadata",
            "comment=c",
        ])[..]
    );
    assert_eq!(args[10], "-c:v");
}

#[test]
fn preserve_metadata_adds_fields_without_stripping() {
    let mut config = base_config();
    config.metadata = MetadataConfig {
        mode: MetadataMode::Preserve,
        title: None,
        artist: Some("x y".to_string()),
        album: Some("al".to_string()),
        genre: None,
        date: Some("2021-01-02".to_string()),
        comment: Some(String::new()),
    };
    let args = build_ffmpeg_args("a", "b", &config);
    assert_eq!(
        &args[2..8],
        &strings(&["-metadata", "artist=x y", "-metadata", "album=al", "-metadata", "date=2021-01-02"])[..]
    );
    assert_eq!(position(&args, "-map_metadata"), None);
    assert_eq!(args[8], "-c:v");
}

#[test]
fn add_metadata_flags_appends_in_field_order() {
    let mut args = vec!["x".to_string()];
    let metadata = MetadataConfig {
        mode: MetadataMode::Clean,
        title: Some("T".to_string()),
        artist: Some("A".to_string()),
        album: Some("B".to_string()),
        genre: Some("G".to_string()),
        date: Some("D".to_string()),
        comment: Some("C".to_string()),
    };
    add_metadata_flags(&mut args, &metadata);
    assert_eq!(
        args,
        strings(&[
            "x", "-metadata", "title=T", "-metadata", "artist=A", "-metadata", "album=B",
            "-metadata", "genre=G", "-metadata", "date=D", "-metadata", "comment=C",
        ])
    );
    let empty = MetadataConfig {
        mode: MetadataMode::Replace,
        title: None,
        artist: None,
        album: None,
        genre: None,
        date: None,
        comment: None,
    };
    let mut args = Vec::new();
    add_metadata_flags(&mut args, &empty);
    assert!(args.is_empty());
}

#[test]
fn lossless_audio_codecs_get_no_bitrate() {
    for codec in ["flac", "alac", "pcm_s16le"] {
        let mut config = base_config();
        config.audio_codec = codec.to_string();
        config.selected_audio_tracks = vec![0, 1];
        let args = build_ffmpeg_args("a", "b", &config);
        assert_eq!(position(&args, "-b:a"), None);
        assert_eq!(value_after(&args, "-c:a"), Some(codec.to_string()));
    }
    let mut config = base_config();
    config.audio_codec = "FLAC".to_string();
    config.selected_audio_tracks = vec![0];
    config.audio_bitrate = "192".to_string();
    let args = build_ffmpeg_args("a", "b", &config);
    assert_eq!(value_after(&args, "-b:a"), Some("192k".to_string()));
}

#[test]
fn audio_bitrate_needs_a_selected_track() {
    let config = base_config();
    let args = build_ffmpeg_args("a", "b", &config);
    assert_eq!(position(&args, "-b:a"), None);
    assert_eq!(position(&args, "-c:a"), None);
}

#[test]
fn stream_mapping_follows_the_selection() {
    let mut config = base_config();
    config.selected_subtitle_tracks = vec![4, 5];
    let args = build_ffmpeg_args("a", "b", &config);
    assert_eq!(
        &args[8..],
        &strings(&["-map", "0:v:0", "-map", "0:4", "-map", "0:5", "-c:s", "copy", "-y", "b"])[..]
    );

    config.subtitle_burn_path = Some("subs.srt".to_string());
    config.selected_subtitle_tracks = vec![];
    config.selected_audio_tracks = vec![7];
    let args = build_ffmpeg_args("a", "b", &config);
    assert_eq!(position(&args, "-c:s"), None);
    assert_eq!(
        &args[10..],
        &strings(&["-map", "0:v:0", "-map", "0:7", "-c:a", "aac", "-map", "0:s?", "-b:a", "128k", "-y", "b"])[..]
    );
    assert_eq!(value_after(&args, "-vf"), Some("subtitles='subs.srt'".to_string()));
}

#[test]
fn channel_flag_depends_on_the_mode() {
    let mut config = base_config();
    config.audio_channels = "mono".to_string();
    assert_eq!(value_after(&build_ffmpeg_args("a", "b", &config), "-ac"), Some("1".to_string()));
    config.audio_channels = "stereo".to_string();
    assert_eq!(value_after(&build_ffmpeg_args("a", "b", &config), "-ac"), Some("2".to_string()));
    config.audio_channels = "5.1".to_string();
    assert_eq!(position(&build_ffmpeg_args("a", "b", &config), "-ac"), None);
}

#[test]
fn volume_is_a_factor_with_two_decimals() {
    let cases: [(u32, Option<&str>); 12] = [
        (100_000, None),
        (100_010, None),
        (99_990, None),
        (100_011, Some("volume=1.00")),
        (99_989, Some("volume=1.00")),
        (150_000, Some("volume=1.50")),
        (0, Some("volume=0.00")),
        (50_000, Some("volume=0.50")),
        (100_500, Some("volume=1.00")),
        (101_500, Some("volume=1.02")),
        (101_501, Some("volume=1.02")),
        (1_234_567, Some("volume=12.35")),
    ];
    for (volume, expected) in cases {
        let mut config = base_config();
        config.audio_volume = volume;
        let args = build_ffmpeg_args("a", "b", &config);
        assert_eq!(value_after(&args, "-af"), expected.map(|s| s.to_string()), "volume {}", volume);
    }
    let mut config = base_config();
    config.audio_normalize = true;
    let args = build_ffmpeg_args("a", "b", &config);
    assert_eq!(value_after(&args, "-af"), Some("loudnorm=I=-16:TP=-1.5:LRA=11".to_string()));
}

#[test]
fn rotation_turns_by_transposes() {
    let cases = [
        ("90", Some("transpose=1")),
        ("180", Some("transpose=1,transpose=1")),
        ("270", Some("transpose=2")),
        ("0", None),
        ("45", None),
    ];
    for (rotation, expected) in cases {
        let mut config = base_config();
        config.rotation = rotation.to_string();
        let args = build_ffmpeg_args("a", "b", &config);
        assert_eq!(value_after(&args, "-vf"), expected.map(|s| s.to_string()));
    }
}

#[test]
fn crop_is_clamped_and_rounded() {
    let mut config = base_config();
    config.crop = Some(CropConfig { enabled: true, x: -1, y: 499, width: 0, height: 1_499 });
    let args = build_ffmpeg_args("a", "b", &config);
    assert_eq!(value_after(&args, "-vf"), Some("crop=1:1:0:0".to_string()));
    config.crop = Some(CropConfig { enabled: true, x: 500, y: 1_500, width: 1_500, height: 1_920_000 });
    let args = build_ffmpeg_args("a", "b", &config);
    assert_eq!(value_after(&args, "-vf"), Some("crop=2:1920:1:2".to_string()));
    config.crop = Some(CropConfig {
        enabled: true,
        x: i64::MAX,
        y: i64::MIN,
        width: i64::MIN,
        height: 2_147_483_647_499,
    });
    let args = build_ffmpeg_args("a", "b", &config);
    assert_eq!(value_after(&args, "-vf"), Some("crop=1:2147483647:2147483647:0".to_string()));
    config.crop = Some(CropConfig { enabled: false, x: 1, y: 1, width: 1, height: 1 });
    let args = build_ffmpeg_args("a", "b", &config);
    assert_eq!(position(&args, "-vf"), None);
}

#[test]
fn scale_depends_on_resolution_and_algorithm() {
    let cases = [
        ("original", "lanczos", None, None, None),
        ("1080p", "lanczos", None, None, Some("scale=-2:1080:flags=lanczos")),
        ("720p", "bilinear", None, None, Some("scale=-2:720:flags=bilinear")),
        ("480p", "bicubic", None, None, Some("scale=-2:480:flags=bicubic")),
        ("480p", "spline", None, None, Some("scale=-2:480")),
        ("4k", "lanczos", None, None, Some("scale=-1:-1")),
        ("custom", "lanczos", None, None, Some("scale=-1:-1")),
        ("custom", "lanczos", Some("-1"), Some("-1"), Some("scale=-1:-1")),
        ("custom", "nearest", Some("1280"), Some("-1"), Some("scale=1280:-1:flags=neighbor")),
        ("custom", "nearest", None, Some("720"), Some("scale=-1:720:flags=neighbor")),
        (
            "custom",
            "bicubic",
            Some("1280"),
            Some("720"),
            Some("scale=1280:720:force_original_aspect_ratio=decrease:flags=bicubic,pad=1280:720:(ow-iw)/2:(oh-ih)/2"),
        ),
        (
            "custom",
            "none",
            Some("640"),
            Some("480"),
            Some("scale=640:480:force_original_aspect_ratio=decrease,pad=640:480:(ow-iw)/2:(oh-ih)/2"),
        ),
    ];
    for (resolution, algorithm, w, h, expected) in cases {
        let mut config = base_config();
        config.resolution = resolution.to_string();
        config.scaling_algorithm = algorithm.to_string();
        config.custom_width = w.map(|s: &str| s.to_string());
        config.custom_height = h.map(|s: &str| s.to_string());
        let args = build_ffmpeg_args("a", "b", &config);
        assert_eq!(value_after(&args, "-vf"), expected.map(|s| s.to_string()));
    }
}

#[test]
fn frame_rate_flag_is_left_out_for_original() {
    let mut config = base_config();
    config.fps = "29.97".to_string();
    let args = build_ffmpeg_args("a", "b", &config);
    assert_eq!(value_after(&args, "-r"), Some("29.97".to_string()));
    assert_eq!(position(&build_ffmpeg_args("a", "b", &base_config()), "-r"), None);
}

#[test]
fn command_always_ends_with_overwrite_and_output() {
    let mut config = base_config();
    config.container = "mp3".to_string();
    let args = build_ffmpeg_args("in put.wav", "out put.mp3", &config);
    let n = args.len();
    assert_eq!(&args[n - 2..], &strings(&["-y", "out put.mp3"])[..]);
    assert_eq!(&args[0..2], &strings(&["-i", "in put.wav"])[..]);
}
