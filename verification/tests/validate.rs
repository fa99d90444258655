use conversion::args::{validate_task_input, InputKind};
use conversion::error::{ConversionError, ErrorKind};
use conversion::types::{ConversionConfig, MetadataConfig, MetadataMode};

fn base_config() -> ConversionConfig {
    ConversionConfig {
        start_time: None,
        end_time: None,
        container: "mp4".to_string(),
        video_codec: "libx264".to_string(),
        video_bitrate_mode: "quality".to_string(),
        video_bitrate: "2500".to_string(),
        crf: 23,
        quality: 50,
        preset: "medium".to_string(),
        nvenc_spatial_aq: false,
        nvenc_temporal_aq: false,
        videotoolbox_allow_sw: false,
        flip_horizontal: false,
        flip_vertical: false,
        rotation: "0".to_string(),
        crop: None,
        resolution: "original".to_string(),
        scaling_algorithm: "bicubic".to_string(),
        custom_width: None,
        custom_height: None,
        fps: "original".to_string(),
        subtitle_burn_path: None,
        audio_codec: "aac".to_string(),
        audio_bitrate: "128".to_string(),
        audio_channels: "original".to_string(),
        audio_normalize: false,
        audio_volume: 100_000,
        selected_audio_tracks: vec![],
        selected_subtitle_tracks: vec![],
        metadata: MetadataConfig {
            mode: MetadataMode::Preserve,
            title: None,
            artist: None,
            album: None,
            genre: None,
            date: None,
            comment: None,
        },
        ml_upscale: None,
    }
}

fn custom(width: Option<&str>, height: Option<&str>) -> ConversionConfig {
    let mut config = base_config();
    config.resolution = "custom".to_string();
    config.custom_width = width.map(|s| s.to_string());
    config.custom_height = height.map(|s| s.to_string());
    config
}

fn rejection(result: Result<(), ConversionError>) -> String {
    match result {
        Err(error) => {
            assert_eq!(error.kind(), ErrorKind::InvalidInput);
            assert!(matches!(error, ConversionError::InvalidInput(_)));
            error.message().clone()
        }
        Ok(()) => panic!("accepted"),
    }
}

#[test]
fn missing_input_is_rejected_first() {
    let config = custom(Some("0"), Some("0"));
    assert_eq!(
        rejection(validate_task_input("/no/such.mov", InputKind::Missing, &config)),
        "Input file does not exist: /no/such.mov"
    );
}

#[test]
fn input_that_is_not_a_file_is_rejected() {
    assert_eq!(
        rejection(validate_task_input("/tmp", InputKind::NotAFile, &base_config())),
        "Input path is not a file: /tmp"
    );
}

#[test]
fn plain_request_is_accepted() {
    assert!(validate_task_input("/a/clip.mov", InputKind::File, &base_config()).is_ok());
}

#[test]
fn custom_width_zero_is_rejected() {
    assert_eq!(
        rejection(validate_task_input("f", InputKind::File, &custom(Some("0"), Some("720")))),
        "Resolution dimensions cannot be zero"
    );
    assert_eq!(
        rejection(validate_task_input("f", InputKind::File, &custom(Some("1280"), Some("-0")))),
        "Resolution dimensions cannot be zero"
    );
    assert_eq!(
        rejection(validate_task_input("f", InputKind::File, &custom(Some("+000"), None))),
        "Resolution dimensions cannot be zero"
    );
}

#[test]
fn custom_auto_width_with_height_is_accepted() {
    assert!(validate_task_input("f", InputKind::File, &custom(Some("-1"), Some("720"))).is_ok());
    assert!(validate_task_input("f", InputKind::File, &custom(None, None)).is_ok());
    assert!(validate_task_input("f", InputKind::File, &custom(Some("+1280"), Some("0720"))).is_ok());
    assert!(validate_task_input("f", InputKind::File, &custom(Some("2147483647"), None)).is_ok());
}

#[test]
fn custom_dimension_must_be_a_whole_number() {
    for bad in ["", "abc", "12.5", " 12", "12 ", "1e3", "+", "-", "--1", "2147483648", "-2147483649", "١٢"] {
        assert_eq!(
            rejection(validate_task_input("f", InputKind::File, &custom(Some(bad), Some("720")))),
            format!("Invalid custom width: {}", bad)
        );
        assert_eq!(
            rejection(validate_task_input("f", InputKind::File, &custom(Some("720"), Some(bad)))),
            format!("Invalid custom height: {}", bad)
        );
    }
    assert_eq!(
        rejection(validate_task_input("f", InputKind::File, &custom(Some("x"), Some("y")))),
        "Invalid custom width: x"
    );
}

#[test]
fn custom_dimension_below_minus_one_is_rejected() {
    for (w, h) in [("-2", "720"), ("1280", "-2"), ("-2147483648", "-1"), ("-1", "-100")] {
        assert_eq!(
            rejection(validate_task_input("f", InputKind::File, &custom(Some(w), Some(h)))),
            "Resolution dimensions cannot be negative (except -1 for auto)"
        );
    }
    assert_eq!(
        rejection(validate_task_input("f", InputKind::File, &custom(Some("-5"), Some("0")))),
        "Resolution dimensions cannot be zero"
    );
}

#[test]
fn dimensions_are_not_checked_without_custom_resolution() {
    let mut config = base_config();
    config.custom_width = Some("0".to_string());
    config.custom_height = Some("junk".to_string());
    assert!(validate_task_input("f", InputKind::File, &config).is_ok());
}

#[test]
fn bitrate_must_be_a_positive_number_in_bitrate_mode() {
    let mut config = base_config();
    config.video_bitrate_mode = "bitrate".to_string();
    for good in ["2500", "0.5", ".5", "5.", "+12", "1e3", "1E-2", "2.5e+3", "inf", "+Infinity", "INF", "0.0001"] {
        config.video_bitrate = good.to_string();
        assert!(validate_task_input("f", InputKind::File, &config).is_ok(), "{}", good);
    }
    for zero in ["0", "0.0", "-1", "-0.5", "-inf", "nan", "NaN", "0e5", "-0", "+0.000"] {
        config.video_bitrate = zero.to_string();
        assert_eq!(
            rejection(validate_task_input("f", InputKind::File, &config)),
            "Video bitrate must be positive",
            "{}",
            zero
        );
    }
    for bad in ["", "abc", "12k", ".", "+", "e5", "1e", "1e+", "1.2.3", " 1", "1 ", "0x10", "infinit", "1_000"] {
        config.video_bitrate = bad.to_string();
        assert_eq!(
            rejection(validate_task_input("f", InputKind::File, &config)),
            format!("Invalid video bitrate: {}", bad)
        );
    }
}

#[test]
fn bitrate_verdict_agrees_with_float_parsing() {
    let mut config = base_config();
    config.video_bitrate_mode = "bitrate".to_string();
    let samples = [
        "2500", "0.5", ".5", "5.", "+12", "1e3", "1E-2", "2.5e+3", "inf", "+Infinity", "0", "0.0",
        "-1", "-inf", "nan", "0e5", "", "abc", "12k", ".", "+", "e5", "1e", "1.2.3", " 1", "0x10",
        "-", "+.", "1e5e5", "١", "infinity", "-nan", "+nan", "00012", "1.e1", ".e1", "-.5",
    ];
    for text in samples {
        config.video_bitrate = text.to_string();
        let verdict = validate_task_input("f", InputKind::File, &config);
        let expected = match text.parse::<f64>() {
            Err(_) => Some(format!("Invalid video bitrate: {}", text)),
            Ok(v) if v <= 0.0 || v.is_nan() => Some("Video bitrate must be positive".to_string()),
            Ok(_) => None,
        };
        assert_eq!(verdict.err().map(|e| e.message().clone()), expected, "{:?}", text);
    }
}

#[test]
fn bitrate_is_not_checked_for_quality_mode_or_audio_only() {
    let mut config = base_config();
    config.video_bitrate = "junk".to_string();
    assert!(validate_task_input("f", InputKind::File, &config).is_ok());
    config.video_bitrate_mode = "bitrate".to_string();
    config.container = "MP3".to_string();
    assert!(validate_task_input("f", InputKind::File, &config).is_ok());
    config.container = "mkv".to_string();
    assert!(validate_task_input("f", InputKind::File, &config).is_err());
}

#[test]
fn resolution_fault_comes_before_bitrate_fault() {
    let mut config = custom(Some("0"), Some("1"));
    config.video_bitrate_mode = "bitrate".to_string();
    config.video_bitrate = "junk".to_string();
    assert_eq!(
        rejection(validate_task_input("f", InputKind::File, &config)),
        "Resolution dimensions cannot be zero"
    );
}
