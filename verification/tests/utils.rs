use conversion::number::{decimal_string, number_sign, parse_i32, parse_millis, parse_u32, parse_unsigned};
use conversion::text::{from_chars, join, same_text, same_text_ignore_ascii_case, to_chars, trim};
use conversion::types::FrameRate;
use conversion::utils::{
    is_audio_only_container, is_nvenc_codec, is_videotoolbox_codec, map_nvenc_preset,
    parse_frame_rate_string, parse_probe_bitrate, parse_time,
};

fn chars(s: &str) -> Vec<char> {
    s.chars().collect()
}

#[test]
fn containers_are_classified_without_regard_to_case() {
    for name in ["mp3", "wav", "flac", "aac", "m4a", "MP3", "Wav", "fLaC", "AAC", "M4a"] {
        assert!(is_audio_only_container(name), "{}", name);
    }
    for name in ["mp4", "mkv", "mov", "", "mp3 ", " mp3", "m4v", "ogg", "mp", "mp33", "ｍｐ３"] {
        assert!(!is_audio_only_container(name), "{}", name);
    }
}

#[test]
fn container_class_agrees_with_lowercasing() {
    for name in ["mp3", "MP3", "Mp4", "wAv", "ﬂac", "AAC", "M4A", "K", "aaC", "m4Å"] {
        let expected = matches!(name.to_lowercase().as_str(), "mp3" | "wav" | "flac" | "aac" | "m4a");
        assert_eq!(is_audio_only_container(name), expected, "{}", name);
    }
}

#[test]
fn codecs_are_classified_by_exact_name() {
    for codec in ["h264_nvenc", "hevc_nvenc", "av1_nvenc"] {
        assert!(is_nvenc_codec(codec));
        assert!(!is_videotoolbox_codec(codec));
    }
    for codec in ["h264_videotoolbox", "hevc_videotoolbox"] {
        assert!(is_videotoolbox_codec(codec));
        assert!(!is_nvenc_codec(codec));
    }
    for codec in ["libx264", "H264_NVENC", "nvenc", "", "h264_nvenc ", "prores_videotoolbox"] {
        assert!(!is_nvenc_codec(codec));
        assert!(!is_videotoolbox_codec(codec));
    }
}

#[test]
fn nvenc_presets_are_mapped() {
    for same in ["fast", "medium", "slow", "default", "p1", "p2", "p3", "p4", "p5", "p6", "p7"] {
        assert_eq!(map_nvenc_preset(same), same);
    }
    for quick in ["ultrafast", "superfast", "veryfast", "faster"] {
        assert_eq!(map_nvenc_preset(quick), "fast");
    }
    for slow in ["slower", "veryslow"] {
        assert_eq!(map_nvenc_preset(slow), "slow");
    }
    for other in ["", "placebo", "p8", "p0", "Fast", "hq"] {
        assert_eq!(map_nvenc_preset(other), "medium");
    }
}

#[test]
fn times_are_read_in_milliseconds() {
    assert_eq!(parse_time("00:00:00"), Some(0));
    assert_eq!(parse_time("00:00:02"), Some(2_000));
    assert_eq!(parse_time("00:00:07"), Some(7_000));
    assert_eq!(parse_time("01:02:03"), Some(3_723_000));
    assert_eq!(parse_time("01:02:03.5"), Some(3_723_500));
    assert_eq!(parse_time("1:2:3.045"), Some(3_723_045));
    assert_eq!(parse_time("0:0:1.0009"), Some(1_001));
    assert_eq!(parse_time("0:0:1.0004"), Some(1_000));
    assert_eq!(parse_time("0:0:7.9995"), Some(8_000));
    assert_eq!(parse_time("0:90:0"), Some(5_400_000));
    assert_eq!(parse_time("1.5:0:0"), Some(5_400_000));
    assert_eq!(parse_time("0:0:.5"), Some(500));
    assert_eq!(parse_time("0:0:5."), Some(5_000));
    assert_eq!(parse_time("100:00:00"), Some(360_000_000));
}

#[test]
fn malformed_times_are_not_read() {
    for bad in [
        "", "12", "00:00", "00:00:00:00", "::", "a:b:c", "00:00:0x", "00: 00:00", " 00:00:00",
        "00:00:-1", "0:0:.", "0:0:1.2.3", "0:0:1e3", "00;00;00",
    ] {
        assert_eq!(parse_time(bad), None, "{:?}", bad);
    }
    assert_eq!(parse_time("0:0:18446744073709551.615"), Some(u64::MAX));
    assert_eq!(parse_time("0:0:18446744073709551.616"), None);
    assert_eq!(parse_time("5124095576030431:0:0"), None);
    assert_eq!(parse_time("99999999999999999999999:0:0"), None);
}

#[test]
fn frame_rates_are_read_as_fractions() {
    assert_eq!(
        parse_frame_rate_string(Some("30000/1001")),
        Some(FrameRate { numerator: 30_000_000, denominator: 1_001_000 })
    );
    assert_eq!(parse_frame_rate_string(Some("25")), Some(FrameRate { numerator: 25_000, denominator: 1_000 }));
    assert_eq!(
        parse_frame_rate_string(Some(" 29.97 ")),
        Some(FrameRate { numerator: 29_970, denominator: 1_000 })
    );
    assert_eq!(
        parse_frame_rate_string(Some("24 / 1")),
        Some(FrameRate { numerator: 24_000, denominator: 1_000 })
    );
    assert_eq!(parse_frame_rate_string(Some("0/5")), Some(FrameRate { numerator: 0, denominator: 5_000 }));
}

#[test]
fn unknown_frame_rates_are_none() {
    for bad in ["", "   ", "n/a", "N/A", " N/a ", "0/0", "30/0", "30/", "/30", "a/b", "30/1/1", "fast"] {
        assert_eq!(parse_frame_rate_string(Some(bad)), None, "{:?}", bad);
    }
    assert_eq!(parse_frame_rate_string(None), None);
}

#[test]
fn probe_bitrates_are_read_in_bits_per_second() {
    assert_eq!(parse_probe_bitrate(Some("128000")), Some(128_000));
    assert_eq!(parse_probe_bitrate(Some(" 2500000 ")), Some(2_500_000));
    assert_eq!(parse_probe_bitrate(Some("1500.75")), Some(1_500));
    assert_eq!(parse_probe_bitrate(Some("0.5")), Some(0));
    for none in ["", "n/a", "N/A", "0", "0.0", "-5", "abc", " "] {
        assert_eq!(parse_probe_bitrate(Some(none)), None, "{:?}", none);
    }
    assert_eq!(parse_probe_bitrate(None), None);
}

#[test]
fn numbers_are_written_in_decimal() {
    assert_eq!(decimal_string(0), "0");
    assert_eq!(decimal_string(7), "7");
    assert_eq!(decimal_string(42), "42");
    assert_eq!(decimal_string(1_000), "1000");
    assert_eq!(decimal_string(u64::MAX), "18446744073709551615");
    for n in [0u64, 9, 10, 99, 100, 12_345, 4_294_967_295, u64::MAX - 1] {
        assert_eq!(decimal_string(n), n.to_string());
    }
}

#[test]
fn whole_numbers_are_read_within_limits() {
    assert_eq!(parse_unsigned(&chars("0"), 10), Some(0));
    assert_eq!(parse_unsigned(&chars("10"), 10), Some(10));
    assert_eq!(parse_unsigned(&chars("11"), 10), None);
    assert_eq!(parse_unsigned(&chars("0000000000000000000000010"), 10), Some(10));
    assert_eq!(parse_unsigned(&chars(""), 10), None);
    assert_eq!(parse_unsigned(&chars("1a"), 10), None);
    assert_eq!(parse_unsigned(&chars("18446744073709551615"), u64::MAX), Some(u64::MAX));
    assert_eq!(parse_unsigned(&chars("18446744073709551616"), u64::MAX), None);
    assert_eq!(parse_u32(&chars("4294967295")), Some(u32::MAX));
    assert_eq!(parse_u32(&chars("4294967296")), None);
    assert_eq!(parse_u32(&chars("+17")), Some(17));
    assert_eq!(parse_u32(&chars("-17")), None);
    assert_eq!(parse_i32(&chars("-2147483648")), Some(i32::MIN));
    assert_eq!(parse_i32(&chars("2147483647")), Some(i32::MAX));
    assert_eq!(parse_i32(&chars("2147483648")), None);
    assert_eq!(parse_i32(&chars("-1")), Some(-1));
    for text in ["0", "-0", "+5", "12", "-12", "", "+", "-", "1.0", "٣", "99999999999", "007"] {
        assert_eq!(parse_i32(&chars(text)), text.parse::<i32>().ok(), "{:?}", text);
        assert_eq!(parse_u32(&chars(text)), text.parse::<u32>().ok(), "{:?}", text);
    }
}

#[test]
fn thousandths_are_read_rounded_to_the_nearest() {
    assert_eq!(parse_millis(&chars("1")), Some(1_000));
    assert_eq!(parse_millis(&chars("1.2")), Some(1_200));
    assert_eq!(parse_millis(&chars("1.23")), Some(1_230));
    assert_eq!(parse_millis(&chars("1.234")), Some(1_234));
    assert_eq!(parse_millis(&chars("1.2349")), Some(1_235));
    assert_eq!(parse_millis(&chars("1.23449")), Some(1_234));
    assert_eq!(parse_millis(&chars("0.9995")), Some(1_000));
    assert_eq!(parse_millis(&chars("18446744073709551.6149")), Some(u64::MAX));
    assert_eq!(parse_millis(&chars("18446744073709551.6155")), None);
    assert_eq!(parse_millis(&chars(".5")), Some(500));
    assert_eq!(parse_millis(&chars("5.")), Some(5_000));
    assert_eq!(parse_millis(&chars(".")), None);
    assert_eq!(parse_millis(&chars("")), None);
    assert_eq!(parse_millis(&chars("1.2.3")), None);
    assert_eq!(parse_millis(&chars("-1")), None);
    assert_eq!(parse_millis(&chars("18446744073709551.615")), Some(u64::MAX));
    assert_eq!(parse_millis(&chars("18446744073709551.616")), None);
}

#[test]
fn number_sign_tells_numbers_from_other_text() {
    assert_eq!(number_sign(&chars("12")), Some(true));
    assert_eq!(number_sign(&chars("0")), Some(false));
    assert_eq!(number_sign(&chars("-3")), Some(false));
    assert_eq!(number_sign(&chars("abc")), None);
}

#[test]
fn text_helpers_keep_characters() {
    assert_eq!(to_chars("héllo→"), chars("héllo→"));
    assert_eq!(from_chars(&chars("héllo→")), "héllo→");
    assert!(same_text("abc", "abc"));
    assert!(!same_text("abc", "abd"));
    assert!(!same_text("abc", "ab"));
    assert!(!same_text("", "a"));
    assert!(same_text("", ""));
    assert!(same_text_ignore_ascii_case(&chars("N/A"), "n/a"));
    assert!(!same_text_ignore_ascii_case(&chars("N/B"), "n/a"));
    assert_eq!(trim(&chars("  a b \t\n")), &chars("a b")[..]);
    assert_eq!(trim(&chars("\u{2003}x\u{205f}")), &chars("x")[..]);
    assert_eq!(trim(&chars("\u{200b}x")), &chars("\u{200b}x")[..]);
    assert_eq!(trim(&chars("   ")), &chars("")[..]);
    assert_eq!(join(&vec!["a".to_string(), "b".to_string(), "c".to_string()], ", "), "a, b, c");
    assert_eq!(join(&vec!["a".to_string()], ","), "a");
    assert_eq!(join(&Vec::new(), ","), "");
}

#[test]
fn trimming_agrees_with_the_standard_library() {
    for code in 0u32..0x3100 {
        if let Some(c) = char::from_u32(code) {
            let text: String = [c, 'x', c].iter().collect();
            let expected: Vec<char> = text.trim().chars().collect();
            assert_eq!(trim(&chars(&text)), &expected[..], "U+{:04X}", code);
        }
    }
}
