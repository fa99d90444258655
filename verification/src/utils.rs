//! Small rules shared by the argument compiler and the upscale pipeline:
//! classes of containers and codecs, preset names, and the reading of times
//! and rates.

use vstd::prelude::*;
use vstd::slice::*;
use crate::number::{
    is_digit, fraction_part, is_decimal, lemma_decimal_value_nonneg, millis_value, parse_millis, whole_part,
    within,
};
use crate::text::{
    ascii_lowered, find_char, first_index, lemma_first_index, same_text,
    same_text_ignore_ascii_case, to_chars, trim, trimmed,
};
use crate::types::FrameRate;

verus! {

/// Containers that hold sound only; the name is matched without regard to
/// the case of ASCII letters.
pub open spec fn audio_only_container(container: Seq<char>) -> bool {
    let name = ascii_lowered(container);
    name == "mp3"@ || name == "wav"@ || name == "flac"@ || name == "aac"@ || name == "m4a"@
}

/// The NVENC encoders.
pub open spec fn nvenc_codec(codec: Seq<char>) -> bool {
    codec == "h264_nvenc"@ || codec == "hevc_nvenc"@ || codec == "av1_nvenc"@
}

/// The VideoToolbox encoders.
pub open spec fn videotoolbox_codec(codec: Seq<char>) -> bool {
    codec == "h264_videotoolbox"@ || codec == "hevc_videotoolbox"@
}

/// Preset names that the NVENC encoders know themselves.
pub open spec fn nvenc_native_preset(preset: Seq<char>) -> bool {
    ||| preset == "fast"@
    ||| preset == "medium"@
    ||| preset == "slow"@
    ||| preset == "default"@
    ||| preset == "p1"@
    ||| preset == "p2"@
    ||| preset == "p3"@
    ||| preset == "p4"@
    ||| preset == "p5"@
    ||| preset == "p6"@
    ||| preset == "p7"@
}

/// The NVENC preset that stands for a general preset name.
pub open spec fn nvenc_preset(preset: Seq<char>) -> Seq<char> {
    if nvenc_native_preset(preset) {
        preset
    } else if preset == "ultrafast"@ || preset == "superfast"@ || preset == "veryfast"@ || preset
        == "faster"@ {
        "fast"@
    } else if preset == "slower"@ || preset == "veryslow"@ {
        "slow"@
    } else {
        "medium"@
    }
}

/// Tells whether a container holds sound only.
pub fn is_audio_only_container(container: &str) -> (audio_only: bool)
    ensures
        audio_only == audio_only_container(container@),
{
    proof {
        reveal_strlit("mp3");
        reveal_strlit("wav");
        reveal_strlit("flac");
        reveal_strlit("aac");
        reveal_strlit("m4a");
        assert(ascii_lowered("mp3"@) =~= "mp3"@);
        assert(ascii_lowered("wav"@) =~= "wav"@);
        assert(ascii_lowered("flac"@) =~= "flac"@);
        assert(ascii_lowered("aac"@) =~= "aac"@);
        assert(ascii_lowered("m4a"@) =~= "m4a"@);
    }
    let chars = to_chars(container);
    let name = chars.as_slice();
    same_text_ignore_ascii_case(name, "mp3") || same_text_ignore_ascii_case(name, "wav")
        || same_text_ignore_ascii_case(name, "flac") || same_text_ignore_ascii_case(name, "aac")
        || same_text_ignore_ascii_case(name, "m4a")
}

/// Tells whether a codec is an NVENC encoder.
pub fn is_nvenc_codec(codec: &str) -> (nvenc: bool)
    ensures
        nvenc == nvenc_codec(codec@),
{
    same_text(codec, "h264_nvenc") || same_text(codec, "hevc_nvenc") || same_text(
        codec,
        "av1_nvenc",
    )
}

/// Tells whether a codec is a VideoToolbox encoder.
pub fn is_videotoolbox_codec(codec: &str) -> (videotoolbox: bool)
    ensures
        videotoolbox == videotoolbox_codec(codec@),
{
    same_text(codec, "h264_videotoolbox") || same_text(codec, "hevc_videotoolbox")
}

/// Maps a general preset name to the NVENC preset that stands for it.
pub fn map_nvenc_preset(preset: &str) -> (mapped: String)
    ensures
        mapped@ == nvenc_preset(preset@),
{
    if same_text(preset, "fast") || same_text(preset, "medium") || same_text(preset, "slow")
        || same_text(preset, "default") || same_text(preset, "p1") || same_text(preset, "p2")
        || same_text(preset, "p3") || same_text(preset, "p4") || same_text(preset, "p5")
        || same_text(preset, "p6") || same_text(preset, "p7") {
        preset.to_string()
    } else if same_text(preset, "ultrafast") || same_text(preset, "superfast") || same_text(
        preset,
        "veryfast",
    ) || same_text(preset, "faster") {
        "fast".to_string()
    } else if same_text(preset, "slower") || same_text(preset, "veryslow") {
        "slow".to_string()
    } else {
        "medium".to_string()
    }
}

/// What stands before the first colon.
pub open spec fn before_colon(s: Seq<char>) -> Seq<char> {
    s.take(first_index(s, ':'))
}

/// What follows the first colon.
pub open spec fn after_colon(s: Seq<char>) -> Seq<char> {
    s.skip(first_index(s, ':') + 1)
}

/// Whether `s` has exactly three fields separated by colons.
pub open spec fn has_three_fields(s: Seq<char>) -> bool {
    &&& first_index(s, ':') < s.len()
    &&& first_index(after_colon(s), ':') < after_colon(s).len()
    &&& first_index(after_colon(after_colon(s)), ':') == after_colon(after_colon(s)).len()
}

/// A time `H:M:S` in milliseconds. Each field is an unsigned decimal number
/// and may carry a fraction, which is rounded to thousandths.
pub open spec fn time_millis(s: Seq<char>) -> Option<int> {
    if has_three_fields(s) {
        match (
            millis_value(before_colon(s)),
            millis_value(before_colon(after_colon(s))),
            millis_value(after_colon(after_colon(s))),
        ) {
            (Some(h), Some(m), Some(sec)) => Some(h * 3600 + m * 60 + sec),
            _ => None,
        }
    } else {
        None
    }
}

/// The time that `parse_time` reads: `time_millis`, where it fits in 64
/// bits.
pub open spec fn parsed_time(s: Seq<char>) -> Option<u64> {
    match within(time_millis(s), u64::MAX as int) {
        Some(n) => Some(n as u64),
        None => None,
    }
}

/// A decimal number is not negative.
pub proof fn lemma_millis_nonneg(s: Seq<char>)
    requires
        is_decimal(s),
    ensures
        millis_value(s).unwrap() >= 0,
{
    lemma_decimal_value_nonneg(whole_part(s));
    let frac = fraction_part(s);
    if frac.len() > 0 {
        assert(is_digit(frac[0]));
    }
    if frac.len() > 1 {
        assert(is_digit(frac[1]));
    }
    if frac.len() > 2 {
        assert(is_digit(frac[2]));
    }
    if frac.len() > 3 {
        assert(is_digit(frac[3]));
    }
}

/// Reads a time `H:M:S` as milliseconds.
pub fn parse_time(time_str: &str) -> (time: Option<u64>)
    ensures
        time == parsed_time(time_str@),
{
    let chars = to_chars(time_str);
    let all = chars.as_slice();
    let i = find_char(all, ':');
    proof {
        lemma_first_index(all@, ':');
    }
    if i >= all.len() {
        return None;
    }
    let hours = slice_subrange(all, 0, i);
    let rest = slice_subrange(all, i + 1, all.len());
    assert(hours@ =~= before_colon(time_str@));
    assert(rest@ =~= after_colon(time_str@));
    let j = find_char(rest, ':');
    proof {
        lemma_first_index(rest@, ':');
    }
    if j >= rest.len() {
        return None;
    }
    let minutes = slice_subrange(rest, 0, j);
    let seconds = slice_subrange(rest, j + 1, rest.len());
    assert(minutes@ =~= before_colon(rest@));
    assert(seconds@ =~= after_colon(rest@));
    if find_char(seconds, ':') != seconds.len() {
        return None;
    }
    proof {
        if is_decimal(hours@) {
            lemma_millis_nonneg(hours@);
        }
        if is_decimal(minutes@) {
            lemma_millis_nonneg(minutes@);
        }
        if is_decimal(seconds@) {
            lemma_millis_nonneg(seconds@);
        }
    }
    let h = match parse_millis(hours) {
        Some(v) => v,
        None => { return None; },
    };
    let m = match parse_millis(minutes) {
        Some(v) => v,
        None => { return None; },
    };
    let s = match parse_millis(seconds) {
        Some(v) => v,
        None => { return None; },
    };
    let total: u128 = h as u128 * 3600 + m as u128 * 60 + s as u128;
    if total > u64::MAX as u128 {
        None
    } else {
        Some(total as u64)
    }
}

/// A decimal number in thousandths, where it fits in 64 bits.
pub open spec fn parsed_millis(s: Seq<char>) -> Option<u64> {
    match within(millis_value(s), u64::MAX as int) {
        Some(n) => Some(n as u64),
        None => None,
    }
}

/// Whether a reported value stands for "not known": blank, or `n/a` in any
/// case.
pub open spec fn not_available(s: Seq<char>) -> bool {
    trimmed(s).len() == 0 || ascii_lowered(trimmed(s)) == "n/a"@
}

/// The frame rate that a report such as `30000/1001` or `25` states.
/// Both sides of a fraction are read in thousandths, which leaves their
/// ratio as it is; a single number is taken over 1000.
pub open spec fn frame_rate_of(s: Seq<char>) -> Option<FrameRate> {
    let t = trimmed(s);
    if not_available(s) {
        None
    } else if first_index(t, '/') < t.len() {
        match (parsed_millis(trimmed(before_slash(t))), parsed_millis(trimmed(after_slash(t)))) {
            (Some(n), Some(d)) if d != 0 => Some(FrameRate { numerator: n, denominator: d }),
            _ => None,
        }
    } else {
        match parsed_millis(t) {
            Some(n) => Some(FrameRate { numerator: n, denominator: 1000 }),
            None => None,
        }
    }
}

/// What stands before the first slash.
pub open spec fn before_slash(s: Seq<char>) -> Seq<char> {
    s.take(first_index(s, '/'))
}

/// What follows the first slash.
pub open spec fn after_slash(s: Seq<char>) -> Seq<char> {
    s.skip(first_index(s, '/') + 1)
}

/// Tells whether a trimmed value stands for "not known".
fn is_not_available(t: &[char]) -> (na: bool)
    ensures
        na == (t@.len() == 0 || ascii_lowered(t@) == "n/a"@),
{
    proof {
        reveal_strlit("n/a");
        assert(ascii_lowered("n/a"@) =~= "n/a"@);
    }
    t.len() == 0 || same_text_ignore_ascii_case(t, "n/a")
}

/// Reads a reported frame rate.
pub fn parse_frame_rate_string(value: Option<&str>) -> (rate: Option<FrameRate>)
    ensures
        rate == match value {
            Some(s) => frame_rate_of(s@),
            None => None,
        },
        rate.is_some() ==> rate.unwrap().wf(),
{
    let s = match value {
        Some(s) => s,
        None => { return None; },
    };
    let chars = to_chars(s);
    let t = trim(chars.as_slice());
    if is_not_available(t) {
        return None;
    }
    let k = find_char(t, '/');
    proof {
        lemma_first_index(t@, '/');
    }
    if k < t.len() {
        let left = slice_subrange(t, 0, k);
        let right = slice_subrange(t, k + 1, t.len());
        assert(left@ =~= before_slash(t@));
        assert(right@ =~= after_slash(t@));
        let n = match parse_millis(trim(left)) {
            Some(v) => v,
            None => { return None; },
        };
        let d = match parse_millis(trim(right)) {
            Some(v) => v,
            None => { return None; },
        };
        if d == 0 {
            return None;
        }
        Some(FrameRate { numerator: n, denominator: d })
    } else {
        match parse_millis(t) {
            Some(n) => Some(FrameRate { numerator: n, denominator: 1000 }),
            None => None,
        }
    }
}

/// The bit rate that a report states, in whole bits per second, which is
/// the rate in kilobits per second counted in thousandths. A rate that is
/// not above zero is no rate.
pub open spec fn probe_bitrate_of(s: Seq<char>) -> Option<u64> {
    if not_available(s) {
        None
    } else {
        match parsed_millis(trimmed(s)) {
            Some(n) if n > 0 => Some(n / 1000),
            _ => None,
        }
    }
}

/// Reads a reported bit rate.
pub fn parse_probe_bitrate(raw: Option<&str>) -> (rate: Option<u64>)
    ensures
        rate == match raw {
            Some(s) => probe_bitrate_of(s@),
            None => None,
        },
{
    let s = match raw {
        Some(s) => s,
        None => { return None; },
    };
    let chars = to_chars(s);
    let t = trim(chars.as_slice());
    if is_not_available(t) {
        return None;
    }
    match parse_millis(t) {
        Some(n) => if n > 0 {
            Some(n / 1000)
        } else {
            None
        },
        None => None,
    }
}

} // verus!
