//! Reading the diagnostic lines of the external tools: frame counters of
//! the transcoder, and the percentage lines and frame transitions of the
//! upscaler.

use vstd::prelude::*;
use crate::number::{is_digit, is_digit_char, parse_u32, u32_value};
use crate::text::to_chars;

verus! {

/// The pattern of a frame counter in the transcoder's output: `frame=`,
/// optional white space, then digits, which are captured.
pub const FRAME_PATTERN: &'static str = "frame=\\s*(\\d+)";

/// What capture group 1 of `pattern` holds at the first match in
/// `haystack`, as the regex crate finds it. `None` where the pattern does
/// not compile, does not match, or matches without that group.
pub uninterp spec fn regex_first_group(pattern: Seq<char>, haystack: Seq<char>) -> Option<Seq<char>>;

/// Trusted: compiles `pattern` with `regex::Regex::new`, searches
/// `haystack` with `Regex::captures`, and hands out the text of capture
/// group 1 (`Captures::get`, `Match::as_str`). The contract claims no more
/// than that the outcome depends on the two texts alone.
#[verifier::external_body]
fn first_group(pattern: &str, haystack: &str) -> (found: Option<String>)
    ensures
        found.deep_view() == regex_first_group(pattern@, haystack@),
{
    match regex::Regex::new(pattern) {
        Ok(re) => re.captures(haystack).and_then(|caps| caps.get(1)).map(|m| m.as_str().to_string()),
        Err(_) => None,
    }
}

/// The frame number that a captured run of digits writes; none where
/// nothing was captured or the digits are not a 32-bit number.
pub open spec fn frame_of_capture(capture: Option<Seq<char>>) -> Option<u32> {
    match capture {
        Some(digits) => match u32_value(digits) {
            Some(n) => Some(n as u32),
            None => None,
        },
        None => None,
    }
}

/// The frame number in a line of the transcoder's output.
pub open spec fn frame_in_line(line: Seq<char>) -> Option<u32> {
    frame_of_capture(regex_first_group(FRAME_PATTERN@, line))
}

/// Reads the frame number from what the frame pattern captured.
pub fn frame_from_capture(capture: &Option<String>) -> (frame: Option<u32>)
    ensures
        frame == frame_of_capture(capture.deep_view()),
{
    match capture {
        Some(digits) => {
            let chars = to_chars(digits.as_str());
            parse_u32(chars.as_slice())
        },
        None => None,
    }
}

/// Finds the frame number in a line of the transcoder's output.
pub fn frame_number(line: &str) -> (frame: Option<u32>)
    ensures
        frame == frame_in_line(line@),
{
    let capture = first_group(FRAME_PATTERN, line);
    frame_from_capture(&capture)
}

/// Whether a trimmed line of the upscaler only states a percentage: it
/// starts with a digit and ends with a percent sign.
pub open spec fn percentage_line(line: Seq<char>) -> bool {
    line.len() > 0 && line.last() == '%' && is_digit(line[0])
}

/// Tells whether a trimmed line only states a percentage.
pub fn is_percentage_line(line: &[char]) -> (noise: bool)
    ensures
        noise == percentage_line(line@),
{
    line.len() > 0 && line[line.len() - 1] == '%' && is_digit_char(line[0])
}

/// Whether a transition marker starts at position `i`: the arrow
/// character, or `->`.
pub open spec fn marker_at(line: Seq<char>, i: int) -> bool {
    0 <= i < line.len() && (line[i] == '\u{2192}' || (line[i] == '-' && i + 1 < line.len() && line[i
        + 1] == '>'))
}

/// Whether a line of the upscaler reports a finished frame: it holds a
/// transition marker.
pub open spec fn transition_line(line: Seq<char>) -> bool {
    exists|i: int| marker_at(line, i)
}

/// Tells whether a line reports a finished frame.
pub fn has_transition_marker(line: &[char]) -> (found: bool)
    ensures
        found == transition_line(line@),
{
    let mut i: usize = 0;
    while i < line.len()
        invariant
            i <= line.len(),
            forall|k: int| 0 <= k < i ==> !marker_at(line@, k),
        decreases line.len() - i,
    {
        if line[i] == '\u{2192}' || (line[i] == '-' && i + 1 < line.len() && line[i + 1] == '>') {
            assert(marker_at(line@, i as int));
            return true;
        }
        i = i + 1;
    }
    false
}

} // verus!
