//! Progress of the upscale pipeline as an exact fraction of a percent, and
//! the share of each stage in it: decoding fills 0 to 5, upscaling 5 to 90,
//! encoding 90 to 99.

use vstd::prelude::*;
use crate::types::FrameRate;

verus! {

/// A percentage as a fraction. Two values with the same fields are equal;
/// `same_value` compares what they are worth.
#[derive(Debug, Clone, Copy, PartialEq, Eq, Structural)]
pub struct Progress {
    pub numerator: u64,
    pub denominator: u64,
}

impl Progress {
    /// A progress value lies between 0 and 100 percent.
    pub open spec fn wf(self) -> bool {
        self.denominator > 0 && self.numerator <= 100 * self.denominator
    }

    /// Whether the value is at least `percent`.
    pub open spec fn at_least(self, percent: int) -> bool {
        self.numerator >= percent * self.denominator
    }

    /// Whether the value is at most `percent`.
    pub open spec fn at_most(self, percent: int) -> bool {
        self.numerator <= percent * self.denominator
    }

    /// Whether the value lies between `low` and `high` percent.
    pub open spec fn within(self, low: int, high: int) -> bool {
        self.wf() && self.at_least(low) && self.at_most(high)
    }

    /// Whether the value is worth `num / den` percent.
    pub open spec fn is(self, num: int, den: int) -> bool {
        self.numerator * den == num * self.denominator
    }

    /// Whether this value is no more than the other.
    pub open spec fn le(self, other: Progress) -> bool {
        self.numerator * other.denominator <= other.numerator * self.denominator
    }

    /// Nothing done yet.
    pub fn zero() -> (p: Progress)
        ensures
            p == (Progress { numerator: 0, denominator: 1 }),
            p.within(0, 0),
    {
        Progress { numerator: 0, denominator: 1 }
    }

    /// Whether two values are worth the same.
    pub fn same_value(&self, other: &Progress) -> (same: bool)
        ensures
            same == (self.numerator * other.denominator == other.numerator * self.denominator),
    {
        let a = self.numerator;
        let b = other.denominator;
        let c = other.numerator;
        let d = self.denominator;
        proof {
            lemma_product_fits(a, b);
            lemma_product_fits(c, d);
        }
        a as u128 * b as u128 == c as u128 * d as u128
    }

    /// The value in thousandths of a percent, rounded down.
    pub fn thousandths(&self) -> (t: u64)
        requires
            self.wf(),
        ensures
            t == self.numerator * 1000 / (self.denominator as int),
            t <= 100000,
    {
        let scaled = self.numerator as u128 * 1000;
        let t = scaled / self.denominator as u128;
        proof {
            let n = self.numerator as int;
            let d = self.denominator as int;
            assert(n * 1000 <= 100000 * d) by (nonlinear_arith)
                requires
                    n <= 100 * d,
            ;
            assert(n * 1000 / d <= 100000) by (nonlinear_arith)
                requires
                    n * 1000 <= 100000 * d,
                    d > 0,
            ;
        }
        t as u64
    }
}

/// The product of two 64-bit numbers fits in 128 bits.
pub proof fn lemma_product_fits(a: u64, b: u64)
    ensures
        0 <= a * b <= u128::MAX,
{
    assert(0 <= a * b <= 0xffff_ffff_ffff_ffff * 0xffff_ffff_ffff_ffff) by (nonlinear_arith)
        requires
            0 <= a <= 0xffff_ffff_ffff_ffff,
            0 <= b <= 0xffff_ffff_ffff_ffff,
    ;
}

/// The smaller of two numbers.
pub open spec fn smaller(a: int, b: int) -> int {
    if a <= b {
        a
    } else {
        b
    }
}

/// Progress of the decoding stage after `frame` of `total` frames:
/// `frame / total * 5`, at most 5.
pub open spec fn decode_share(total: u32, frame: u32) -> Progress {
    Progress { numerator: (5 * smaller(frame as int, total as int)) as u64, denominator: total as u64 }
}

/// Progress of the upscaling stage after `completed` of `total` frames:
/// `5 + completed / total * 85`, at most 90. Where the total is not known,
/// one percent for each frame, at most 85 above the 5.
pub open spec fn upscale_share(total: u32, completed: u32) -> Progress {
    if total > 0 {
        Progress {
            numerator: (5 * total + 85 * smaller(completed as int, total as int)) as u64,
            denominator: total as u64,
        }
    } else {
        Progress { numerator: (5 + smaller(completed as int, 85)) as u64, denominator: 1 }
    }
}

/// Progress of the encoding stage after `frame` of `total` frames:
/// `90 + frame / total * 10`, at most 99.
pub open spec fn encode_share(total: u32, frame: u32) -> Progress {
    if 10 * frame >= 9 * total {
        Progress { numerator: (99 * total) as u64, denominator: total as u64 }
    } else {
        Progress { numerator: (90 * total + 10 * frame) as u64, denominator: total as u64 }
    }
}

/// Progress of the decoding stage; none while the total is not known.
pub fn decode_progress(total: u32, frame: u32) -> (progress: Option<Progress>)
    ensures
        total == 0 ==> progress.is_none(),
        total > 0 ==> progress == Some(decode_share(total, frame)),
        total > 0 ==> progress.unwrap().within(0, 5),
        total > 0 && frame <= total ==> progress.unwrap().is(5 * frame, total as int),
{
    if total == 0 {
        None
    } else {
        let done = if frame <= total {
            frame
        } else {
            total
        };
        Some(Progress { numerator: 5 * (done as u64), denominator: total as u64 })
    }
}

/// Progress of the upscaling stage.
pub fn upscale_progress(total: u32, completed: u32) -> (progress: Progress)
    ensures
        progress == upscale_share(total, completed),
        progress.within(5, 90),
        total > 0 && completed <= total ==> progress.is(5 * total + 85 * completed, total as int),
{
    if total > 0 {
        let done = if completed <= total {
            completed
        } else {
            total
        };
        Progress { numerator: 5 * (total as u64) + 85 * (done as u64), denominator: total as u64 }
    } else {
        let done = if completed <= 85 {
            completed
        } else {
            85
        };
        Progress { numerator: 5 + done as u64, denominator: 1 }
    }
}

/// Progress of the encoding stage; none while the total is not known.
pub fn encode_progress(total: u32, frame: u32) -> (progress: Option<Progress>)
    ensures
        total == 0 ==> progress.is_none(),
        total > 0 ==> progress == Some(encode_share(total, frame)),
        total > 0 ==> progress.unwrap().within(90, 99),
        total > 0 && 10 * frame < 9 * total ==> progress.unwrap().is(
            90 * total + 10 * frame,
            total as int,
        ),
{
    if total == 0 {
        None
    } else if 10 * (frame as u64) >= 9 * (total as u64) {
        Some(Progress { numerator: 99 * (total as u64), denominator: total as u64 })
    } else {
        Some(
            Progress {
                numerator: 90 * (total as u64) + 10 * (frame as u64),
                denominator: total as u64,
            },
        )
    }
}

/// Each stage reports within its own share: decoding from 0 to 5 percent,
/// upscaling from 5 to 90, encoding from 90 to 99.
pub proof fn lemma_share_bounds(total: u32, frames: u32)
    ensures
        total > 0 ==> decode_share(total, frames).within(0, 5),
        upscale_share(total, frames).within(5, 90),
        total > 0 ==> encode_share(total, frames).within(90, 99),
{
}

/// Within a stage progress never falls while the count of frames does not
/// fall.
pub proof fn lemma_progress_rises_with_frames(total: u32, earlier: u32, later: u32)
    requires
        earlier <= later,
    ensures
        total > 0 ==> decode_share(total, earlier).le(decode_share(total, later)),
        upscale_share(total, earlier).le(upscale_share(total, later)),
        total > 0 ==> encode_share(total, earlier).le(encode_share(total, later)),
{
    let t = total as int;
    if total == 0 {
        assert(upscale_share(total, earlier).numerator <= upscale_share(total, later).numerator);
    }
    if total > 0 {
        let a = decode_share(total, earlier).numerator as int;
        let b = decode_share(total, later).numerator as int;
        assert(a * t <= b * t) by (nonlinear_arith)
            requires
                a <= b,
                t > 0,
        ;
        let c = upscale_share(total, earlier).numerator as int;
        let d = upscale_share(total, later).numerator as int;
        assert(c * t <= d * t) by (nonlinear_arith)
            requires
                c <= d,
                t > 0,
        ;
        let e = encode_share(total, earlier).numerator as int;
        let f = encode_share(total, later).numerator as int;
        assert(e * t <= f * t) by (nonlinear_arith)
            requires
                e <= f,
                t > 0,
        ;
    }
}

/// The shares of the stages follow one another: whatever decoding reports
/// is no more than whatever upscaling reports, and that no more than
/// whatever encoding reports, which stays below 100.
pub proof fn lemma_stages_in_order(decode: Progress, upscale: Progress, encode: Progress)
    requires
        decode.within(0, 5),
        upscale.within(5, 90),
        encode.within(90, 99),
    ensures
        decode.le(upscale),
        upscale.le(encode),
        decode.le(encode),
        !encode.at_least(100),
{
    lemma_bounds_give_order(decode, upscale, 5);
    lemma_bounds_give_order(upscale, encode, 90);
    lemma_bounds_give_order(decode, encode, 5);
}

/// A value of at most `mark` percent is no more than one of at least
/// `mark` percent.
pub proof fn lemma_bounds_give_order(low: Progress, high: Progress, mark: int)
    requires
        low.denominator > 0,
        high.denominator > 0,
        low.at_most(mark),
        high.at_least(mark),
        mark >= 0,
    ensures
        low.le(high),
{
    let a = low.numerator as int;
    let b = low.denominator as int;
    let c = high.numerator as int;
    let d = high.denominator as int;
    assert(a * d <= c * b) by (nonlinear_arith)
        requires
            a <= mark * b,
            c >= mark * d,
            b > 0,
            d > 0,
            a >= 0,
            c >= 0,
            mark >= 0,
    ;
}

/// The number of frames in a stretch of `millis` milliseconds at a frame
/// rate: the product, rounded up to a whole frame.
pub open spec fn frames_in(millis: int, rate: FrameRate) -> int {
    let frames_num = millis * rate.numerator;
    let frames_den = 1000 * rate.denominator;
    if frames_num % frames_den == 0 {
        frames_num / frames_den
    } else {
        frames_num / frames_den + 1
    }
}

/// A count of frames, held down to what 32 bits hold.
pub open spec fn frame_count(frames: int) -> u32 {
    if frames > u32::MAX {
        u32::MAX
    } else {
        frames as u32
    }
}

/// Estimates the number of frames in a stretch of time.
pub fn estimate_total_frames(millis: u64, rate: FrameRate) -> (frames: u32)
    requires
        rate.wf(),
    ensures
        frames == frame_count(frames_in(millis as int, rate)),
{
    proof {
        lemma_product_fits(millis, rate.numerator);
    }
    let frames_num: u128 = millis as u128 * rate.numerator as u128;
    let frames_den: u128 = 1000 * rate.denominator as u128;
    let whole = frames_num / frames_den;
    proof {
        let w = whole as int;
        let n = frames_num as int;
        let d = frames_den as int;
        assert(w * 1000 <= n) by (nonlinear_arith)
            requires
                w == n / d,
                d >= 1000,
                n >= 0,
        ;
    }
    let frames = if frames_num % frames_den == 0 {
        whole
    } else {
        whole + 1
    };
    if frames > u32::MAX as u128 {
        u32::MAX
    } else {
        frames as u32
    }
}

} // verus!
