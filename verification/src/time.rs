//! Conversions between media clock ticks, frame numbers and nanoseconds.

use vstd::prelude::*;

verus! {

/// Nanoseconds in one second.
pub const SECOND: i64 = 1_000_000_000;

/// Nanoseconds in one millisecond.
pub const MILLISECOND: i64 = 1_000_000;

/// The `i64` nearest to an integer.
pub open spec fn saturated_i64(v: int) -> int {
    if v < i64::MIN {
        i64::MIN as int
    } else if v > i64::MAX {
        i64::MAX as int
    } else {
        v
    }
}

/// The `usize` nearest to an integer.
pub open spec fn saturated_usize(v: int) -> int {
    if v < 0 {
        0
    } else if v > usize::MAX {
        usize::MAX as int
    } else {
        v
    }
}

/// Quotient rounded toward zero, for a positive divisor.
pub open spec fn truncated_quotient(a: int, b: int) -> int {
    if a >= 0 {
        a / b
    } else {
        -((-a) / b)
    }
}

pub(crate) fn saturate_i64(v: i128) -> (r: i64)
    ensures
        r == saturated_i64(v as int),
{
    if v < i64::MIN as i128 {
        i64::MIN
    } else if v > i64::MAX as i128 {
        i64::MAX
    } else {
        v as i64
    }
}

pub(crate) fn saturate_usize(v: i128) -> (r: usize)
    ensures
        r == saturated_usize(v as int),
{
    if v < 0 {
        0
    } else if v > usize::MAX as i128 {
        usize::MAX
    } else {
        v as usize
    }
}

/// Integer quotient rounded toward negative infinity.
pub(crate) fn floor_div(a: i128, b: i128) -> (r: i128)
    requires
        b > 0,
        a > i128::MIN,
    ensures
        r == a as int / b as int,
{
    if a >= 0 {
        a / b
    } else {
        let n: i128 = -a;
        let q: i128 = n / b;
        let m: i128 = n % b;
        proof {
            let (ai, bi, qi, mi) = (a as int, b as int, q as int, m as int);
            vstd::arithmetic::div_mod::lemma_fundamental_div_mod(n as int, bi);
            assert((-qi) * bi == -(bi * qi)) by (nonlinear_arith);
            assert((-qi - 1) * bi == -(bi * qi) - bi) by (nonlinear_arith);
            if mi == 0 {
                vstd::arithmetic::div_mod::lemma_fundamental_div_mod_converse(ai, bi, -qi, 0);
            } else {
                vstd::arithmetic::div_mod::lemma_fundamental_div_mod_converse(ai, bi, -qi - 1, bi - mi);
            }
            assert(0 <= qi <= n) by {
                vstd::arithmetic::div_mod::lemma_div_is_ordered_by_denominator(n as int, 1, bi);
                vstd::arithmetic::div_mod::lemma_div_pos_is_pos(n as int, bi);
            }
        }
        if m == 0 {
            -q
        } else {
            -q - 1
        }
    }
}

/// Integer quotient rounded toward zero.
pub(crate) fn trunc_div(a: i128, b: i128) -> (r: i128)
    requires
        b > 0,
        a > i128::MIN,
    ensures
        r == truncated_quotient(a as int, b as int),
{
    if a >= 0 {
        a / b
    } else {
        let n: i128 = -a;
        let q: i128 = n / b;
        proof {
            vstd::arithmetic::div_mod::lemma_div_is_ordered_by_denominator(n as int, 1, b as int);
            vstd::arithmetic::div_mod::lemma_div_pos_is_pos(n as int, b as int);
        }
        -q
    }
}

/// The length of one clock tick as the fraction `numer / denom` of a second.
#[derive(Clone, Copy, Debug, PartialEq, Eq, Structural)]
pub struct TimeBase {
    pub numer: u32,
    pub denom: u32,
}

impl TimeBase {
    /// Neither part of the fraction is zero.
    pub open spec fn wf(self) -> bool {
        self.numer > 0 && self.denom > 0
    }

    /// The instant `ticks` ticks after zero, rounded down to a nanosecond.
    pub open spec fn instant(self, ticks: int) -> int {
        (ticks * self.numer * 1_000_000_000) / (self.denom as int)
    }

    pub fn new(numer: u32, denom: u32) -> (r: TimeBase)
        requires
            numer > 0,
            denom > 0,
        ensures
            r.wf(),
            r == (TimeBase { numer, denom }),
    {
        TimeBase { numer, denom }
    }

    /// The presentation time of a packet stamped `ticks`.
    pub fn nanos_of_pts(self, ticks: i64) -> (r: i64)
        requires
            self.wf(),
        ensures
            r == saturated_i64(self.instant(ticks as int)),
    {
        proof {
            lemma_tick_product(ticks as int, self.numer as int);
        }
        let scaled: i128 = ticks as i128 * self.numer as i128 * 1_000_000_000;
        saturate_i64(floor_div(scaled, self.denom as i128))
    }

    /// The time covered by `ticks` ticks.
    pub fn nanos_of_duration(self, ticks: u64) -> (r: i64)
        requires
            self.wf(),
        ensures
            r == saturated_i64(self.instant(ticks as int)),
            r >= 0,
    {
        proof {
            lemma_tick_product(ticks as int, self.numer as int);
            vstd::arithmetic::div_mod::lemma_div_pos_is_pos(
                ticks * self.numer * 1_000_000_000,
                self.denom as int,
            );
        }
        let scaled: i128 = ticks as i128 * self.numer as i128 * 1_000_000_000;
        saturate_i64(floor_div(scaled, self.denom as i128))
    }

    /// The clock tick to seek to for the instant `target`, rounded toward zero.
    pub fn ticks_at(self, target: i64) -> (r: i64)
        requires
            self.wf(),
        ensures
            r == saturated_i64(
                truncated_quotient(target * self.denom, self.numer * 1_000_000_000),
            ),
    {
        proof {
            let (t, d) = (target as int, self.denom as int);
            assert(-0x8000_0000_0000_0000 * 0x1_0000_0000 <= t * d <= 0x8000_0000_0000_0000
                * 0x1_0000_0000) by (nonlinear_arith)
                requires
                    -0x8000_0000_0000_0000 <= t <= 0x7fff_ffff_ffff_ffff,
                    0 <= d <= 0xffff_ffff,
            ;
        }
        let scaled: i128 = target as i128 * self.denom as i128;
        saturate_i64(trunc_div(scaled, self.numer as i128 * 1_000_000_000))
    }
}

proof fn lemma_tick_product(ticks: int, numer: int)
    requires
        -0x8000_0000_0000_0000 <= ticks <= 0xffff_ffff_ffff_ffff,
        0 <= numer <= 0xffff_ffff,
    ensures
        -0x8000_0000_0000_0000 * 0x1_0000_0000 <= ticks * numer <= 0x1_0000_0000_0000_0000
            * 0x1_0000_0000,
        ticks >= 0 ==> ticks * numer >= 0,
{
    assert(-0x8000_0000_0000_0000 * 0x1_0000_0000 <= ticks * numer <= 0x1_0000_0000_0000_0000
        * 0x1_0000_0000) by (nonlinear_arith)
        requires
            -0x8000_0000_0000_0000 <= ticks <= 0xffff_ffff_ffff_ffff,
            0 <= numer <= 0xffff_ffff,
    ;
    assert(ticks >= 0 ==> ticks * numer >= 0) by (nonlinear_arith)
        requires
            0 <= numer,
    ;
}

/// A frame rate as the fraction `num / den` of frames per second.
#[derive(Clone, Copy, Debug, PartialEq, Eq, Structural)]
pub struct FrameRate {
    pub num: u32,
    pub den: u32,
}

/// The frame rate assumed where a container does not give a plausible one.
pub const FALLBACK_FPS: u32 = 30;

/// The largest frame rate that a time base is trusted to stand for.
pub const MAX_PLAUSIBLE_FPS: u32 = 240;

impl FrameRate {
    pub open spec fn wf(self) -> bool {
        self.den > 0
    }

    /// The rate at which the ticks of a time base pass, where that lies between one
    /// and `MAX_PLAUSIBLE_FPS` per second; `FALLBACK_FPS` otherwise.
    pub open spec fn implied_by(time_base: Option<TimeBase>) -> FrameRate {
        match time_base {
            Some(tb) if tb.numer <= tb.denom <= MAX_PLAUSIBLE_FPS * tb.numer => FrameRate {
                num: tb.denom,
                den: tb.numer,
            },
            _ => FrameRate { num: FALLBACK_FPS, den: 1 },
        }
    }

    /// Time bases of MP4 files are often `1 / timescale` (such as `1 / 90000`), which is
    /// no frame rate: only a plausible one is believed.
    pub fn from_time_base(time_base: Option<TimeBase>) -> (r: FrameRate)
        requires
            time_base matches Some(tb) ==> tb.wf(),
        ensures
            r == FrameRate::implied_by(time_base),
            r.wf(),
    {
        if let Some(tb) = time_base {
            if tb.numer <= tb.denom && tb.denom as u64 <= MAX_PLAUSIBLE_FPS as u64 * tb.numer as u64 {
                return FrameRate { num: tb.denom, den: tb.numer };
            }
        }
        FrameRate { num: FALLBACK_FPS, den: 1 }
    }

    /// The number of the frame nearest to `t`, halves rounded up; instants before zero
    /// belong to frame 0.
    pub open spec fn frame_at(self, t: int) -> int {
        if t <= 0 {
            0
        } else {
            (2 * (t * self.num) + self.den * 1_000_000_000) / (2 * (self.den * 1_000_000_000))
        }
    }

    pub fn frame_index(self, t: i64) -> (r: usize)
        requires
            self.wf(),
        ensures
            r == saturated_usize(self.frame_at(t as int)),
    {
        if t <= 0 {
            return 0;
        }
        proof {
            let (ti, n) = (t as int, self.num as int);
            assert(0 <= ti * n <= 0x8000_0000_0000_0000 * 0x1_0000_0000) by (nonlinear_arith)
                requires
                    0 <= ti <= 0x7fff_ffff_ffff_ffff,
                    0 <= n <= 0xffff_ffff,
            ;
        }
        let per: i128 = self.den as i128 * 1_000_000_000;
        let scaled: i128 = 2 * (t as i128 * self.num as i128) + per;
        saturate_usize(floor_div(scaled, 2 * per))
    }
}

} // verus!
