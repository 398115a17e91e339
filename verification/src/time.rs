//! The time axis: whole ticks, three million to the second, so that one frame
//! at thirty frames per second, one millisecond and one microsecond are all a
//! whole number of ticks.

use crate::text::{cat2, cat3, cat4, decimal};
use vstd::prelude::*;

verus! {

/// A point or a length on the time axis, in ticks.
pub type Time = i128;

/// One second.
pub const SECOND: Time = 3_000_000;

/// One frame at thirty frames per second.
pub const FRAME: Time = 100_000;

/// A tenth of a second: the shortest piece a cut or a trim may leave.
pub const MIN_PIECE: Time = 300_000;

/// One microsecond: two times closer than this are the same time.
pub const SAME: Time = 3;

/// The longest source position the library works with: over forty years.
pub const SRC_MAX: Time = 0x10_0000_0000_0000;

/// The far end of the reel's time axis. No reel is ever this long: the sum of
/// as many clips as memory can index stays below it.
pub const AXIS_END: Time = 0x1000_0000_0000_0000_0000_0000_0000_0000;

/// A position inside a source file.
pub open spec fn in_source(t: Time) -> bool {
    0 <= t <= SRC_MAX
}

/// A position on the reel's time axis.
pub open spec fn on_axis(t: Time) -> bool {
    0 <= t <= AXIS_END
}

/// The smaller of two numbers.
pub open spec fn lower(a: int, b: int) -> int {
    if a <= b { a } else { b }
}

/// The larger of two numbers.
pub open spec fn upper(a: int, b: int) -> int {
    if a >= b { a } else { b }
}

/// `x` pulled up to `lo`, and after that down to `hi`.
pub open spec fn between(x: int, lo: int, hi: int) -> int {
    lower(upper(x, lo), hi)
}

/// `x` held on the time axis.
pub open spec fn placed(x: int) -> int {
    between(x, 0, AXIS_END as int)
}

pub fn lesser(a: Time, b: Time) -> (r: Time)
    ensures
        r == lower(a as int, b as int),
{
    if a <= b { a } else { b }
}

pub fn greater(a: Time, b: Time) -> (r: Time)
    ensures
        r == upper(a as int, b as int),
{
    if a >= b { a } else { b }
}

pub fn hold_between(x: Time, lo: Time, hi: Time) -> (r: Time)
    ensures
        r == between(x as int, lo as int, hi as int),
{
    lesser(greater(x, lo), hi)
}

/// Hold a position on the time axis.
pub fn place(x: Time) -> (r: Time)
    ensures
        r == placed(x as int),
        on_axis(r),
{
    hold_between(x, 0, AXIS_END)
}

/// `n` tenths as a decimal with one digit after the point.
pub open spec fn tenths_text(n: nat) -> Seq<char> {
    crate::text::digits(n / 10) + "."@ + crate::text::digits(n % 10)
}

/// `n` in decimal, with a zero before a single digit.
pub open spec fn two_digits(n: nat) -> Seq<char> {
    if n < 10 { "0"@ + crate::text::digits(n) } else { crate::text::digits(n) }
}

/// How many of `unit` there are in `t`, to the nearest one.
pub open spec fn nearest(t: int, unit: int) -> nat
    recommends
        t >= 0,
        unit > 0,
{
    ((t + unit / 2) / unit) as nat
}

/// The clock label of a time: minutes, seconds and tenths, as in `1:30.0`.
#[verifier::opaque]
pub open spec fn clock_text(t: int) -> Seq<char> {
    let n = nearest(t, SECOND / 10);
    crate::text::digits(n / 600) + ":"@ + two_digits((n / 10) % 60) + ("."@ + crate::text::digits(n % 10))
}

/// The length label of a clip: seconds below a minute, the clock below an hour,
/// hours after that.
#[verifier::opaque]
pub open spec fn length_text(t: int) -> Seq<char> {
    if t < 60 * SECOND {
        tenths_text(nearest(t, SECOND / 10)) + "s"@
    } else if t < 3600 * SECOND {
        clock_text(t)
    } else {
        tenths_text(nearest(t, 360 * SECOND)) + "h"@
    }
}

fn tenths(n: u128) -> (r: String)
    ensures
        r@ == tenths_text(n as nat),
{
    cat3(decimal(n / 10).as_str(), ".", decimal(n % 10).as_str())
}

fn padded(n: u128) -> (r: String)
    ensures
        r@ == two_digits(n as nat),
{
    if n < 10 { cat2("0", decimal(n).as_str()) } else { decimal(n) }
}

/// `n` hundredths as a decimal with two digits after the point.
#[verifier::opaque]
pub open spec fn hundredths_text(n: nat) -> Seq<char> {
    crate::text::digits(n / 100) + "."@ + two_digits(n % 100)
}

/// Write `n` hundredths with two digits after the point.
pub fn hundredths(n: u128) -> (r: String)
    ensures
        r@ == hundredths_text(n as nat),
{
    proof {
        reveal(hundredths_text);
    }
    cat3(decimal(n / 100).as_str(), ".", padded(n % 100).as_str())
}

/// A number with its sign in front.
#[verifier::opaque]
pub open spec fn signed_text(n: int) -> Seq<char> {
    if n < 0 { "-"@ + crate::text::digits((-n) as nat) } else { "+"@ + crate::text::digits(n as nat) }
}

/// Write a number with its sign in front.
pub fn signed(n: i64) -> (r: String)
    ensures
        r@ == signed_text(n as int),
{
    proof {
        reveal(signed_text);
    }
    if n < 0 {
        cat2("-", decimal((-(n as i128)) as u128).as_str())
    } else {
        cat2("+", decimal(n as u128).as_str())
    }
}

/// Write the clock label of a time.
pub fn fmt_t(t: Time) -> (r: String)
    requires
        on_axis(t),
    ensures
        r@ == clock_text(t as int),
{
    proof {
        reveal(clock_text);
    }
    let n: u128 = ((t + 150_000) / 300_000) as u128;
    let tail: String = cat2(".", decimal(n % 10).as_str());
    cat4(decimal(n / 600).as_str(), ":", padded((n / 10) % 60).as_str(), tail.as_str())
}

/// Write the length label of a clip.
pub fn fmt_clip_dur(t: Time) -> (r: String)
    requires
        on_axis(t),
    ensures
        r@ == length_text(t as int),
{
    proof {
        reveal(length_text);
    }
    if t < 60 * SECOND {
        let n: u128 = ((t + 150_000) / 300_000) as u128;
        cat2(tenths(n).as_str(), "s")
    } else if t < 3600 * SECOND {
        fmt_t(t)
    } else {
        let n: u128 = ((t + 540_000_000) / 1_080_000_000) as u128;
        cat2(tenths(n).as_str(), "h")
    }
}

/// Law: a clock reads minutes, seconds and tenths that add up to the time, to the
/// nearest tenth.
pub proof fn law_clock(t: int) -> (r: (nat, nat, nat))
    requires
        t >= 0,
    ensures
        ({
            let (m, s, d) = r;
            &&& clock_text(t) == crate::text::digits(m) + ":"@ + two_digits(s) + ("."@ + crate::text::digits(d))
            &&& s < 60 && d < 10
            &&& -(SECOND / 20) <= (600 * m + 10 * s + d) * 300_000 - t <= SECOND / 20
        }),
        SECOND / 10 == 300_000,
{
    reveal(clock_text);
    let n = nearest(t, SECOND / 10);
    assert(n == (t + 150_000) / 300_000);
    assert(n * 300_000 <= t + 150_000 < n * 300_000 + 300_000);
    assert(n == 600 * (n / 600) + 10 * ((n / 10) % 60) + n % 10);
    (n / 600, (n / 10) % 60, n % 10)
}

/// Law: holding a value between two bounds gives it back where it lies between them,
/// and the nearer bound where it does not.
pub proof fn law_held(x: int, lo: int, hi: int)
    requires
        lo <= hi,
    ensures
        lo <= x <= hi ==> between(x, lo, hi) == x,
        x < lo ==> between(x, lo, hi) == lo,
        x > hi ==> between(x, lo, hi) == hi,
        lower(lo, hi) == lo && upper(lo, hi) == hi,
        30 * FRAME == SECOND && 10 * MIN_PIECE == SECOND,
{
}

/// Law: a length under a minute reads in seconds to the nearest tenth, one from an hour
/// on in hours to the nearest tenth, and one between as a clock.
pub proof fn law_length(t: int)
    requires
        t >= 0,
    ensures
        t < 60 * SECOND ==> length_text(t) == tenths_text(nearest(t, 300_000)) + "s"@,
        60 * SECOND <= t < 3600 * SECOND ==> length_text(t) == clock_text(t),
        t >= 3600 * SECOND ==> length_text(t) == tenths_text(nearest(t, 360 * SECOND)) + "h"@,
        -150_000 <= nearest(t, 300_000) * 300_000 - t <= 150_000,
{
    reveal(length_text);
}

} // verus!
