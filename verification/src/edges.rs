//! Cutting, freezing, replaying, resizing and snapping: rules on a single span.

use crate::time::{
    between, greater, hold_between, in_source, lesser, lower, on_axis, place, placed, upper, Time, AXIS_END,
    MIN_PIECE, SRC_MAX,
};
use crate::track::{rate, run_length, run_of, LONGEST_RUN};
use vstd::prelude::*;

verus! {

/// The shortest time a title card is held.
pub const MIN_HOLD: Time = 900_000;

/// Whether a span may be cut at `local`, with at least `min` left on both sides.
pub open spec fn can_cut(in_s: int, out_s: int, local: int, min: int) -> bool {
    local - in_s >= min && out_s - local >= min
}

/// Where a span is cut, or none when either side would be a sliver.
pub fn cut_local(in_s: Time, out_s: Time, local: Time, min: Time) -> (r: Option<Time>)
    requires
        in_source(in_s),
        in_source(out_s),
        -2 * AXIS_END <= local <= 2 * AXIS_END,
        in_source(min),
    ensures
        r == if can_cut(in_s as int, out_s as int, local as int, min as int) {
            Some(local)
        } else {
            None
        },
{
    if local - in_s >= min && out_s - local >= min { Some(local) } else { None }
}

/// Where a freeze frame goes relative to the clip it was taken from.
#[derive(Clone, Copy, PartialEq, Eq, Structural, Debug)]
pub enum FreezePlace {
    /// In front of the clip: the playhead is at its head.
    Before,
    /// Behind the clip: the playhead is at its tail.
    After,
    /// Between the two halves of the clip, cut at `local`.
    Split { local: Time },
}

/// Where a freeze at `local` goes: nowhere outside the span, between two halves
/// where both are long enough, and otherwise at the nearer usable end.
pub open spec fn freeze_spot(in_s: Time, out_s: Time, local: Time, min: Time) -> Option<FreezePlace> {
    if local < in_s || local > out_s {
        None
    } else if can_cut(in_s as int, out_s as int, local as int, min as int) {
        Some(FreezePlace::Split { local })
    } else if out_s - local >= min {
        Some(FreezePlace::Before)
    } else {
        Some(FreezePlace::After)
    }
}

pub fn freeze_place(in_s: Time, out_s: Time, local: Time, min: Time) -> (r: Option<FreezePlace>)
    requires
        in_source(in_s),
        in_source(out_s),
        in_source(local),
        in_source(min),
    ensures
        r == freeze_spot(in_s, out_s, local, min),
{
    if local < in_s || local > out_s {
        None
    } else if local - in_s >= min && out_s - local >= min {
        Some(FreezePlace::Split { local })
    } else if out_s - local >= min {
        Some(FreezePlace::Before)
    } else {
        Some(FreezePlace::After)
    }
}

/// The source a replay at `local` shows again: what led up to it, at most `want`
/// long and no earlier than the in-point; none when that is a sliver.
pub open spec fn replayed(in_s: Time, out_s: Time, local: Time, want: Time) -> Option<(Time, Time)> {
    let to = lower(local as int, out_s as int);
    let from = upper(in_s as int, to - want);
    if to - from < MIN_PIECE {
        None
    } else {
        Some((from as Time, to as Time))
    }
}

pub fn replay_span(in_s: Time, out_s: Time, local: Time, want: Time) -> (r: Option<(Time, Time)>)
    requires
        in_source(in_s),
        in_source(out_s),
        in_source(local),
        0 <= want <= AXIS_END,
    ensures
        r == replayed(in_s, out_s, local, want),
{
    let to: Time = lesser(local, out_s);
    let from: Time = greater(in_s, to - want);
    if to - from < MIN_PIECE { None } else { Some((from, to)) }
}

/// A card after one of its edges was dragged by `dt`. The right edge changes the
/// length only; the left edge leaves the right one where it is. A card starts no
/// earlier than the reel and is held for the shortest hold at least.
pub open spec fn card_resized(at: int, dur: int, left: bool, dt: int) -> (int, int) {
    if left {
        let end = at + dur;
        let to = upper(lower(at + dt, end - MIN_HOLD), 0);
        (placed(to), lower(end - placed(to), AXIS_END as int))
    } else {
        (at, placed(upper(dur + dt, MIN_HOLD as int)))
    }
}

pub fn title_edge_resize(at: Time, dur: Time, left: bool, dt: Time) -> (r: (Time, Time))
    requires
        on_axis(at),
        on_axis(dur),
        -AXIS_END <= dt <= AXIS_END,
    ensures
        card_resized(at as int, dur as int, left, dt as int) == (r.0 as int, r.1 as int),
        on_axis(r.0),
        on_axis(r.1),
{
    if left {
        let end: Time = at + dur;
        let to: Time = place(greater(lesser(at + dt, end - MIN_HOLD), 0));
        (to, lesser(end - to, AXIS_END))
    } else {
        (at, place(greater(dur + dt, MIN_HOLD)))
    }
}

/// Law: dragging the left edge of a card leaves its right edge where it is,
/// and no drag leaves less than the shortest hold or starts before the reel.
pub proof fn law_card_resize(at: Time, dur: Time, left: bool, dt: Time)
    requires
        on_axis(at),
        MIN_HOLD <= dur,
        at + dur <= AXIS_END,
        -AXIS_END <= dt <= AXIS_END,
    ensures
        card_resized(at as int, dur as int, left, dt as int).0 >= 0,
        card_resized(at as int, dur as int, left, dt as int).1 >= MIN_HOLD,
        left ==> card_resized(at as int, dur as int, left, dt as int).0 + card_resized(
            at as int,
            dur as int,
            left,
            dt as int,
        ).1 == at + dur,
        !left ==> card_resized(at as int, dur as int, left, dt as int).0 == at,
{
}

/// How long a card has to be held to reach the end of the reel.
pub open spec fn hold_to_end(at: int, end: int) -> int {
    upper(end - at, MIN_HOLD as int)
}

pub fn title_dur_to_end(at: Time, end: Time) -> (r: Time)
    requires
        on_axis(at),
        on_axis(end),
    ensures
        r == hold_to_end(at as int, end as int),
        on_axis(r),
{
    greater(end - at, MIN_HOLD)
}

/// `t` times `num` over `den`, rounded toward zero.
pub open spec fn scaled(t: int, num: int, den: int) -> int {
    if t >= 0 { t * num / den } else { -((-t) * num / den) }
}

/// The source covered by a drag of `dt` on the reel. A drag longer than any clip
/// counts as the longest run.
pub open spec fn dragged(dt: int, speed: u32) -> int {
    scaled(between(dt, -LONGEST_RUN, LONGEST_RUN as int), rate(speed), 1000)
}

/// The reel time that `ds` of source takes.
pub open spec fn retimed(ds: int, speed: u32) -> int {
    scaled(ds, 1000, rate(speed))
}

pub(crate) fn drag_source(dt: Time, speed: u32) -> (r: Time)
    ensures
        r == dragged(dt as int, speed),
        -0x1_0000_0000 * LONGEST_RUN <= r <= 0x1_0000_0000 * LONGEST_RUN,
{
    let d: Time = hold_between(dt, -LONGEST_RUN, LONGEST_RUN);
    let v: Time = greater(speed as Time, 10);
    let a: Time = if d >= 0 { d } else { -d };
    assert(0 <= a * v <= LONGEST_RUN * 0xffff_ffff) by (nonlinear_arith)
        requires
            0 <= a <= LONGEST_RUN,
            10 <= v <= 0xffff_ffff,
    ;
    if d >= 0 { a * v / 1000 } else { -(a * v / 1000) }
}

pub(crate) fn source_time(ds: Time, speed: u32) -> (r: Time)
    requires
        -SRC_MAX <= ds <= SRC_MAX,
    ensures
        r == retimed(ds as int, speed),
        -LONGEST_RUN <= r <= LONGEST_RUN,
{
    let v: Time = greater(speed as Time, 10);
    let a: Time = if ds >= 0 { ds } else { -ds };
    assert(0 <= a * 1000 / (v as int) <= a * 100) by (nonlinear_arith)
        requires
            a >= 0,
            v >= 10,
    ;
    if ds >= 0 { a * 1000 / v } else { -(a * 1000 / v) }
}

/// A piece of media after one of its edges was dragged by `dt` of reel time: the
/// new start on the reel, in-point and out-point. The points stay in the source
/// and a tenth of a second apart. A free item's left edge carries its start along;
/// on the main track the start is not the item's own.
pub open spec fn media_resized(
    at: int,
    in_s: int,
    out_s: int,
    duration: int,
    speed: u32,
    left: bool,
    dt: int,
    free: bool,
) -> (int, int, int) {
    if left {
        let to = upper(lower(in_s + dragged(dt, speed), out_s - MIN_PIECE), 0);
        (if free { placed(at + retimed(to - in_s, speed)) } else { at }, to, out_s)
    } else {
        (at, in_s, between(out_s + dragged(dt, speed), in_s + MIN_PIECE, duration))
    }
}

pub fn media_edge_resize(
    at: Time,
    in_s: Time,
    out_s: Time,
    duration: Time,
    speed: u32,
    left: bool,
    dt: Time,
    free: bool,
) -> (r: (Time, Time, Time))
    requires
        on_axis(at),
        in_source(in_s),
        in_source(out_s),
        in_source(duration),
    ensures
        media_resized(
            at as int,
            in_s as int,
            out_s as int,
            duration as int,
            speed,
            left,
            dt as int,
            free,
        ) == (r.0 as int, r.1 as int, r.2 as int),
        on_axis(r.0),
        in_source(r.1),
        in_source(r.2),
{
    let ds: Time = drag_source(dt, speed);
    if left {
        let to: Time = greater(lesser(in_s + ds, out_s - MIN_PIECE), 0);
        let at: Time = if free { place(at + source_time(to - in_s, speed)) } else { at };
        (at, to, out_s)
    } else {
        (at, in_s, hold_between(out_s + ds, in_s + MIN_PIECE, duration))
    }
}

/// A still after one of its edges was dragged by `dt`: it has no source to run out
/// of, so either edge stretches the hold freely.
pub open spec fn still_resized(at: int, in_s: Time, out_s: Time, speed: u32, left: bool, dt: int) -> (
    int,
    int,
    int,
) {
    let span = run_of(in_s, out_s, speed);
    if left {
        let end = at + span;
        let to = placed(upper(lower(at + dt, end - MIN_PIECE), 0));
        (to, in_s as int, lower(in_s + dragged(end - to, speed), SRC_MAX as int))
    } else {
        (at, in_s as int, lower(in_s + dragged(upper(span + dt, MIN_PIECE as int), speed), SRC_MAX as int))
    }
}

pub fn still_edge_resize(at: Time, in_s: Time, out_s: Time, speed: u32, left: bool, dt: Time) -> (r: (
    Time,
    Time,
    Time,
))
    requires
        on_axis(at),
        in_source(in_s),
        in_source(out_s),
        -AXIS_END <= dt <= AXIS_END,
    ensures
        still_resized(at as int, in_s, out_s, speed, left, dt as int) == (r.0 as int, r.1 as int, r.2 as int),
        on_axis(r.0),
        in_source(r.1),
        in_source(r.2),
{
    let span: Time = run_length(in_s, out_s, speed);
    if left {
        let end: Time = at + span;
        let to: Time = place(greater(lesser(at + dt, end - MIN_PIECE), 0));
        proof {
            lemma_dragged(end - to, speed);
        }
        (to, in_s, lesser(in_s + drag_source(end - to, speed), SRC_MAX))
    } else {
        let hold: Time = greater(span + dt, MIN_PIECE);
        proof {
            lemma_dragged(hold as int, speed);
        }
        (at, in_s, lesser(in_s + drag_source(hold, speed), SRC_MAX))
    }
}

proof fn lemma_dragged(dt: int, speed: u32)
    requires
        dt >= 0,
    ensures
        dragged(dt, speed) >= 0,
{
    let d = between(dt, -LONGEST_RUN, LONGEST_RUN as int);
    assert(d * rate(speed) >= 0) by (nonlinear_arith)
        requires
            d >= 0,
            rate(speed) >= 10,
    ;
}

/// How far apart two times are.
pub open spec fn apart(a: int, b: int) -> int {
    if a >= b { a - b } else { b - a }
}

/// Target `i` is the one a time snaps to: within tolerance, none nearer, and the
/// first of those as near.
pub open spec fn snaps(x: int, targets: Seq<Time>, tol: int, i: int) -> bool {
    &&& 0 <= i < targets.len()
    &&& apart(targets[i] as int, x) <= tol
    &&& forall|j: int|
        0 <= j < targets.len() ==> apart(targets[i] as int, x) <= apart(#[trigger] targets[j] as int, x)
    &&& forall|j: int| 0 <= j < i ==> apart(targets[i] as int, x) < apart(#[trigger] targets[j] as int, x)
}

/// A time pulled to the nearest target within tolerance, or left alone.
pub open spec fn snapped(x: int, targets: Seq<Time>, tol: int) -> int {
    if exists|i: int| #[trigger] snaps(x, targets, tol, i) {
        targets[choose|i: int| #[trigger] snaps(x, targets, tol, i)] as int
    } else {
        x
    }
}

proof fn lemma_one_snap(x: int, targets: Seq<Time>, tol: int, i: int)
    requires
        snaps(x, targets, tol, i),
    ensures
        snapped(x, targets, tol) == targets[i],
{
    let j = choose|j: int| #[trigger] snaps(x, targets, tol, j);
    assert(snaps(x, targets, tol, j));
    if i < j {
        assert(apart(targets[j] as int, x) < apart(targets[i] as int, x));
    }
    if j < i {
        assert(apart(targets[i] as int, x) < apart(targets[j] as int, x));
    }
}

/// Law: a time is pulled only to a target in reach, and to none that is farther than
/// another; a target in reach always pulls.
pub proof fn law_snap(x: int, targets: Seq<Time>, tol: int, k: int)
    requires
        0 <= k < targets.len(),
    ensures
        ({
            let r = snapped(x, targets, tol);
            &&& r == x || exists|i: int| 0 <= i < targets.len() && #[trigger] targets[i] == r
            &&& r == x || apart(r, x) <= tol
            &&& apart(targets[k] as int, x) <= tol ==> apart(r, x) <= apart(targets[k] as int, x) && exists|i: int|
                0 <= i < targets.len() && #[trigger] targets[i] == r
        }),
{
    if apart(targets[k] as int, x) <= tol {
        let i = lemma_nearest(x, targets, targets.len() as int);
        assert(apart(targets[i] as int, x) <= apart(targets[k] as int, x));
        assert(snaps(x, targets, tol, i));
    }
    if exists|i: int| #[trigger] snaps(x, targets, tol, i) {
        let i = choose|i: int| #[trigger] snaps(x, targets, tol, i);
        assert(snaps(x, targets, tol, i));
        assert(targets[i] == snapped(x, targets, tol));
    }
}

/// The first of the nearest among the first `n` targets.
proof fn lemma_nearest(x: int, targets: Seq<Time>, n: int) -> (i: int)
    requires
        0 < n <= targets.len(),
    ensures
        0 <= i < n,
        forall|j: int| 0 <= j < n ==> apart(targets[i] as int, x) <= apart(#[trigger] targets[j] as int, x),
        forall|j: int| 0 <= j < i ==> apart(targets[i] as int, x) < apart(#[trigger] targets[j] as int, x),
    decreases n,
{
    if n == 1 {
        0
    } else {
        let i = lemma_nearest(x, targets, n - 1);
        if apart(targets[n - 1] as int, x) < apart(targets[i] as int, x) {
            n - 1
        } else {
            i
        }
    }
}

/// Pull a time to the nearest target within tolerance, or leave it alone.
pub fn snap_to(x: Time, targets: &Vec<Time>, tol: Time) -> (r: Time)
    requires
        -AXIS_END <= x <= 2 * AXIS_END,
        forall|i: int| 0 <= i < targets.len() ==> on_axis(#[trigger] targets[i]),
    ensures
        r == snapped(x as int, targets@, tol as int),
        r == x || on_axis(r),
{
    let mut best: Option<usize> = None;
    let mut i: usize = 0;
    while i < targets.len()
        invariant
            -AXIS_END <= x <= 2 * AXIS_END,
            forall|j: int| 0 <= j < targets.len() ==> on_axis(#[trigger] targets[j]),
            i <= targets.len(),
            match best {
                None => forall|j: int| 0 <= j < i ==> apart(#[trigger] targets[j] as int, x as int) > tol,
                Some(b) => {
                    &&& b < i
                    &&& apart(targets[b as int] as int, x as int) <= tol
                    &&& forall|j: int|
                        0 <= j < i ==> apart(targets[b as int] as int, x as int) <= apart(
                            #[trigger] targets[j] as int,
                            x as int,
                        )
                    &&& forall|j: int|
                        0 <= j < b ==> apart(targets[b as int] as int, x as int) < apart(
                            #[trigger] targets[j] as int,
                            x as int,
                        )
                },
            },
        decreases targets.len() - i,
    {
        let d: Time = if targets[i] >= x { targets[i] - x } else { x - targets[i] };
        let nearer: bool = match best {
            None => d <= tol,
            Some(b) => {
                let e: Time = if targets[b] >= x { targets[b] - x } else { x - targets[b] };
                d < e
            },
        };
        if nearer {
            best = Some(i);
        }
        i += 1;
    }
    match best {
        None => {
            assert forall|j: int| !snaps(x as int, targets@, tol as int, j) by {
                if 0 <= j < targets.len() {
                    assert(apart(targets@[j] as int, x as int) > tol);
                }
            }
            x
        },
        Some(b) => {
            assert(snaps(x as int, targets@, tol as int, b as int));
            proof {
                lemma_one_snap(x as int, targets@, tol as int, b as int);
            }
            targets[b]
        },
    }
}

/// Law: a still is held in front of the frame it was taken from near the clip's head,
/// behind it near the tail, and otherwise parts the clip there, leaving at least the
/// shortest piece on either side; outside the kept range there is no place for it.
pub proof fn law_freeze_place(in_s: Time, out_s: Time, local: Time, min: Time)
    requires
        min >= 0,
    ensures
        freeze_spot(in_s, out_s, local, min) is None <==> local < in_s || local > out_s,
        freeze_spot(in_s, out_s, local, min) matches Some(FreezePlace::Split { local: l }) ==> l == local && in_s + min
            <= l && l + min <= out_s,
        in_s + min <= local && local + min <= out_s ==> freeze_spot(in_s, out_s, local, min) == Some(
            FreezePlace::Split { local },
        ),
        in_s <= local < in_s + min && local + min <= out_s ==> freeze_spot(in_s, out_s, local, min) == Some(
            FreezePlace::Before,
        ),
        in_s <= local <= out_s < local + min ==> freeze_spot(in_s, out_s, local, min) == Some(FreezePlace::After),
{
}

/// Law: a replay shows the source that led up to the playhead: it ends there, is as
/// long as asked or goes back to the clip's head, and is never shorter than a tenth of
/// a second.
pub proof fn law_replay_span(in_s: Time, out_s: Time, local: Time, want: Time)
    requires
        in_source(in_s),
        in_source(out_s),
        in_source(local),
        0 <= want <= AXIS_END,
    ensures
        replayed(in_s, out_s, local, want) matches Some((from, to)) ==> {
            &&& in_s <= from
            &&& to <= out_s
            &&& local <= out_s ==> to == local
            &&& local > out_s ==> to == out_s
            &&& to - want >= in_s ==> to - from == want
            &&& to - want < in_s ==> from == in_s
            &&& to - from >= MIN_PIECE
        },
        local <= out_s && want >= MIN_PIECE && local - in_s >= MIN_PIECE ==> replayed(in_s, out_s, local, want) is Some,
        local - in_s < MIN_PIECE ==> replayed(in_s, out_s, local, want) is None,
{
}

/// Law: dragging an edge of a clip at normal speed moves that edge by the drag and
/// leaves the other, where the source has room and a tenth of a second is left; an item
/// that stands free keeps the reel position of what it shows.
pub proof fn law_media_resize(at: int, in_s: int, out_s: int, duration: int, left: bool, dt: int, free: bool)
    requires
        0 <= at <= AXIS_END,
        0 <= in_s,
        in_s + MIN_PIECE <= out_s <= duration <= SRC_MAX,
        -LONGEST_RUN <= dt <= LONGEST_RUN,
    ensures
        ({
            let r = media_resized(at, in_s, out_s, duration, 1000, left, dt, free);
            &&& r.1 + MIN_PIECE <= r.2 <= duration && r.1 >= 0
            &&& left ==> r.2 == out_s
            &&& !left ==> r.0 == at && r.1 == in_s
            &&& left && 0 <= in_s + dt <= out_s - MIN_PIECE ==> r.1 - in_s == dt
            &&& !left && in_s + MIN_PIECE <= out_s + dt <= duration ==> r.2 - out_s == dt
            &&& left && !free ==> r.0 == at
            &&& left && free && 0 <= at + (r.1 - in_s) <= AXIS_END ==> r.0 - at == r.1 - in_s
        }),
{
    assert(scaled(dt, 1000, 1000) == dt);
    let to = upper(lower(in_s + dt, out_s - MIN_PIECE), 0);
    assert(scaled(to - in_s, 1000, 1000) == to - in_s);
}

/// Law: at another speed an edge moves through the source as much faster: a drag of
/// `dt` moves it by `dt` times the speed, to within a tick, the same way the drag goes.
pub proof fn law_drag_scales(dt: int, speed: u32)
    requires
        -LONGEST_RUN <= dt <= LONGEST_RUN,
    ensures
        dt >= 0 ==> 1000 * dragged(dt, speed) <= dt * rate(speed) < 1000 * dragged(dt, speed) + 1000,
        dragged(-dt, speed) == -dragged(dt, speed),
        speed >= 10 ==> rate(speed) == speed,
{
    assert(dt >= 0 ==> dt * rate(speed) >= 0) by (nonlinear_arith)
        requires
            rate(speed) >= 10,
    ;
    if dt == 0 {
        assert(0 * rate(speed) == 0) by (nonlinear_arith);
    }
}

/// Law: a still at normal speed is held as long as its edges say: dragging the right
/// edge changes the hold by the drag, dragging the left keeps the end where it is.
pub proof fn law_still_resize(at: int, in_s: Time, out_s: Time, left: bool, dt: int)
    requires
        0 <= at <= AXIS_END / 2,
        0 <= in_s <= out_s <= SRC_MAX / 2,
        out_s - in_s >= MIN_PIECE,
        -SRC_MAX / 2 <= dt <= SRC_MAX / 4,
        in_s == 0,
    ensures
        ({
            let r = still_resized(at, in_s, out_s, 1000, left, dt);
            let span = out_s - in_s;
            &&& r.1 == in_s
            &&& !left ==> r.0 == at
            &&& !left && span + dt >= MIN_PIECE ==> r.2 - out_s == dt
            &&& !left && span + dt < MIN_PIECE ==> r.2 - in_s == MIN_PIECE
            &&& left && 0 <= at + dt <= at + span - MIN_PIECE ==> r.0 - at == dt && r.0 + (r.2 - r.1) == at + span
        }),
{
    reveal(run_of);
    let span = out_s - in_s;
    assert(span * 1000 / 1000 == span);
    let a = upper(span + dt, MIN_PIECE as int);
    assert(scaled(a, 1000, 1000) == a);
    let to = placed(upper(lower(at + dt, at + span - MIN_PIECE), 0));
    let b = at + span - to;
    assert(scaled(b, 1000, 1000) == b);
}

/// Law: a title held to the end of the reel ends with it, or is up for the shortest
/// hold, three tenths of a second.
pub proof fn law_hold_to_end(at: int, end: int)
    ensures
        10 * (end - at) >= 3 * crate::time::SECOND ==> at + hold_to_end(at, end) == end,
        10 * (end - at) < 3 * crate::time::SECOND ==> 10 * hold_to_end(at, end) == 3 * crate::time::SECOND,
{
}

} // verus!
