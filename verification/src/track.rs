//! The main track: clips butt against each other, a transition overlaps the
//! join, and every position on the reel falls in exactly one clip.

use crate::model::{sound, Clip};
use crate::time::{greater, in_source, lesser, lower, on_axis, upper, Time, AXIS_END, SRC_MAX};
use vstd::prelude::*;

verus! {

/// No clip runs longer than this on the reel: the longest source at the slowest speed.
pub const LONGEST_RUN: Time = 0x640_0000_0000_0000;

/// Thousandths of a source second in a second of reel. A speed below a hundredth
/// is read as a hundredth, so that no clip runs forever.
pub open spec fn rate(speed: u32) -> int {
    upper(speed as int, 10)
}

/// How much of its source a clip keeps.
pub open spec fn kept(in_s: Time, out_s: Time) -> int {
    upper(out_s - in_s, 0)
}

/// How long `out_s - in_s` of source runs at a speed.
#[verifier::opaque]
pub open spec fn run_of(in_s: Time, out_s: Time, speed: u32) -> int {
    kept(in_s, out_s) * 1000 / rate(speed)
}

/// How long a clip runs on the reel.
pub open spec fn run_time(c: Clip) -> int {
    run_of(c.in_s, c.out_s, c.speed)
}

/// How long clip `i` overlaps the one before it. Nothing precedes the first
/// clip, a cut overlaps nothing, and an overlap takes at most half of either clip.
pub open spec fn overlap(clips: Seq<Clip>, i: int) -> int {
    if i <= 0 || i >= clips.len() || clips[i].transition is None {
        0
    } else {
        lower(
            clips[i].trans_dur as int,
            lower(run_time(clips[i - 1]) / 2, run_time(clips[i]) / 2),
        )
    }
}

/// The part of the reel clip `i` owns: its run, less what the next clip overlaps.
pub open spec fn extent(clips: Seq<Clip>, i: int) -> int {
    run_time(clips[i]) - overlap(clips, i + 1)
}

/// Where clip `i` starts on the reel; for `i` past the last clip, where the reel ends.
pub open spec fn start(clips: Seq<Clip>, i: int) -> int
    decreases i,
{
    if i <= 0 {
        0
    } else {
        start(clips, i - 1) + extent(clips, i - 1)
    }
}

/// How long the reel is.
pub open spec fn total(clips: Seq<Clip>) -> int {
    start(clips, clips.len() as int)
}

/// The clip that shows at `t`, looking from clip `k` on: the first that ends after
/// `t`, or else the last one.
pub open spec fn shown_from(clips: Seq<Clip>, t: int, k: int) -> int
    decreases clips.len() - k,
{
    if k >= clips.len() - 1 {
        clips.len() - 1
    } else if t < start(clips, k + 1) {
        k
    } else {
        shown_from(clips, t, k + 1)
    }
}

/// The clip that shows at `t`.
pub open spec fn shown(clips: Seq<Clip>, t: int) -> int {
    shown_from(clips, t, 0)
}

/// The source position that a kept span shows when `local` of its run has gone by.
/// It stays in the span, and a reversed one counts down from its out-point.
#[verifier::opaque]
pub open spec fn source_in(in_s: Time, out_s: Time, speed: u32, reverse: bool, local: int) -> int {
    let gone = lower(upper(local, 0) * rate(speed) / 1000, kept(in_s, out_s));
    if reverse {
        lower(in_s as int, out_s as int) + kept(in_s, out_s) - gone
    } else {
        lower(in_s as int, out_s as int) + gone
    }
}

/// The source position a clip shows when `local` of its run has gone by.
pub open spec fn source_at(c: Clip, local: int) -> int {
    source_in(c.in_s, c.out_s, c.speed, c.reverse, local)
}

/// The clip under a reel position and the source position it shows.
pub open spec fn located(clips: Seq<Clip>, t: int) -> Option<(int, int)> {
    if clips.len() == 0 {
        None
    } else {
        let k = shown(clips, t);
        Some((k, source_at(clips[k], t - start(clips, k))))
    }
}

/// The blend at a reel position: the incoming clip, how far the blend has got in
/// thousandths, and the source position of the incoming clip.
pub open spec fn blend_at(clips: Seq<Clip>, t: int) -> Option<(int, int, int)> {
    let k = shown(clips, t);
    let fade = overlap(clips, k + 1);
    let done = t - (start(clips, k + 1) - fade);
    if clips.len() == 0 || fade <= 0 || done < 0 {
        None
    } else {
        Some((k + 1, done * 1000 / fade, source_at(clips[k + 1], done)))
    }
}

/// Where a drop at `t` goes in, looking from clip `k` on: before the first clip
/// whose middle lies after `t`.
pub open spec fn slot_from(clips: Seq<Clip>, t: int, k: int) -> int
    decreases clips.len() - k,
{
    if k >= clips.len() {
        clips.len() as int
    } else if 2 * t < 2 * start(clips, k) + extent(clips, k) {
        k
    } else {
        slot_from(clips, t, k + 1)
    }
}

/// Where a drop at `t` goes in.
pub open spec fn slot(clips: Seq<Clip>, t: int) -> int {
    slot_from(clips, t, 0)
}

/// A drop goes in somewhere on the track.
pub proof fn lemma_slot(clips: Seq<Clip>, t: int, k: int)
    requires
        0 <= k <= clips.len(),
    ensures
        k <= slot_from(clips, t, k) <= clips.len(),
    decreases clips.len() - k,
{
    if k < clips.len() {
        lemma_slot(clips, t, k + 1);
    }
}

/// Where the clip at `k` stands after the `len` clips from `lo` on moved to `dest`.
pub open spec fn mapped(k: int, lo: int, len: int, dest: int) -> int {
    if lo <= k < lo + len {
        dest + (k - lo)
    } else {
        let rest = if k < lo { k } else { k - len };
        if rest < dest { rest } else { rest + len }
    }
}

/// A list with the `len` items from `lo` on lifted out and put back at `dest`.
pub open spec fn moved<T>(s: Seq<T>, lo: int, len: int, dest: int) -> Seq<T> {
    let rest = s.subrange(0, lo) + s.subrange(lo + len, s.len() as int);
    rest.subrange(0, dest) + s.subrange(lo, lo + len) + rest.subrange(dest, rest.len() as int)
}

/// A run is never negative and never past the longest one.
pub proof fn lemma_run(in_s: Time, out_s: Time, speed: u32)
    requires
        in_source(in_s),
        in_source(out_s),
    ensures
        0 <= run_of(in_s, out_s, speed) <= LONGEST_RUN,
{
    reveal(run_of);
    let a = kept(in_s, out_s) * 1000;
    let r = rate(speed);
    assert(0 <= a / r <= a / 10) by (nonlinear_arith)
        requires
            a >= 0,
            r >= 10,
    ;
}

/// Law: a clip keeps at least half of its run to itself, so extents are never
/// negative, and the two overlaps of a clip never meet.
pub proof fn law_extents(clips: Seq<Clip>, i: int)
    requires
        sound(clips),
        0 <= i < clips.len(),
    ensures
        0 <= run_time(clips[i]) <= LONGEST_RUN,
        0 <= overlap(clips, i) <= LONGEST_RUN,
        0 <= extent(clips, i) <= LONGEST_RUN,
        overlap(clips, i) + overlap(clips, i + 1) <= run_time(clips[i]),
        run_time(clips[i]) > 0 ==> extent(clips, i) > 0,
        run_time(clips[i]) > 0 ==> overlap(clips, i) < run_time(clips[i]),
{
    crate::model::lemma_sound_at(clips, i);
    lemma_run(clips[i].in_s, clips[i].out_s, clips[i].speed);
    if i > 0 {
        crate::model::lemma_sound_at(clips, i - 1);
        lemma_run(clips[i - 1].in_s, clips[i - 1].out_s, clips[i - 1].speed);
    }
    if i + 1 < clips.len() {
        crate::model::lemma_sound_at(clips, i + 1);
        lemma_run(clips[i + 1].in_s, clips[i + 1].out_s, clips[i + 1].speed);
    }
}

/// Starts lie on the axis, however many clips there are.
pub proof fn lemma_start_bound(clips: Seq<Clip>, i: int)
    requires
        sound(clips),
        0 <= i <= clips.len(),
    ensures
        0 <= start(clips, i) <= i * LONGEST_RUN,
    decreases i,
{
    if i > 0 {
        lemma_start_bound(clips, i - 1);
        law_extents(clips, i - 1);
        assert((i - 1) * LONGEST_RUN + LONGEST_RUN == i * LONGEST_RUN) by (nonlinear_arith);
    }
}

/// Starts of a track that fits in memory lie on the axis.
pub proof fn lemma_start_axis(clips: Seq<Clip>, i: int)
    requires
        sound(clips),
        0 <= i <= clips.len(),
        clips.len() <= usize::MAX,
    ensures
        0 <= start(clips, i) <= 0x800_0000_0000_0000_0000_0000_0000_0000,
        0x800_0000_0000_0000_0000_0000_0000_0000 < AXIS_END,
{
    lemma_start_bound(clips, i);
    assert(i * LONGEST_RUN <= 0xffff_ffff_ffff_ffff * LONGEST_RUN) by (nonlinear_arith)
        requires
            0 <= i <= 0xffff_ffff_ffff_ffff,
    ;
}

/// Law: clips stand in order on the reel.
pub proof fn law_starts_in_order(clips: Seq<Clip>, i: int, j: int)
    requires
        sound(clips),
        0 <= i <= j <= clips.len(),
    ensures
        start(clips, i) <= start(clips, j),
    decreases j - i,
{
    if i < j {
        law_starts_in_order(clips, i, j - 1);
        law_extents(clips, j - 1);
    }
}

/// Law: the clip that shows at `t` is the one whose part of the reel holds `t`,
/// and past the end it is the last one.
pub proof fn law_shown(clips: Seq<Clip>, t: int)
    requires
        sound(clips),
        clips.len() > 0,
        t >= 0,
    ensures
        0 <= shown(clips, t) < clips.len(),
        start(clips, shown(clips, t)) <= t,
        t < total(clips) ==> t < start(clips, shown(clips, t) + 1),
        t >= total(clips) ==> shown(clips, t) == clips.len() - 1,
        forall|k: int|
            0 <= k < clips.len() && start(clips, k) <= t < #[trigger] start(clips, k + 1)
                ==> k == shown(clips, t),
{
    lemma_shown_from(clips, t, 0);
    let s = shown(clips, t);
    if t >= total(clips) {
        if s < clips.len() - 1 {
            law_starts_in_order(clips, s + 1, clips.len() as int);
        }
    }
    assert forall|k: int|
        0 <= k < clips.len() && start(clips, k) <= t < #[trigger] start(clips, k + 1) implies k == s by {
        if k < s {
            law_starts_in_order(clips, k + 1, s);
        } else if s < k {
            law_starts_in_order(clips, s + 1, k);
        }
    }
}

proof fn lemma_shown_from(clips: Seq<Clip>, t: int, k: int)
    requires
        sound(clips),
        0 <= k < clips.len(),
        start(clips, k) <= t,
    ensures
        k <= shown_from(clips, t, k) < clips.len(),
        start(clips, shown_from(clips, t, k)) <= t,
        shown_from(clips, t, k) < clips.len() - 1 ==> t < start(clips, shown_from(clips, t, k) + 1),
    decreases clips.len() - k,
{
    if k >= clips.len() - 1 {
    } else if t < start(clips, k + 1) {
    } else {
        lemma_shown_from(clips, t, k + 1);
    }
}

/// Law: a source position that a clip shows lies in the span the clip keeps.
pub proof fn law_source_in_span(c: Clip, local: int)
    requires
        c.wf(),
        c.in_s <= c.out_s,
    ensures
        c.in_s <= source_at(c, local) <= c.out_s,
{
    reveal(source_in);
    let a = upper(local, 0) * rate(c.speed);
    assert(a >= 0) by (nonlinear_arith)
        requires
            a == upper(local, 0) * rate(c.speed),
            upper(local, 0) >= 0,
            rate(c.speed) >= 10,
    ;
}

/// Law: a moved block keeps its items and their order, and so does the rest; the
/// item at `k` is found again where `mapped` says.
pub proof fn law_block_move<T>(s: Seq<T>, lo: int, len: int, dest: int)
    requires
        0 <= lo,
        0 <= len,
        lo + len <= s.len(),
        0 <= dest <= s.len() - len,
    ensures
        moved(s, lo, len, dest).len() == s.len(),
        forall|k: int|
            0 <= k < s.len() ==> 0 <= #[trigger] mapped(k, lo, len, dest) < s.len()
                && moved(s, lo, len, dest)[mapped(k, lo, len, dest)] == s[k],
        forall|j: int, k: int|
            0 <= j < s.len() && 0 <= k < s.len() && #[trigger] mapped(j, lo, len, dest)
                == #[trigger] mapped(k, lo, len, dest) ==> j == k,
        dest == lo ==> moved(s, lo, len, dest) == s,
{
    if dest == lo {
        assert(moved(s, lo, len, dest) =~= s);
    }
}

/// How long a kept span of source runs.
pub fn run_length(in_s: Time, out_s: Time, speed: u32) -> (r: Time)
    requires
        in_source(in_s),
        in_source(out_s),
    ensures
        r == run_of(in_s, out_s, speed),
        0 <= r <= LONGEST_RUN,
{
    proof {
        lemma_run(in_s, out_s, speed);
        reveal(run_of);
    }
    let span: Time = greater(out_s - in_s, 0);
    span * 1000 / greater(speed as Time, 10)
}

impl Clip {
    /// How long the clip runs on the reel.
    pub fn trimmed(&self) -> (r: Time)
        requires
            self.wf(),
        ensures
            r == run_time(*self),
            0 <= r <= LONGEST_RUN,
    {
        run_length(self.in_s, self.out_s, self.speed)
    }
}

/// How long clip `i` overlaps the one before it.
pub fn fade_in(clips: &Vec<Clip>, i: usize) -> (r: Time)
    requires
        sound(clips@),
    ensures
        r == overlap(clips@, i as int),
        0 <= r <= LONGEST_RUN,
{
    if i == 0 || i >= clips.len() || clips[i].transition.is_none() {
        return 0;
    }
    proof {
        law_extents(clips@, i as int);
    }
    proof {
        crate::model::lemma_sound_at(clips@, i - 1);
        crate::model::lemma_sound_at(clips@, i as int);
    }
    lesser(clips[i].trans_dur, lesser(clips[i - 1].trimmed() / 2, clips[i].trimmed() / 2))
}

/// The part of the reel clip `i` owns.
pub fn extent_of(clips: &Vec<Clip>, i: usize) -> (r: Time)
    requires
        sound(clips@),
        i < clips.len(),
    ensures
        r == extent(clips@, i as int),
        0 <= r <= LONGEST_RUN,
{
    proof {
        law_extents(clips@, i as int);
    }
    proof {
        crate::model::lemma_sound_at(clips@, i as int);
    }
    clips[i].trimmed() - fade_in(clips, i + 1)
}

/// The part of the reel each clip owns.
pub fn extents(clips: &Vec<Clip>) -> (r: Vec<Time>)
    requires
        sound(clips@),
    ensures
        r.len() == clips.len(),
        forall|i: int| 0 <= i < r.len() ==> #[trigger] r[i] == extent(clips@, i),
{
    let mut r: Vec<Time> = Vec::new();
    let mut i: usize = 0;
    while i < clips.len()
        invariant
            sound(clips@),
            i <= clips.len(),
            r.len() == i,
            forall|k: int| 0 <= k < r.len() ==> #[trigger] r[k] == extent(clips@, k),
        decreases clips.len() - i,
    {
        r.push(extent_of(clips, i));
        i += 1;
    }
    r
}

/// Where clip `idx` starts on the reel; past the last clip, where the reel ends.
pub fn start_of(clips: &Vec<Clip>, idx: usize) -> (r: Time)
    requires
        sound(clips@),
    ensures
        r == start(clips@, lower(idx as int, clips.len() as int)),
        0 <= r < AXIS_END,
{
    let n: usize = if idx < clips.len() { idx } else { clips.len() };
    let mut i: usize = 0;
    let mut sum: Time = 0;
    proof {
        lemma_start_axis(clips@, 0);
    }
    while i < n
        invariant
            sound(clips@),
            i <= n <= clips.len(),
            sum == start(clips@, i as int),
            0 <= sum < AXIS_END,
        decreases n - i,
    {
        proof {
            lemma_start_axis(clips@, i + 1);
        }
        sum = sum + extent_of(clips, i);
        i += 1;
    }
    sum
}

/// How long the reel is.
pub fn total_of(clips: &Vec<Clip>) -> (r: Time)
    requires
        sound(clips@),
    ensures
        r == total(clips@),
        0 <= r < AXIS_END,
{
    start_of(clips, clips.len())
}

/// Where each clip starts and ends on the reel.
pub fn spans(clips: &Vec<Clip>) -> (r: Vec<(Time, Time)>)
    requires
        sound(clips@),
    ensures
        r@ == spans_of(clips@),
{
    let mut r: Vec<(Time, Time)> = Vec::new();
    let n: usize = clips.len();
    let mut i: usize = 0;
    let mut at: Time = 0;
    proof {
        lemma_start_axis(clips@, 0);
    }
    while i < n
        invariant
            sound(clips@),
            i <= n,
            n == clips.len(),
            at == start(clips@, i as int),
            0 <= at < AXIS_END,
            r.len() == i,
            forall|k: int|
                0 <= k < r.len() ==> #[trigger] r[k] == (
                start(clips@, k) as Time,
                start(clips@, k + 1) as Time),
        decreases n - i,
    {
        proof {
            lemma_start_axis(clips@, i + 1);
        }
        let end: Time = at + extent_of(clips, i);
        r.push((at, end));
        at = end;
        i += 1;
    }
    assert(r@ =~= spans_of(clips@));
    r
}

/// Where each clip starts and ends on the reel.
pub open spec fn spans_of(clips: Seq<Clip>) -> Seq<(Time, Time)> {
    Seq::new(clips.len(), |k: int| (start(clips, k) as Time, start(clips, k + 1) as Time))
}

/// The source position that a kept span shows when `local` of its run has gone by.
pub fn source_of(in_s: Time, out_s: Time, speed: u32, reverse: bool, local: Time) -> (r: Time)
    requires
        in_source(in_s),
        in_source(out_s),
        local <= AXIS_END,
    ensures
        r == source_in(in_s, out_s, speed, reverse, local as int),
        in_source(r),
{
    proof {
        reveal(source_in);
    }
    let span: Time = greater(out_s - in_s, 0);
    let base: Time = lesser(in_s, out_s);
    let v: Time = greater(speed as Time, 10);
    let local: Time = greater(local, 0);
    let gone: Time = if local >= LONGEST_RUN {
        assert(local * v / 1000 >= span) by (nonlinear_arith)
            requires
                local >= LONGEST_RUN,
                v >= 10,
                span <= SRC_MAX,
        ;
        span
    } else {
        assert(0 <= local * v <= LONGEST_RUN * 0xffff_ffff) by (nonlinear_arith)
            requires
                0 <= local < LONGEST_RUN,
                10 <= v <= 0xffff_ffff,
        ;
        lesser(local * v / 1000, span)
    };
    if reverse { base + span - gone } else { base + gone }
}

impl Clip {
    /// The source position the clip shows when `local` of its run has gone by.
    pub fn source_pos(&self, local: Time) -> (r: Time)
        requires
            self.wf(),
            local <= AXIS_END,
        ensures
            r == source_at(*self, local as int),
            in_source(r),
    {
        source_of(self.in_s, self.out_s, self.speed, self.reverse, local)
    }
}

/// The clip that shows at `t` and where it starts.
pub fn clip_at(clips: &Vec<Clip>, t: Time) -> (r: (usize, Time))
    requires
        sound(clips@),
        clips.len() > 0,
        on_axis(t),
    ensures
        r.0 == shown(clips@, t as int),
        r.0 < clips.len(),
        r.1 == start(clips@, r.0 as int),
        0 <= r.1 <= t,
{
    let mut k: usize = 0;
    let mut at: Time = 0;
    proof {
        lemma_start_axis(clips@, 0);
    }
    while k < clips.len() - 1
        invariant
            sound(clips@),
            k < clips.len(),
            at == start(clips@, k as int),
            0 <= at <= t,
            on_axis(t),
            shown(clips@, t as int) == shown_from(clips@, t as int, k as int),
        decreases clips.len() - k,
    {
        proof {
            lemma_start_axis(clips@, k + 1);
        }
        let end: Time = at + extent_of(clips, k);
        if t < end {
            return (k, at);
        }
        at = end;
        k += 1;
    }
    (k, at)
}

/// The clip under a reel position and the source position it shows: none on an
/// empty track, the last clip past the end.
pub fn locate(clips: &Vec<Clip>, t: Time) -> (r: Option<(usize, Time)>)
    requires
        sound(clips@),
        on_axis(t),
    ensures
        r is None <==> clips.len() == 0,
        r matches Some(p) ==> p.0 < clips.len() && in_source(p.1) && located(clips@, t as int) == Some(
            (p.0 as int, p.1 as int),
        ),
{
    if clips.len() == 0 {
        return None;
    }
    let (k, at) = clip_at(clips, t);
    proof {
        crate::model::lemma_sound_at(clips@, k as int);
    }
    Some((k, clips[k].source_pos(t - at)))
}

/// The blend at a reel position: the incoming clip, how far the blend has got in
/// thousandths, and the source position of the incoming clip.
pub fn transition_at(clips: &Vec<Clip>, t: Time) -> (r: Option<(usize, Time, Time)>)
    requires
        sound(clips@),
        on_axis(t),
    ensures
        r is None <==> blend_at(clips@, t as int) is None,
        r matches Some(p) ==> p.0 < clips.len() && 0 <= p.1 && in_source(p.2) && blend_at(
            clips@,
            t as int,
        ) == Some((p.0 as int, p.1 as int, p.2 as int)),
{
    if clips.len() == 0 {
        return None;
    }
    let (k, at) = clip_at(clips, t);
    proof {
        lemma_start_axis(clips@, k + 1);
        law_shown(clips@, t as int);
    }
    let fade: Time = fade_in(clips, k + 1);
    if fade <= 0 {
        return None;
    }
    let done: Time = t - (at + extent_of(clips, k) - fade);
    if done < 0 {
        return None;
    }
    assert(k + 1 < clips.len());
    proof {
        crate::model::lemma_sound_at(clips@, k + 1);
    }
    Some((k + 1, done * 1000 / fade, clips[k + 1].source_pos(done)))
}

/// Where a drop at `t` goes in on the track.
pub fn insert_index(clips: &Vec<Clip>, t: Time) -> (r: usize)
    requires
        sound(clips@),
        on_axis(t),
    ensures
        r == slot(clips@, t as int),
        r <= clips.len(),
{
    let n: usize = clips.len();
    let mut k: usize = 0;
    let mut at: Time = 0;
    proof {
        lemma_start_axis(clips@, 0);
    }
    while k < n
        invariant
            sound(clips@),
            k <= n,
            n == clips.len(),
            at == start(clips@, k as int),
            0 <= at < AXIS_END,
            on_axis(t),
            slot(clips@, t as int) == slot_from(clips@, t as int, k as int),
        decreases n - k,
    {
        proof {
            lemma_start_axis(clips@, k + 1);
        }
        let own: Time = extent_of(clips, k);
        if 2 * t < 2 * at + own {
            return k;
        }
        at = at + own;
        k += 1;
    }
    k
}

/// Where the clip at `k` stands after the `len` clips from `lo` on moved to `dest`.
pub fn block_map(k: usize, lo: usize, len: usize, dest: usize) -> (r: usize)
    requires
        lo + len <= usize::MAX,
        dest + len <= usize::MAX,
    ensures
        r == mapped(k as int, lo as int, len as int, dest as int),
{
    if lo <= k && k < lo + len {
        dest + (k - lo)
    } else {
        let rest: usize = if k < lo { k } else { k - len };
        if rest < dest { rest } else { rest + len }
    }
}

/// Law: a span runs on the reel for its source length over its speed, rounded down: at
/// twice the speed half as long.
pub proof fn law_run_is_length_over_speed(in_s: Time, out_s: Time, speed: u32)
    requires
        in_s <= out_s,
        speed >= 10,
    ensures
        speed * run_of(in_s, out_s, speed) <= 1000 * (out_s - in_s) < speed * run_of(in_s, out_s, speed) + speed,
        speed == 1000 ==> run_of(in_s, out_s, speed) == out_s - in_s,
{
    reveal(run_of);
    let k = (out_s - in_s) * 1000;
    let q = k / (speed as int);
    assert(speed * q <= k < speed * q + speed) by (nonlinear_arith)
        requires
            q == k / (speed as int),
            speed >= 10,
    ;
}

/// Law: a blend is as long as it was set, and never takes more than half of either
/// clip; a hard cut and the first clip have none.
pub proof fn law_overlap(clips: Seq<Clip>, i: int)
    requires
        0 <= i < clips.len(),
    ensures
        i == 0 || clips[i].transition is None ==> overlap(clips, i) == 0,
        i > 0 && clips[i].transition is Some ==> {
            let o = overlap(clips, i);
            &&& o <= clips[i].trans_dur
            &&& 2 * o <= run_time(clips[i]) || o < 0
            &&& 2 * o <= run_time(clips[i - 1]) || o < 0
            &&& o == clips[i].trans_dur || 2 * o + 1 >= run_time(clips[i]) || 2 * o + 1 >= run_time(clips[i - 1])
        },
        i + 1 < clips.len() ==> start(clips, i + 1) == start(clips, i) + run_time(clips[i]) - overlap(clips, i + 1),
        i + 1 == clips.len() ==> total(clips) == start(clips, i) + run_time(clips[i]),
{
}

/// Law: a clip shows its source from its in point on, one second of source for each
/// second of reel at normal speed and faster or slower in proportion; reversed it shows
/// the same positions mirrored.
pub proof fn law_source_runs(c: Clip, local: int)
    requires
        c.wf(),
        c.in_s <= c.out_s,
        0 <= local <= run_time(c),
        c.speed >= 10,
    ensures
        !c.reverse ==> source_at(c, 0) == c.in_s,
        c.reverse ==> source_at(c, 0) == c.out_s,
        !c.reverse ==> 1000 * (source_at(c, local) - c.in_s) <= local * c.speed < 1000 * (source_at(c, local) - c.in_s)
            + 1000,
        source_at(Clip { reverse: true, ..c }, local) + source_at(Clip { reverse: false, ..c }, local) == c.in_s
            + c.out_s,
{
    reveal(source_in);
    reveal(run_of);
    let k = c.out_s - c.in_s;
    let r = c.speed as int;
    let q = k * 1000 / r;
    assert(q * r <= k * 1000) by (nonlinear_arith)
        requires
            q == k * 1000 / r,
            r >= 10,
    ;
    assert(0 <= local * r <= q * r) by (nonlinear_arith)
        requires
            0 <= local <= q,
            r >= 10,
    ;
    assert(local * r / 1000 <= k);
    assert(0 * r == 0) by (nonlinear_arith);
}

/// Law: what is dropped at `t` goes in front of the first clip whose middle lies behind
/// `t`.
pub proof fn law_slot(clips: Seq<Clip>, t: int)
    ensures
        0 <= slot(clips, t) <= clips.len(),
        forall|k: int| 0 <= k < slot(clips, t) ==> start(clips, k) + (#[trigger] extent(clips, k)) - t <= t - start(clips, k),
        slot(clips, t) < clips.len() ==> start(clips, slot(clips, t)) + extent(clips, slot(clips, t)) - t > t - start(
            clips,
            slot(clips, t),
        ),
{
    lemma_slot_from(clips, t, 0);
}

proof fn lemma_slot_from(clips: Seq<Clip>, t: int, n: int)
    requires
        0 <= n <= clips.len(),
    ensures
        n <= slot_from(clips, t, n) <= clips.len(),
        forall|k: int|
            n <= k < slot_from(clips, t, n) ==> start(clips, k) + (#[trigger] extent(clips, k)) - t <= t - start(clips, k),
        slot_from(clips, t, n) < clips.len() ==> start(clips, slot_from(clips, t, n)) + extent(
            clips,
            slot_from(clips, t, n),
        ) - t > t - start(clips, slot_from(clips, t, n)),
    decreases clips.len() - n,
{
    if n < clips.len() && 2 * t >= 2 * start(clips, n) + extent(clips, n) {
        lemma_slot_from(clips, t, n + 1);
    }
}

/// Law: two clips blend while the end of the one overlaps the start of the next: the
/// next comes in from nothing to all, in proportion to the time that passed, showing its
/// source from its head on.
pub proof fn law_blend(clips: Seq<Clip>, t: int)
    requires
        sound(clips),
        clips.len() > 0,
        0 <= t < total(clips),
    ensures
        ({
            let k = shown(clips, t);
            let fade = overlap(clips, k + 1);
            let since = t - (start(clips, k + 1) - fade);
            &&& blend_at(clips, t) is Some <==> fade > 0 && since >= 0
            &&& blend_at(clips, t) matches Some((next, alpha, at)) ==> {
                &&& next == k + 1
                &&& next < clips.len()
                &&& 0 <= alpha < 1000
                &&& fade * alpha <= 1000 * since < fade * alpha + fade
                &&& at == source_at(clips[next], since)
            }
        }),
{
    law_shown(clips, t);
    let k = shown(clips, t);
    let fade = overlap(clips, k + 1);
    let since = t - (start(clips, k + 1) - fade);
    if fade > 0 && since >= 0 {
        let q = since * 1000 / fade;
        assert(fade * q <= since * 1000 < fade * q + fade) by (nonlinear_arith)
            requires
                q == since * 1000 / fade,
                fade > 0,
        ;
        assert(0 <= q < 1000) by (nonlinear_arith)
            requires
                fade * q <= since * 1000 < fade * q + fade,
                0 <= since < fade,
                fade > 0,
        ;
    }
}

} // verus!
