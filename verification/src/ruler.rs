//! The timeline's scale and its ruler. A scale says how many thousandths of a
//! pixel a second takes.

use crate::editor::{Editor, EditorView};
use crate::model::{AudioItem, Clip, OverlayItem, Reel, Snapshot, TitleItem, TitleView};
use crate::time::{between, greater, hold_between, lesser, lower, upper, Time, AXIS_END, SECOND};
use crate::track::{
    lemma_run, lemma_start_axis, run_length, run_of, run_time, total, total_of, LONGEST_RUN,
};
use vstd::prelude::*;

verus! {

/// How wide the shortest clip is drawn.
pub const SHORTEST_WIDTH: Time = 48_000;

/// The span the scale is kept in before it is zoomed, and after.
pub const BASE_LEAST: Time = 14_000;

pub const BASE_MOST: Time = 240_000;

pub const SCALE_LEAST: Time = 2_000;

pub const SCALE_MOST: Time = 960_000;

/// How far the timeline zooms out and in, in thousandths.
pub const ZOOM_LEAST: u32 = 250;

pub const ZOOM_MOST: u32 = 6_000;

/// How far apart labelled ticks are at least.
pub const TICK_WIDTH: Time = 72_000;

/// Minor ticks are drawn up to this many labelled ones.
pub const MOST_TICKS: Time = 400;

/// The run of the shortest of the first `n` clips.
pub open spec fn shortest(clips: Seq<Clip>, n: int) -> int
    decreases n,
{
    if n <= 0 { LONGEST_RUN as int } else { lower(shortest(clips, n - 1), run_time(clips[n - 1])) }
}

/// The scale before it is zoomed: the shortest clip gets its width.
pub open spec fn base_scale(clips: Seq<Clip>) -> int {
    let run = shortest(clips, clips.len() as int);
    if clips.len() == 0 {
        BASE_LEAST as int
    } else if run == 0 {
        BASE_MOST as int
    } else {
        between(SHORTEST_WIDTH * SECOND / run, BASE_LEAST as int, BASE_MOST as int)
    }
}

pub open spec fn scale_for(clips: Seq<Clip>, zoom: u32) -> int {
    between(base_scale(clips) * zoom / 1000, SCALE_LEAST as int, SCALE_MOST as int)
}

/// The scale of the timeline.
pub fn calc_scale(clips: &Vec<Clip>, zoom: u32) -> (r: u32)
    requires
        crate::model::sound(clips@),
    ensures
        r == scale_for(clips@, zoom),
        SCALE_LEAST <= r <= SCALE_MOST,
{
    let n: usize = clips.len();
    let mut run: Time = LONGEST_RUN;
    let mut k: usize = 0;
    while k < n
        invariant
            crate::model::sound(clips@),
            k <= n,
            n == clips.len(),
            run == shortest(clips@, k as int),
            0 <= run <= LONGEST_RUN,
        decreases n - k,
    {
        proof {
            crate::model::lemma_sound_at(clips@, k as int);
            lemma_run(clips@[k as int].in_s, clips@[k as int].out_s, clips@[k as int].speed);
        }
        run = lesser(run, clips[k].trimmed());
        k += 1;
    }
    let base: Time = if n == 0 {
        BASE_LEAST
    } else if run == 0 {
        BASE_MOST
    } else {
        hold_between(SHORTEST_WIDTH * SECOND / run, BASE_LEAST, BASE_MOST)
    };
    assert(0 <= base * zoom <= BASE_MOST * 0xffff_ffff) by (nonlinear_arith)
        requires
            0 <= base <= BASE_MOST,
            0 <= zoom <= 0xffff_ffff,
    ;
    hold_between(base * (zoom as Time) / 1000, SCALE_LEAST, SCALE_MOST) as u32
}

/// The zoom a quarter closer, or as much farther.
pub open spec fn zoomed(zoom: u32, closer: bool) -> int {
    between(if closer { zoom * 5 / 4 } else { zoom * 4 / 5 }, ZOOM_LEAST as int, ZOOM_MOST as int)
}

pub fn zoom_by(zoom: u32, closer: bool) -> (r: u32)
    ensures
        r == zoomed(zoom, closer),
        ZOOM_LEAST <= r <= ZOOM_MOST,
{
    let z: u64 = if closer { zoom as u64 * 5 / 4 } else { zoom as u64 * 4 / 5 };
    if z < ZOOM_LEAST as u64 {
        ZOOM_LEAST
    } else if z > ZOOM_MOST as u64 {
        ZOOM_MOST
    } else {
        z as u32
    }
}

/// The steps a labelled tick may stand for.
pub open spec fn steps() -> Seq<Time> {
    seq![
        300_000 as Time,
        600_000 as Time,
        1_500_000 as Time,
        3_000_000 as Time,
        6_000_000 as Time,
        15_000_000 as Time,
        30_000_000 as Time,
        45_000_000 as Time,
        90_000_000 as Time,
        180_000_000 as Time,
    ]
}

/// The step that is used where none of them is wide enough.
pub const WIDEST_STEP: Time = 360_000_000;

/// Whether a step is wide enough at a scale.
pub open spec fn wide_enough(step: Time, scale: u32) -> bool {
    step * scale >= TICK_WIDTH * SECOND
}

/// The first step from `k` on that is wide enough.
pub open spec fn step_from(scale: u32, k: int) -> Time
    decreases steps().len() - k,
{
    if k < 0 || k >= steps().len() {
        WIDEST_STEP
    } else if wide_enough(steps()[k], scale) {
        steps()[k]
    } else {
        step_from(scale, k + 1)
    }
}

/// What a labelled tick stands for, and what a minor one does: a quarter, unless
/// the track is so long that there would be too many.
pub open spec fn ticks(scale: u32, end: int) -> (int, int) {
    let major = step_from(scale, 0);
    (major as int, if end > MOST_TICKS * major { major as int } else { major / 4 })
}

pub fn ruler_ticks(scale: u32, end: Time) -> (r: (Time, Time))
    ensures
        ticks(scale, end as int) == (r.0 as int, r.1 as int),
        0 < r.1 <= r.0,
{
    let all: Vec<Time> = vec![
        300_000,
        600_000,
        1_500_000,
        3_000_000,
        6_000_000,
        15_000_000,
        30_000_000,
        45_000_000,
        90_000_000,
        180_000_000,
    ];
    assert(all@ =~= steps());
    let mut major: Time = WIDEST_STEP;
    let mut k: usize = all.len();
    while k > 0
        invariant
            all@ == steps(),
            k <= all.len(),
            major == step_from(scale, k as int),
            300_000 <= major <= WIDEST_STEP,
        decreases k,
    {
        k -= 1;
        let step: Time = all[k];
        assert(300_000 <= step <= WIDEST_STEP);
        assert(0 <= step * scale <= WIDEST_STEP * 0xffff_ffff) by (nonlinear_arith)
            requires
                0 <= step <= WIDEST_STEP,
                0 <= scale <= 0xffff_ffff,
        ;
        if step * (scale as Time) >= TICK_WIDTH * SECOND {
            major = step;
        }
    }
    (major, if end > MOST_TICKS * major { major } else { major / 4 })
}

/// Law: labelled ticks never crowd, as long as a tick of the widest step is wide
/// enough; and a minor tick divides the labelled one evenly.
pub proof fn law_ticks_do_not_crowd(scale: u32, end: int)
    requires
        SCALE_LEAST <= scale,
    ensures
        ticks(scale, end).0 * scale >= TICK_WIDTH * SECOND,
        ticks(scale, end).0 == ticks(scale, end).1 || ticks(scale, end).0 == 4 * ticks(scale, end).1,
{
    lemma_step(scale, 0);
}

proof fn lemma_step(scale: u32, k: int)
    requires
        0 <= k <= steps().len(),
        SCALE_LEAST <= scale,
    ensures
        wide_enough(step_from(scale, k), scale),
        step_from(scale, k) % 4 == 0,
    decreases steps().len() - k,
{
    if k < steps().len() && !wide_enough(steps()[k], scale) {
        lemma_step(scale, k + 1);
    }
    if k == steps().len() {
        assert(WIDEST_STEP * scale >= TICK_WIDTH * SECOND) by (nonlinear_arith)
            requires
                scale >= SCALE_LEAST,
                SCALE_LEAST == 2_000,
                WIDEST_STEP == 360_000_000,
                TICK_WIDTH == 72_000,
                SECOND == 3_000_000,
        ;
    }
}

/// Where the last of the first `n` cutaways ends.
pub open spec fn overlays_end(s: Seq<OverlayItem>, n: int) -> int
    decreases n,
{
    if n <= 0 {
        0
    } else {
        upper(overlays_end(s, n - 1), s[n - 1].at + run_of(s[n - 1].in_s, s[n - 1].out_s, s[n - 1].speed))
    }
}

/// Where the last of the first `n` cards ends.
pub open spec fn titles_end(s: Seq<TitleView>, n: int) -> int
    decreases n,
{
    if n <= 0 { 0 } else { upper(titles_end(s, n - 1), s[n - 1].at + s[n - 1].dur) }
}

/// Where the last of the first `n` beds ends.
pub open spec fn beds_end(s: Seq<AudioItem>, n: int) -> int
    decreases n,
{
    if n <= 0 { 0 } else { upper(beds_end(s, n - 1), s[n - 1].at + s[n - 1].out_s - s[n - 1].in_s) }
}

/// Where the last item of any lane ends.
pub open spec fn track_end(r: Reel) -> int {
    upper(
        upper(
            upper(total(r.clips), overlays_end(r.overlays, r.overlays.len() as int)),
            titles_end(r.titles, r.titles.len() as int),
        ),
        beds_end(r.audios, r.audios.len() as int),
    )
}

impl Snapshot {
    fn overlays_end(&self) -> (r: Time)
        requires
            self@.wf(),
        ensures
            r == overlays_end(self@.overlays, self@.overlays.len() as int),
            0 <= r <= 2 * AXIS_END,
    {
        let n: usize = self.overlays.len();
        let mut end: Time = 0;
        let mut k: usize = 0;
        while k < n
            invariant
                self@.wf(),
                k <= n,
                n == self.overlays.len(),
                end == overlays_end(self@.overlays, k as int),
                0 <= end <= 2 * AXIS_END,
            decreases n - k,
        {
            proof {
                crate::model::lemma_overlays_ok_at(self@.overlays, k as int);
                lemma_run(self@.overlays[k as int].in_s, self@.overlays[k as int].out_s, self@.overlays[k as int].speed);
            }
            let o: &OverlayItem = &self.overlays[k];
            end = greater(end, o.at + run_length(o.in_s, o.out_s, o.speed));
            k += 1;
        }
        end
    }

    fn titles_end(&self) -> (r: Time)
        requires
            self@.wf(),
        ensures
            r == titles_end(self@.titles, self@.titles.len() as int),
            0 <= r <= 2 * AXIS_END,
    {
        let n: usize = self.titles.len();
        let mut end: Time = 0;
        let mut k: usize = 0;
        while k < n
            invariant
                self@.wf(),
                k <= n,
                n == self.titles.len(),
                end == titles_end(self@.titles, k as int),
                0 <= end <= 2 * AXIS_END,
            decreases n - k,
        {
            proof {
                crate::model::lemma_titles_ok_at(self@.titles, k as int);
            }
            let t: &TitleItem = &self.titles[k];
            end = greater(end, t.at + t.dur);
            k += 1;
        }
        end
    }

    fn beds_end(&self) -> (r: Time)
        requires
            self@.wf(),
        ensures
            r == beds_end(self@.audios, self@.audios.len() as int),
            0 <= r <= 2 * AXIS_END,
    {
        let n: usize = self.audios.len();
        let mut end: Time = 0;
        let mut k: usize = 0;
        while k < n
            invariant
                self@.wf(),
                k <= n,
                n == self.audios.len(),
                end == beds_end(self@.audios, k as int),
                0 <= end <= 2 * AXIS_END,
            decreases n - k,
        {
            proof {
                crate::model::lemma_audios_ok_at(self@.audios, k as int);
            }
            let a: &AudioItem = &self.audios[k];
            end = greater(end, a.at + a.out_s - a.in_s);
            k += 1;
        }
        end
    }

    /// Where the last item of any lane ends.
    pub fn track_end(&self) -> (r: Time)
        requires
            self@.wf(),
        ensures
            r == track_end(self@),
            0 <= r <= 2 * AXIS_END,
    {
        let n: usize = self.clips.len();
        proof {
            lemma_start_axis(self@.clips, n as int);
        }
        let end: Time = greater(total_of(&self.clips), self.overlays_end());
        greater(greater(end, self.titles_end()), self.beds_end())
    }
}

/// Law: every clip, cutaway, card and bed ends on the drawn track.
pub proof fn law_track_covers(r: Reel, k: int)
    ensures
        total(r.clips) <= track_end(r),
        0 <= k < r.overlays.len() ==> r.overlays[k].at + run_of(
            r.overlays[k].in_s,
            r.overlays[k].out_s,
            r.overlays[k].speed,
        ) <= track_end(r),
        0 <= k < r.titles.len() ==> r.titles[k].at + r.titles[k].dur <= track_end(r),
        0 <= k < r.audios.len() ==> r.audios[k].at + r.audios[k].out_s - r.audios[k].in_s <= track_end(r),
{
    if 0 <= k < r.overlays.len() {
        lemma_overlays_end(r.overlays, k, r.overlays.len() as int);
    }
    if 0 <= k < r.titles.len() {
        lemma_titles_end(r.titles, k, r.titles.len() as int);
    }
    if 0 <= k < r.audios.len() {
        lemma_beds_end(r.audios, k, r.audios.len() as int);
    }
}

proof fn lemma_overlays_end(s: Seq<OverlayItem>, k: int, n: int)
    requires
        0 <= k < n,
    ensures
        s[k].at + run_of(s[k].in_s, s[k].out_s, s[k].speed) <= overlays_end(s, n),
    decreases n,
{
    if k < n - 1 {
        lemma_overlays_end(s, k, n - 1);
    }
}

proof fn lemma_titles_end(s: Seq<TitleView>, k: int, n: int)
    requires
        0 <= k < n,
    ensures
        s[k].at + s[k].dur <= titles_end(s, n),
    decreases n,
{
    if k < n - 1 {
        lemma_titles_end(s, k, n - 1);
    }
}

proof fn lemma_beds_end(s: Seq<AudioItem>, k: int, n: int)
    requires
        0 <= k < n,
    ensures
        s[k].at + s[k].out_s - s[k].in_s <= beds_end(s, n),
    decreases n,
{
    if k < n - 1 {
        lemma_beds_end(s, k, n - 1);
    }
}

impl EditorView {
    /// The band between the marks, in order; none where nothing is marked.
    pub open spec fn marked_band(self) -> Option<(int, int)> {
        let end = total(self.reel.clips);
        if self.mark_in is None && self.mark_out is None {
            None
        } else {
            let s = match self.mark_in {
                Some(t) => between(t as int, 0, end),
                None => 0,
            };
            let e = match self.mark_out {
                Some(t) => between(t as int, 0, end),
                None => end,
            };
            Some((lower(s, e), upper(s, e)))
        }
    }

    /// After the ruler was pressed or scrubbed at `x`.
    pub open spec fn scrubbed(self, x: int, scale: u32) -> EditorView {
        self.sought(between(crate::drags::reel_time(x, scale), 0, total(self.reel.clips)))
    }
}

impl Editor {
    /// The band between the marks.
    pub fn mark_band(&self) -> (r: Option<(Time, Time)>)
        requires
            self@.wf(),
        ensures
            match self@.marked_band() {
                Some((s, e)) => r matches Some(p) && p.0 == s && p.1 == e,
                None => r is None,
            },
    {
        if self.mark_in.is_none() && self.mark_out.is_none() {
            return None;
        }
        let n: usize = self.reel.clips.len();
        proof {
            lemma_start_axis(self@.reel.clips, n as int);
        }
        let end: Time = total_of(&self.reel.clips);
        let s: Time = match self.mark_in {
            Some(t) => hold_between(t, 0, end),
            None => 0,
        };
        let e: Time = match self.mark_out {
            Some(t) => hold_between(t, 0, end),
            None => end,
        };
        Some((lesser(s, e), greater(s, e)))
    }

    /// The ruler was pressed, or scrubbed, at `x`.
    pub fn scrub(&mut self, x: i64, scale: u32)
        requires
            old(self)@.wf(),
            scale > 0,
        ensures
            final(self)@ == old(self)@.scrubbed(x as int, scale),
            final(self)@.wf(),
    {
        let n: usize = self.reel.clips.len();
        proof {
            lemma_start_axis(self@.reel.clips, n as int);
        }
        let end: Time = total_of(&self.reel.clips);
        let t: Time = hold_between(crate::drags::time_of(x, scale), 0, end);
        self.seek_to(t);
    }
}

/// Law: the shortest clip is forty-eight pixels wide at zoom one, unless that takes more
/// or less than the ruler allows.
pub proof fn law_scale(clips: Seq<Clip>, zoom: u32, k: int)
    requires
        0 <= k < clips.len(),
        crate::model::sound(clips),
    ensures
        shortest(clips, clips.len() as int) <= run_time(clips[k]),
        exists|j: int| 0 <= j < clips.len() && shortest(clips, clips.len() as int) == run_time(#[trigger] clips[j]),
        ({
            let run = shortest(clips, clips.len() as int);
            let b = base_scale(clips);
            &&& 14_000 <= b <= 240_000
            &&& run > 0 && 14_000 < b < 240_000 ==> run * b <= 48_000 * SECOND < run * b + run
            &&& run > 0 && b == 240_000 ==> 48_000 * SECOND >= run * 240_000
            &&& run > 0 && b == 14_000 ==> 48_000 * SECOND < run * 14_001
        }),
        ({
            let s = scale_for(clips, zoom);
            &&& 2_000 <= s <= 960_000
            &&& 2_000 < s < 960_000 ==> 1000 * s <= base_scale(clips) * zoom < 1000 * s + 1000
        }),
        zoom == 1000 ==> scale_for(clips, zoom) == base_scale(clips),
{
    lemma_shortest(clips, clips.len() as int);
    let run = shortest(clips, clips.len() as int);
    if run > 0 {
        let p = SHORTEST_WIDTH * SECOND;
        let q = p / run;
        assert(run * q <= p < run * q + run) by (nonlinear_arith)
            requires
                q == p / run,
                run > 0,
        ;
        assert(q >= 240_000 ==> run * q >= run * 240_000) by (nonlinear_arith)
            requires
                run > 0,
        ;
        assert(q <= 14_000 ==> run * q <= run * 14_000) by (nonlinear_arith)
            requires
                run > 0,
        ;
        assert(run * 14_001 == run * 14_000 + run);
    }
    if zoom == 1000 {
        assert(base_scale(clips) * 1000 / 1000 == base_scale(clips));
    }
}

proof fn lemma_shortest(clips: Seq<Clip>, n: int)
    requires
        0 <= n <= clips.len(),
        crate::model::sound(clips),
    ensures
        forall|k: int| 0 <= k < n ==> shortest(clips, n) <= run_time(#[trigger] clips[k]),
        n > 0 ==> exists|j: int| 0 <= j < n && shortest(clips, n) == run_time(#[trigger] clips[j]),
        n > 0 ==> 0 <= shortest(clips, n),
    decreases n,
{
    if n > 0 {
        lemma_shortest(clips, n - 1);
        crate::track::law_extents(clips, n - 1);
        let last = clips[n - 1];
        assert(run_time(last) <= LONGEST_RUN);
        if shortest(clips, n) != run_time(last) {
            let j = choose|j: int| 0 <= j < n - 1 && shortest(clips, n - 1) == run_time(#[trigger] clips[j]);
            assert(shortest(clips, n) == run_time(clips[j]));
        }
    }
}

/// Law: a step of zoom goes a quarter closer or a fifth away, which undo each other but
/// for rounding, between a quarter and six times.
pub proof fn law_zoom(zoom: u32)
    requires
        ZOOM_LEAST <= zoom <= ZOOM_MOST,
    ensures
        250 <= zoomed(zoom, true) <= 6000 && 250 <= zoomed(zoom, false) <= 6000,
        zoomed(zoom, true) < 6000 ==> 4 * zoomed(zoom, true) <= 5 * zoom < 4 * zoomed(zoom, true) + 4,
        zoomed(zoom, false) > 250 ==> 5 * zoomed(zoom, false) <= 4 * zoom < 5 * zoomed(zoom, false) + 5,
        zoomed(zoom, false) <= zoom <= zoomed(zoom, true),
{
}

/// Law: the ruler uses the finest step whose marks are seventy-two pixels apart.
pub proof fn law_finest_step(scale: u32, end: int, k: int)
    requires
        0 <= k < steps().len(),
        steps()[k] * scale >= 72_000 * SECOND,
    ensures
        ticks(scale, end).0 <= steps()[k],
        steps().len() == 10 && 10 * steps()[0] == SECOND && steps()[3] == SECOND && steps()[9] == 60 * SECOND,
{
    lemma_step_from(scale, 0, k);
}

proof fn lemma_step_from(scale: u32, n: int, k: int)
    requires
        0 <= n <= k < steps().len(),
        wide_enough(steps()[k], scale),
    ensures
        step_from(scale, n) <= steps()[k],
    decreases k - n,
{
    if n < k && !wide_enough(steps()[n], scale) {
        lemma_step_from(scale, n + 1, k);
    }
}

/// Law: the track ends with the last thing on it and no later.
pub proof fn law_track_ends_with_something(r: Reel)
    requires
        crate::model::sound(r.clips),
    ensures
        ({
            let end = track_end(r);
            ||| end == total(r.clips)
            ||| exists|k: int|
                0 <= k < r.overlays.len() && end == (#[trigger] r.overlays[k]).at + run_of(
                    r.overlays[k].in_s,
                    r.overlays[k].out_s,
                    r.overlays[k].speed,
                )
            ||| exists|k: int| 0 <= k < r.titles.len() && end == (#[trigger] r.titles[k]).at + r.titles[k].dur
            ||| exists|k: int|
                0 <= k < r.audios.len() && end == (#[trigger] r.audios[k]).at + r.audios[k].out_s - r.audios[k].in_s
        }),
{
    crate::track::lemma_start_bound(r.clips, r.clips.len() as int);
    lemma_overlays_end_at(r.overlays, r.overlays.len() as int);
    lemma_titles_end_at(r.titles, r.titles.len() as int);
    lemma_beds_end_at(r.audios, r.audios.len() as int);
}

proof fn lemma_overlays_end_at(s: Seq<OverlayItem>, n: int)
    requires
        0 <= n <= s.len(),
    ensures
        overlays_end(s, n) == 0 || exists|k: int|
            0 <= k < n && overlays_end(s, n) == (#[trigger] s[k]).at + run_of(s[k].in_s, s[k].out_s, s[k].speed),
    decreases n,
{
    if n > 0 {
        lemma_overlays_end_at(s, n - 1);
        let x = s[n - 1];
        assert(x == s[n - 1]);
    }
}

proof fn lemma_titles_end_at(s: Seq<TitleView>, n: int)
    requires
        0 <= n <= s.len(),
    ensures
        titles_end(s, n) == 0 || exists|k: int| 0 <= k < n && titles_end(s, n) == (#[trigger] s[k]).at + s[k].dur,
    decreases n,
{
    if n > 0 {
        lemma_titles_end_at(s, n - 1);
        let x = s[n - 1];
        assert(x == s[n - 1]);
    }
}

proof fn lemma_beds_end_at(s: Seq<AudioItem>, n: int)
    requires
        0 <= n <= s.len(),
    ensures
        beds_end(s, n) == 0 || exists|k: int|
            0 <= k < n && beds_end(s, n) == (#[trigger] s[k]).at + s[k].out_s - s[k].in_s,
    decreases n,
{
    if n > 0 {
        lemma_beds_end_at(s, n - 1);
        let x = s[n - 1];
        assert(x == s[n - 1]);
    }
}

/// Law: scrubbing goes to the time under the mouse, held to the reel, and changes
/// nothing on it; the band between the marks runs from the earlier to the later.
pub proof fn law_scrub(e: EditorView, x: int, scale: u32)
    requires
        crate::trims::reel_track(e.reel.clips),
        scale > 0,
    ensures
        ({
            let f = e.scrubbed(x, scale);
            let t = crate::drags::reel_time(x, scale);
            &&& f.reel == e.reel && f.undo == e.undo
            &&& 0 <= t <= total(e.reel.clips) ==> f.playhead == t
            &&& t < 0 ==> f.playhead == 0
            &&& t > total(e.reel.clips) ==> f.playhead == total(e.reel.clips)
        }),
        e.marked_band() is None <==> e.mark_in is None && e.mark_out is None,
        e.mark_in matches Some(a) ==> e.mark_out matches Some(b) ==> 0 <= a <= b <= total(e.reel.clips) ==> e.marked_band()
            == Some((a as int, b as int)),
        e.mark_in matches Some(a) ==> e.mark_out is None && 0 <= a <= total(e.reel.clips) ==> e.marked_band() == Some(
            (a as int, total(e.reel.clips)),
        ),
        e.mark_out matches Some(b) ==> e.mark_in is None && 0 <= b <= total(e.reel.clips) ==> e.marked_band() == Some(
            (0int, b as int),
        ),
{
    lemma_start_axis(e.reel.clips, e.reel.clips.len() as int);
}

} // verus!
