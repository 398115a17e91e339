//! What the mouse does to the timeline: sliding items, trimming edges, pulling
//! fades and levels. Pixels are counted in thousandths.

use crate::edges::{
    card_resized, media_edge_resize, media_resized, scaled, snap_to, snapped, still_edge_resize, still_resized,
    title_edge_resize,
};
use crate::editor::{same_but, Editor, EditorView};
use crate::model::{AdjustmentItem, AudioItem, Clip, OverlayItem, Reel, Sel, TitleItem, TitleView};
use crate::moves::{block_of, is_block, law_a_block, law_one_block, place_of};
use crate::paths::{is_still, media_kind};
use crate::text::{cat2, decimal, digits};
use crate::time::{
    between, greater, hold_between, in_source, lower, on_axis, Time, AXIS_END, SECOND, SRC_MAX,
};
use crate::track::{kept, lemma_run, rate, LONGEST_RUN, run_time, spans, spans_of, start, start_of, total, total_of};
use vstd::prelude::*;

verus! {

/// A drag shorter than this is a click.
pub const DEAD_ZONE: i64 = 4_000;

/// How far from a target an item still snaps to it.
pub const SNAP_REACH: i64 = 6_000;

/// The height of a lane with its margin.
pub const LANE_PITCH: i64 = 36_000;

/// Travel is counted up to here.
pub const TRAVEL_END: i64 = 1_000_000_000;

/// The loudest a drag makes an item, in thousandths.
pub const LOUDEST: i64 = 2_000;

/// The reel time that `dx` stands for at a scale, which says how many thousandths
/// of a pixel a second takes.
pub open spec fn reel_time(dx: int, scale: u32) -> int {
    scaled(dx, SECOND as int, scale as int)
}

pub fn time_of(dx: i64, scale: u32) -> (r: Time)
    requires
        scale > 0,
    ensures
        r == reel_time(dx as int, scale),
        -AXIS_END <= r <= AXIS_END,
{
    let a: Time = if dx >= 0 { dx as Time } else { -(dx as Time) };
    assert(0 <= a * SECOND / (scale as int) <= a * SECOND) by (nonlinear_arith)
        requires
            0 <= a,
            scale > 0,
            SECOND == 3_000_000,
    ;
    if dx >= 0 { a * SECOND / (scale as Time) } else { -(a * SECOND / (scale as Time)) }
}

/// How long a fade is after its corner was pulled by `dt`: it grows away from its
/// edge, and takes less than half of the bed.
pub open spec fn fade_pulled(a: AudioItem, out: bool, from: Time, dt: int) -> int {
    between(if out { from - dt } else { from + dt }, 0, kept(a.in_s, a.out_s) * 49 / 100)
}

/// A level after a drag of `dy` down: a pixel is a ninetieth of full gain.
pub open spec fn level_pulled(from: u32, dy: int) -> int {
    between(from - scaled(dy, 1, 90), 0, LOUDEST as int)
}

/// The track a card is on after a drag of `up` upward, in whole lanes.
pub open spec fn lane_reached(from: u8, up: int, lanes: u8) -> int {
    between(from + scaled(2 * up + if up >= 0 { LANE_PITCH as int } else { -LANE_PITCH }, 1, 2 * LANE_PITCH as int), 1, lanes as int)
}

impl AudioItem {
    fn with_fade(&self, out: bool, v: Time) -> (r: AudioItem)
        requires
            self.wf(),
            in_source(v),
        ensures
            r == if out { AudioItem { fade_out: v, ..*self } } else { AudioItem { fade_in: v, ..*self } },
            r.wf(),
    {
        let mut a: AudioItem = self.clone();
        if out {
            a.fade_out = v;
        } else {
            a.fade_in = v;
        }
        a
    }

    fn at_level(&self, v: u32) -> (r: AudioItem)
        ensures
            r == (AudioItem {
                volume: v,
                vol_end: if self.vol_end is Some { Some(v) } else { None },
                ..*self
            }),
    {
        let mut a: AudioItem = self.clone();
        a.volume = v;
        if a.vol_end.is_some() {
            a.vol_end = Some(v);
        }
        a
    }
}

impl Clip {
    fn at_level(&self, v: u32) -> (r: Clip)
        ensures
            r == (Clip { volume: v, ..*self }),
    {
        let mut c: Clip = self.clone();
        c.volume = v;
        c
    }

    fn with_points(&self, in_s: Time, out_s: Time) -> (r: Clip)
        requires
            self.wf(),
            in_source(in_s),
            in_source(out_s),
        ensures
            r == (Clip { in_s, out_s, ..*self }),
            r.wf(),
    {
        let mut c: Clip = self.clone();
        c.in_s = in_s;
        c.out_s = out_s;
        c
    }
}

impl OverlayItem {
    fn with_place(&self, at: Time, in_s: Time, out_s: Time) -> (r: OverlayItem)
        requires
            self.wf(),
            on_axis(at),
            in_source(in_s),
            in_source(out_s),
        ensures
            r == (OverlayItem { at, in_s, out_s, ..*self }),
            r.wf(),
    {
        let mut o: OverlayItem = self.clone();
        o.at = at;
        o.in_s = in_s;
        o.out_s = out_s;
        o
    }
}

impl TitleItem {
    fn with_span(&self, at: Time, dur: Time) -> (r: TitleItem)
        requires
            self@.wf(),
            on_axis(at),
            on_axis(dur),
        ensures
            r@ == (TitleView { at, dur, ..self@ }),
            r@.wf(),
    {
        let mut t: TitleItem = self.clone();
        t.at = at;
        t.dur = dur;
        t
    }

    fn on_track(&self, track: u8) -> (r: TitleItem)
        requires
            self@.wf(),
        ensures
            r@ == (TitleView { track, ..self@ }),
            r@.wf(),
    {
        let mut t: TitleItem = self.clone();
        t.track = track;
        t
    }
}

impl AdjustmentItem {
    fn with_span(&self, at: Time, dur: Time) -> (r: AdjustmentItem)
        requires
            self.wf(),
            on_axis(at),
            on_axis(dur),
        ensures
            r == (AdjustmentItem { at, dur, ..*self }),
            r.wf(),
    {
        let mut a: AdjustmentItem = self.clone();
        a.at = at;
        a.dur = dur;
        a
    }
}

/// An edge that is held: the item as it was when the mouse went down.
#[derive(Clone, Copy, PartialEq, Eq, Structural, Debug)]
pub struct EdgeGrab {
    pub target: Sel,
    pub left: bool,
    pub x: i32,
    pub at: Time,
    /// The in-point, or how long a card is held.
    pub a: Time,
    pub b: Time,
    pub speed: u32,
    pub source: Time,
}

impl EdgeGrab {
    pub open spec fn wf(&self) -> bool {
        &&& on_axis(self.at)
        &&& match self.target {
            Sel::Title(_) | Sel::Adjust(_) => on_axis(self.a),
            _ => in_source(self.a) && in_source(self.b) && in_source(self.source),
        }
    }
}

/// A clip after its edge was dragged by `dt`; a photo has no end to run into.
pub open spec fn clip_dragged(c: Clip, g: EdgeGrab, dt: int) -> Clip {
    let source = if media_kind(c.path@) is Still { SRC_MAX } else { g.source };
    let (_, in_s, out_s) = media_resized(0, g.a as int, g.b as int, source as int, g.speed, g.left, dt, false);
    Clip { in_s: in_s as Time, out_s: out_s as Time, ..c }
}

/// A cutaway after its edge was dragged by `dt`.
pub open spec fn overlay_dragged(o: OverlayItem, g: EdgeGrab, dt: int) -> OverlayItem {
    let (at, in_s, out_s) = if media_kind(o.path@) is Still {
        still_resized(g.at as int, g.a, g.b, o.speed, g.left, dt)
    } else {
        media_resized(g.at as int, g.a as int, g.b as int, g.source as int, g.speed, g.left, dt, true)
    };
    OverlayItem { at: at as Time, in_s: in_s as Time, out_s: out_s as Time, ..o }
}

/// Where a cutaway's edge ends up does not depend on where it was on the way.
proof fn lemma_overlay_dragged(o: OverlayItem, g: EdgeGrab, way: int, dt: int)
    ensures
        overlay_dragged(overlay_dragged(o, g, way), g, dt) == overlay_dragged(o, g, dt),
{
}

impl EditorView {
    pub open spec fn fade_dragged(self, k: usize, out: bool, from: Time, dt: int) -> EditorView {
        if k < self.reel.audios.len() {
            let a = self.reel.audios[k as int];
            let v = fade_pulled(a, out, from, dt) as Time;
            self.put_aud(
                k as int,
                if out { AudioItem { fade_out: v, ..a } } else { AudioItem { fade_in: v, ..a } },
            )
        } else {
            self
        }
    }

    pub open spec fn level_dragged(self, target: Sel, from: u32, dy: int) -> EditorView {
        let v = level_pulled(from, dy) as u32;
        match target {
            Sel::Aud(k) => if k < self.reel.audios.len() {
                let a = self.reel.audios[k as int];
                self.put_aud(
                    k as int,
                    AudioItem { volume: v, vol_end: if a.vol_end is Some { Some(v) } else { None }, ..a },
                )
            } else {
                self
            },
            Sel::Main(i) => if i < self.reel.clips.len() {
                self.put_main(i as int, Clip { volume: v, ..self.reel.clips[i as int] })
            } else {
                self
            },
            _ => self,
        }
    }

    /// After the edge of `g` was dragged by `dt`. Items on the main track close up,
    /// with what rides on them.
    pub open spec fn edge_dragged(self, g: EdgeGrab, dt: int) -> EditorView {
        match g.target {
            Sel::Title(k) => if k < self.reel.titles.len() {
                let (at, dur) = card_resized(g.at as int, g.a as int, g.left, dt);
                self.put_title(k as int, TitleView { at: at as Time, dur: dur as Time, ..self.reel.titles[k as int] })
            } else {
                self
            },
            Sel::Adjust(k) => if k < self.reel.adjustments.len() {
                let (at, dur) = card_resized(g.at as int, g.a as int, g.left, dt);
                self.put_adjust(
                    k as int,
                    AdjustmentItem { at: at as Time, dur: dur as Time, ..self.reel.adjustments[k as int] },
                )
            } else {
                self
            },
            Sel::Over(j) => if j < self.reel.overlays.len() {
                self.put_over(j as int, overlay_dragged(self.reel.overlays[j as int], g, dt))
            } else {
                self
            },
            Sel::Main(i) => if i < self.reel.clips.len() {
                self.with_clip(i as int, clip_dragged(self.reel.clips[i as int], g, dt))
            } else {
                self
            },
            Sel::Aud(_) => self,
        }
    }

    /// Whether a drag of `up` takes card `k` to another track.
    pub open spec fn hops(self, k: usize, from: u8, up: int) -> bool {
        &&& k < self.reel.titles.len()
        &&& crate::lanes::higher(self.reel.titles[k as int].track, 1) != lane_reached(from, up, self.reel.t_lanes)
    }

    pub open spec fn hopped(self, k: usize, from: u8, up: int) -> EditorView {
        if self.hops(k, from, up) {
            self.pushed("drag-lane"@).put_title(
                k as int,
                TitleView {
                    track: lane_reached(from, up, self.reel.t_lanes) as u8,
                    ..self.reel.titles[k as int]
                },
            )
        } else {
            self
        }
    }
}

impl Editor {
    /// Pull the corner of a bed: its fade in, or its fade out.
    pub fn drag_fade(&mut self, k: usize, out: bool, from: Time, dt: Time)
        requires
            old(self)@.wf(),
            in_source(from),
            -AXIS_END <= dt <= AXIS_END,
        ensures
            final(self)@ == old(self)@.fade_dragged(k, out, from, dt as int),
            final(self)@.wf(),
    {
        if k < self.reel.audios.len() {
            proof {
                crate::model::lemma_audios_ok_at(self@.reel.audios, k as int);
            }
            let cap: Time = greater(self.reel.audios[k].out_s - self.reel.audios[k].in_s, 0) * 49 / 100;
            let v: Time = hold_between(if out { from - dt } else { from + dt }, 0, cap);
            let a: AudioItem = self.reel.audios[k].with_fade(out, v);
            self.set_aud(k, a);
        }
    }

    /// Pull the level of a bed, or of a clip's own sound, by `dy` down.
    pub fn drag_level(&mut self, target: Sel, from: u32, dy: i64)
        requires
            old(self)@.wf(),
            -0x1_0000_0000 <= dy <= 0x1_0000_0000,
        ensures
            final(self)@ == old(self)@.level_dragged(target, from, dy as int),
            final(self)@.wf(),
    {
        let step: i64 = if dy >= 0 { dy / 90 } else { -((-dy) / 90) };
        let g: i64 = from as i64 - step;
        let v: u32 = if g > LOUDEST { LOUDEST as u32 } else if g < 0 { 0 } else { g as u32 };
        assert(v == level_pulled(from, dy as int) as u32);
        match target {
            Sel::Aud(k) => {
                if k < self.reel.audios.len() {
                    proof {
                        crate::model::lemma_audios_ok_at(self@.reel.audios, k as int);
                    }
                    let a: AudioItem = self.reel.audios[k].at_level(v);
                    self.set_aud(k, a);
                }
            },
            Sel::Main(i) => {
                if i < self.reel.clips.len() {
                    proof {
                        crate::model::lemma_sound_at(self@.reel.clips, i as int);
                    }
                    let c: Clip = self.reel.clips[i].at_level(v);
                    self.set_main(i, c);
                }
            },
            _ => {},
        }
    }

    fn drag_card(&mut self, k: usize, g: &EdgeGrab, dt: Time)
        requires
            old(self)@.wf(),
            g.wf(),
            g.target == Sel::Title(k),
            -AXIS_END <= dt <= AXIS_END,
        ensures
            final(self)@ == old(self)@.edge_dragged(*g, dt as int),
            final(self)@.wf(),
    {
        if k < self.reel.titles.len() {
            proof {
                crate::model::lemma_titles_ok_at(self@.reel.titles, k as int);
            }
            let (at, dur) = title_edge_resize(g.at, g.a, g.left, dt);
            let t: TitleItem = self.reel.titles[k].with_span(at, dur);
            self.set_title(k, t);
        }
    }

    fn drag_layer(&mut self, k: usize, g: &EdgeGrab, dt: Time)
        requires
            old(self)@.wf(),
            g.wf(),
            g.target == Sel::Adjust(k),
            -AXIS_END <= dt <= AXIS_END,
        ensures
            final(self)@ == old(self)@.edge_dragged(*g, dt as int),
            final(self)@.wf(),
    {
        if k < self.reel.adjustments.len() {
            proof {
                crate::model::lemma_adjustments_ok_at(self@.reel.adjustments, k as int);
            }
            let (at, dur) = title_edge_resize(g.at, g.a, g.left, dt);
            let a: AdjustmentItem = self.reel.adjustments[k].with_span(at, dur);
            self.set_adjust(k, a);
        }
    }

    fn drag_cutaway(&mut self, j: usize, g: &EdgeGrab, dt: Time)
        requires
            old(self)@.wf(),
            g.wf(),
            g.target == Sel::Over(j),
            -AXIS_END <= dt <= AXIS_END,
        ensures
            final(self)@ == old(self)@.edge_dragged(*g, dt as int),
            final(self)@.wf(),
    {
        if j < self.reel.overlays.len() {
            proof {
                crate::model::lemma_overlays_ok_at(self@.reel.overlays, j as int);
            }
            let (at, in_s, out_s) = if is_still(self.reel.overlays[j].path.as_str()) {
                still_edge_resize(g.at, g.a, g.b, self.reel.overlays[j].speed, g.left, dt)
            } else {
                media_edge_resize(g.at, g.a, g.b, g.source, g.speed, g.left, dt, true)
            };
            let o: OverlayItem = self.reel.overlays[j].with_place(at, in_s, out_s);
            self.set_over(j, o);
        }
    }

    fn drag_clip(&mut self, i: usize, g: &EdgeGrab, dt: Time)
        requires
            old(self)@.wf(),
            g.wf(),
            g.target == Sel::Main(i),
            -AXIS_END <= dt <= AXIS_END,
        ensures
            final(self)@ == old(self)@.edge_dragged(*g, dt as int),
            final(self)@.wf(),
    {
        if i < self.reel.clips.len() {
            proof {
                crate::model::lemma_sound_at(self@.reel.clips, i as int);
            }
            let source: Time = if is_still(self.reel.clips[i].path.as_str()) { SRC_MAX } else { g.source };
            let (_, in_s, out_s) = media_edge_resize(0, g.a, g.b, source, g.speed, g.left, dt, false);
            let c: Clip = self.reel.clips[i].with_points(in_s, out_s);
            self.put_clip(i, c);
        }
    }

    /// Drag an edge by `dt` from where it was grabbed.
    pub fn drag_edge(&mut self, g: &EdgeGrab, dt: Time)
        requires
            old(self)@.wf(),
            g.wf(),
            -AXIS_END <= dt <= AXIS_END,
        ensures
            final(self)@ == old(self)@.edge_dragged(*g, dt as int),
            final(self)@.wf(),
    {
        match g.target {
            Sel::Title(k) => self.drag_card(k, g, dt),
            Sel::Adjust(k) => self.drag_layer(k, g, dt),
            Sel::Over(j) => self.drag_cutaway(j, g, dt),
            Sel::Main(i) => self.drag_clip(i, g, dt),
            Sel::Aud(_) => {},
        }
    }

    /// Drag a card `up` from the track it was grabbed on; whether it changed tracks.
    pub fn drag_lane(&mut self, k: usize, from: u8, up: i64) -> (r: bool)
        requires
            old(self)@.wf(),
            old(self).reel.t_lanes >= 1,
            -0x1_0000_0000 <= up <= 0x1_0000_0000,
        ensures
            r == old(self)@.hops(k, from, up as int),
            final(self)@ == old(self)@.hopped(k, from, up as int),
            final(self)@.wf(),
    {
        let rows: i64 = if up >= 0 {
            (2 * up + LANE_PITCH) / (2 * LANE_PITCH)
        } else {
            -((2 * (-up) + LANE_PITCH) / (2 * LANE_PITCH))
        };
        let to: i64 = from as i64 + rows;
        let lanes: i64 = self.reel.t_lanes as i64;
        let to: u8 = if to > lanes { self.reel.t_lanes } else if to < 1 { 1 } else { to as u8 };
        assert(to == lane_reached(from, up as int, self.reel.t_lanes));
        if k >= self.reel.titles.len() {
            return false;
        }
        let track: u8 = self.reel.titles[k].track;
        let on: u8 = if track > 1 { track } else { 1 };
        if on == to {
            return false;
        }
        self.push_undo("drag-lane");
        proof {
            crate::model::lemma_titles_ok_at(self@.reel.titles, k as int);
        }
        let t: TitleItem = self.reel.titles[k].on_track(to);
        self.set_title(k, t);
        true
    }
}

/// How long the clips of a stretch run together, without their overlaps.
pub open spec fn stretch(clips: Seq<Clip>, lo: int, n: int) -> int
    decreases n,
{
    if n <= 0 { 0 } else { stretch(clips, lo, n - 1) + run_time(clips[lo + n - 1]) }
}

/// How long the first `k` clips run without those of the block.
pub open spec fn walked(clips: Seq<Clip>, lo: int, len: int, k: int) -> int
    decreases k,
{
    if k <= 0 {
        0
    } else {
        walked(clips, lo, len, k - 1) + if lo <= k - 1 < lo + len { 0 } else { run_time(clips[k - 1]) }
    }
}

/// Whether the middle of a block, counted twice, lies behind the middle of clip `k`.
pub open spec fn past(clips: Seq<Clip>, lo: int, len: int, middle: int, k: int) -> bool {
    !(lo <= k < lo + len) && middle > 2 * walked(clips, lo, len, k) + run_time(clips[k])
}

/// How many of the first `k` clips the middle of a block has passed.
pub open spec fn passed(clips: Seq<Clip>, lo: int, len: int, middle: int, k: int) -> int
    decreases k,
{
    if k <= 0 {
        0
    } else {
        passed(clips, lo, len, middle, k - 1) + if past(clips, lo, len, middle, k - 1) { 1int } else { 0 }
    }
}

/// The block a clip belongs to, as its first clip and its length.
pub open spec fn the_block(clips: Seq<Clip>, i: int) -> (int, int) {
    choose|p: (int, int)| #[trigger] is_block(clips, i, p.0, p.1)
}

/// Where the block of clip `i` belongs when its head is at `head`.
pub open spec fn block_dest(clips: Seq<Clip>, i: int, head: int) -> int {
    let (lo, len) = the_block(clips, i);
    passed(clips, lo, len, 2 * head + stretch(clips, lo, len), clips.len() as int)
}

/// What an item's head snaps to: the cuts, the end of the reel, the playhead and
/// the markers.
pub open spec fn snap_targets(e: EditorView) -> Seq<Time> {
    Seq::new(e.reel.clips.len(), |k: int| start(e.reel.clips, k) as Time).push(
        total(e.reel.clips) as Time,
    ).push(e.playhead) + e.reel.markers
}

/// How far a lane item goes when the mouse moved by `dt`.
pub open spec fn slide_step(e: EditorView, target: Sel, dt: int, scale: u32) -> int {
    match place_of(e.reel, target) {
        Some(at) => snapped(at + dt, snap_targets(e), reel_time(SNAP_REACH as int, scale)) - at,
        None => dt,
    }
}

impl EditorView {
    /// After the block of clip `i` was dragged with its head at `head`.
    pub open spec fn block_dragged(self, i: int, head: int) -> EditorView {
        let (lo, len) = the_block(self.reel.clips, i);
        let dest = block_dest(self.reel.clips, i, head);
        if dest == lo {
            self
        } else {
            self.block_moved(lo, len, dest).selects(Some(Sel::Main((dest + (i - lo)) as usize)))
        }
    }

    /// Where clip `i` is after its block was dragged.
    pub open spec fn dragged_to(self, i: int, head: int) -> int {
        block_dest(self.reel.clips, i, head) + (i - the_block(self.reel.clips, i).0)
    }

    pub open spec fn lane_dragged(self, target: Sel, dt: int, scale: u32) -> EditorView {
        self.lane_shifted(target, slide_step(self, target, dt, scale))
    }
}

/// Law: a block is dropped where it fits into the track.
pub proof fn law_block_dest(clips: Seq<Clip>, i: int, head: int)
    requires
        0 <= i < clips.len(),
    ensures
        0 <= block_dest(clips, i, head) <= clips.len() - the_block(clips, i).1,
{
    law_a_block(clips, i);
    let (lo, len) = the_block(clips, i);
    lemma_passed(clips, lo, len, 2 * head + stretch(clips, lo, len), clips.len() as int);
}

proof fn lemma_passed(clips: Seq<Clip>, lo: int, len: int, middle: int, k: int)
    requires
        0 <= lo,
        0 <= len,
        0 <= k,
    ensures
        0 <= passed(clips, lo, len, middle, k),
        passed(clips, lo, len, middle, k) <= if k <= lo {
            k
        } else if k < lo + len {
            lo
        } else {
            k - len
        },
    decreases k,
{
    if k > 0 {
        lemma_passed(clips, lo, len, middle, k - 1);
    }
}

/// The length of a stretch of clips, without their overlaps.
fn stretch_of(clips: &Vec<Clip>, lo: usize, len: usize) -> (r: Time)
    requires
        crate::model::sound(clips@),
        lo + len <= clips.len(),
    ensures
        r == stretch(clips@, lo as int, len as int),
        on_axis(r),
{
    let n: usize = clips.len();
    let mut sum: Time = 0;
    let mut k: usize = 0;
    while k < len
        invariant
            crate::model::sound(clips@),
            lo + len <= n,
            n == clips.len(),
            k <= len,
            sum == stretch(clips@, lo as int, k as int),
            0 <= sum <= k * LONGEST_RUN,
        decreases len - k,
    {
        proof {
            crate::model::lemma_sound_at(clips@, lo + k);
            lemma_run(clips@[lo + k].in_s, clips@[lo + k].out_s, clips@[lo + k].speed);
            assert(k * LONGEST_RUN + LONGEST_RUN == (k + 1) * LONGEST_RUN) by (nonlinear_arith);
            assert((k + 1) * LONGEST_RUN <= AXIS_END) by (nonlinear_arith)
                requires
                    0 <= k < usize::MAX,
                    LONGEST_RUN == 0x640_0000_0000_0000,
                    AXIS_END == 0x1000_0000_0000_0000_0000_0000_0000_0000,
            ;
        }
        sum = sum + clips[lo + k].trimmed();
        k += 1;
    }
    proof {
        assert(k * LONGEST_RUN <= AXIS_END) by (nonlinear_arith)
            requires
                0 <= k <= usize::MAX,
                LONGEST_RUN == 0x640_0000_0000_0000,
                AXIS_END == 0x1000_0000_0000_0000_0000_0000_0000_0000,
        ;
    }
    sum
}

/// How many clips outside of the block its middle, counted twice, has passed.
fn count_passed(clips: &Vec<Clip>, lo: usize, len: usize, middle: Time) -> (r: usize)
    requires
        crate::model::sound(clips@),
        lo + len <= clips.len(),
        -4 * AXIS_END <= middle <= 4 * AXIS_END,
    ensures
        r == passed(clips@, lo as int, len as int, middle as int, clips.len() as int),
        r + len <= clips.len(),
{
    let n: usize = clips.len();
    let mut dest: usize = 0;
    let mut at: Time = 0;
    let mut k: usize = 0;
    while k < n
        invariant
            crate::model::sound(clips@),
            lo + len <= n,
            n == clips.len(),
            k <= n,
            dest <= k,
            dest == passed(clips@, lo as int, len as int, middle as int, k as int),
            at == walked(clips@, lo as int, len as int, k as int),
            0 <= at <= k * LONGEST_RUN,
        decreases n - k,
    {
        proof {
            crate::model::lemma_sound_at(clips@, k as int);
            lemma_run(clips@[k as int].in_s, clips@[k as int].out_s, clips@[k as int].speed);
            assert(k * LONGEST_RUN + LONGEST_RUN == (k + 1) * LONGEST_RUN) by (nonlinear_arith);
            assert((k + 1) * LONGEST_RUN <= AXIS_END) by (nonlinear_arith)
                requires
                    0 <= k < usize::MAX,
                    LONGEST_RUN == 0x640_0000_0000_0000,
                    AXIS_END == 0x1000_0000_0000_0000_0000_0000_0000_0000,
            ;
        }
        if k < lo || k >= lo + len {
            let run: Time = clips[k].trimmed();
            if middle > 2 * at + run {
                dest += 1;
            }
            at = at + run;
        }
        k += 1;
    }
    proof {
        lemma_passed(clips@, lo as int, len as int, middle as int, n as int);
    }
    dest
}

impl Editor {
    /// Drag the block of clip `i` with its head at `head`; where the clip is now.
    pub fn drag_block(&mut self, i: usize, head: Time) -> (r: usize)
        requires
            old(self)@.wf(),
            i < old(self).reel.clips.len(),
            -AXIS_END <= head <= AXIS_END,
        ensures
            final(self)@ == old(self)@.block_dragged(i as int, head as int),
            final(self)@.wf(),
            r == old(self)@.dragged_to(i as int, head as int),
            r < final(self).reel.clips.len(),
    {
        let ghost was = self@;
        let n: usize = self.reel.clips.len();
        let (lo, len) = block_of(&self.reel.clips, i);
        proof {
            let p = (lo as int, len as int);
            assert(is_block(was.reel.clips, i as int, p.0, p.1));
            let q = the_block(was.reel.clips, i as int);
            law_one_block(was.reel.clips, i as int, q.0, q.1, p.0, p.1);
        }
        let run: Time = stretch_of(&self.reel.clips, lo, len);
        let dest: usize = count_passed(&self.reel.clips, lo, len, 2 * head + run);
        let to: usize = dest + (i - lo);
        if dest != lo {
            self.move_block(lo, len, dest);
            proof {
                reveal(crate::magnet::carried);
            }
            assert(self.reel.clips.len() == n);
            self.selected = Some(Sel::Main(to));
        }
        to
    }

    /// What an item's head snaps to.
    fn targets(&self) -> (r: Vec<Time>)
        requires
            self@.wf(),
        ensures
            r@ == snap_targets(self@),
            forall|k: int| 0 <= k < r.len() ==> on_axis(#[trigger] r@[k]),
    {
        let n: usize = self.reel.clips.len();
        let ends: Vec<(Time, Time)> = spans(&self.reel.clips);
        let mut r: Vec<Time> = Vec::new();
        let mut k: usize = 0;
        let ghost clips = self@.reel.clips;
        while k < n
            invariant
                k <= n,
                n == clips.len(),
                crate::model::sound(clips),
                ends@ == spans_of(clips),
                r@ == Seq::new(k as nat, |j: int| start(clips, j) as Time),
                forall|j: int| 0 <= j < r.len() ==> on_axis(#[trigger] r@[j]),
            decreases n - k,
        {
            proof {
                crate::track::lemma_start_axis(clips, k as int);
            }
            r.push(ends[k].0);
            k += 1;
            assert(r@ =~= Seq::new(k as nat, |j: int| start(clips, j) as Time));
        }
        r.push(total_of(&self.reel.clips));
        r.push(self.playhead);
        let ghost front = r@;
        let mut m: usize = 0;
        let marks: usize = self.reel.markers.len();
        while m < marks
            invariant
                self@.wf(),
                m <= marks,
                marks == self.reel.markers.len(),
                r@ == front + self.reel.markers@.take(m as int),
                forall|j: int| 0 <= j < r.len() ==> on_axis(#[trigger] r@[j]),
            decreases marks - m,
        {
            proof {
                crate::model::lemma_markers_ok_at(self@.reel.markers, m as int);
            }
            r.push(self.reel.markers[m]);
            m += 1;
            assert(r@ =~= front + self.reel.markers@.take(m as int));
        }
        assert(self.reel.markers@.take(marks as int) =~= self.reel.markers@);
        assert(r@ =~= snap_targets(self@));
        r
    }

    /// Drag a lane item by `dt`; its head snaps to what it comes close to.
    pub fn drag_item(&mut self, target: Sel, dt: Time, scale: u32)
        requires
            old(self)@.wf(),
            -AXIS_END <= dt <= AXIS_END,
            scale > 0,
        ensures
            final(self)@ == old(self)@.lane_dragged(target, dt as int, scale),
            final(self)@.wf(),
    {
        let step: Time = match self.reel.lane_at(target) {
            Some(at) => {
                proof {
                    lemma_place(self@.reel, target);
                }
                let targets: Vec<Time> = self.targets();
                snap_to(at + dt, &targets, time_of(SNAP_REACH, scale)) - at
            },
            None => dt,
        };
        self.shift_lane(target, step);
    }
}

proof fn lemma_place(r: Reel, s: Sel)
    requires
        r.wf(),
    ensures
        place_of(r, s) matches Some(at) ==> on_axis(at),
{
    reveal(crate::model::overlays_ok);
    reveal(crate::model::audios_ok);
    reveal(crate::model::titles_ok);
    reveal(crate::model::adjustments_ok);
}

/// An item that slides along its lane.
#[derive(Clone, Copy, PartialEq, Eq, Structural, Debug)]
pub struct Slide {
    pub target: Sel,
    /// Where the mouse was last.
    pub x: i32,
    /// Where the head of a dragged block would be.
    pub head: Time,
    /// How far the mouse has gone, there and back.
    pub travel: i64,
}

/// A card that is held to change tracks.
#[derive(Clone, Copy, PartialEq, Eq, Structural, Debug)]
pub struct Hop {
    pub card: usize,
    pub track: u8,
    pub y: i32,
}

/// A fade that is held by its corner.
#[derive(Clone, Copy, PartialEq, Eq, Structural, Debug)]
pub struct FadeGrab {
    pub bed: usize,
    pub out: bool,
    pub x: i32,
    pub from: Time,
}

/// A level that is held.
#[derive(Clone, Copy, PartialEq, Eq, Structural, Debug)]
pub struct LevelGrab {
    pub target: Sel,
    pub y: i32,
    pub from: u32,
}

/// What the mouse holds on the timeline.
#[derive(Clone, Copy, PartialEq, Eq, Structural, Debug)]
pub struct Drags {
    pub slide: Option<Slide>,
    pub hop: Option<Hop>,
    pub fade: Option<FadeGrab>,
    pub level: Option<LevelGrab>,
    pub edge: Option<EdgeGrab>,
    /// Whether the click that ends the drag is to be ignored.
    pub moved: bool,
}

impl Drags {
    pub open spec fn wf(&self) -> bool {
        &&& self.slide matches Some(s) ==> -AXIS_END <= s.head <= AXIS_END && 0 <= s.travel <= TRAVEL_END
        &&& self.fade matches Some(f) ==> in_source(f.from)
        &&& self.edge matches Some(g) ==> g.wf()
    }

    /// The drag after the mouse let go.
    pub open spec fn released(self) -> Drags {
        Drags {
            slide: None,
            hop: None,
            fade: None,
            level: None,
            edge: None,
            moved: self.moved || (self.slide matches Some(s) && s.travel > DEAD_ZONE) || self.fade is Some
                || self.level is Some || self.edge is Some,
        }
    }

    /// The drag after the mouse left the timeline.
    pub open spec fn dropped(self) -> Drags {
        Drags { slide: None, hop: None, fade: None, level: None, edge: None, moved: self.moved }
    }
}

/// The slide after the mouse went to `x`.
pub open spec fn slid(s: Slide, x: i32) -> Slide {
    Slide {
        x,
        travel: lower(s.travel + if x >= s.x { x - s.x } else { s.x - x }, TRAVEL_END as int) as i64,
        ..s
    }
}

/// Where the head of a block would be after the mouse went to `x`.
pub open spec fn headed(s: Slide, x: i32, scale: u32) -> int {
    between(s.head + reel_time(x - s.x, scale), -AXIS_END, AXIS_END as int)
}

/// The drag and the editor after the slide moved to `x`.
pub open spec fn slide_moved(d: Drags, e: EditorView, s: Slide, x: i32, scale: u32) -> (Drags, EditorView) {
    let to = slid(s, x);
    let far = to.travel > DEAD_ZONE;
    if x == s.x {
        (d, e)
    } else if s.target matches Sel::Main(i) && i < e.reel.clips.len() {
        let head = headed(s, x, scale);
        let i = s.target->Main_0;
        if far {
            (
                Drags {
                    slide: Some(
                        Slide {
                            target: Sel::Main(e.dragged_to(i as int, head) as usize),
                            head: head as Time,
                            ..to
                        },
                    ),
                    ..d
                },
                e.block_dragged(i as int, head),
            )
        } else {
            (Drags { slide: Some(Slide { head: head as Time, ..to }), ..d }, e)
        }
    } else {
        (
            Drags { slide: Some(to), ..d },
            if far { e.lane_dragged(s.target, reel_time(x - s.x, scale), scale) } else { e },
        )
    }
}

/// The drag and the editor after the mouse went to `(x, y)`. A held fade, level or
/// edge takes the movement; otherwise a card may change tracks while it slides.
pub open spec fn mouse_moved(d: Drags, e: EditorView, x: i32, y: i32, scale: u32) -> (Drags, EditorView) {
    if let Some(f) = d.fade {
        (d, e.fade_dragged(f.bed, f.out, f.from, reel_time(x - f.x, scale)))
    } else if let Some(l) = d.level {
        (d, e.level_dragged(l.target, l.from, y - l.y))
    } else if let Some(g) = d.edge {
        (d, e.edge_dragged(g, reel_time(x - g.x, scale)))
    } else {
        let (d, e) = match d.hop {
            Some(h) => (
                Drags { moved: d.moved || e.hops(h.card, h.track, h.y - y), ..d },
                e.hopped(h.card, h.track, h.y - y),
            ),
            None => (d, e),
        };
        match d.slide {
            Some(s) => slide_moved(d, e, s, x, scale),
            None => (d, e),
        }
    }
}

impl Drags {
    /// Nothing is held.
    pub fn new() -> (r: Drags)
        ensures
            r == (Drags { slide: None, hop: None, fade: None, level: None, edge: None, moved: false }),
            r.wf(),
    {
        Drags { slide: None, hop: None, fade: None, level: None, edge: None, moved: false }
    }

    /// Let go.
    pub fn release(&mut self)
        ensures
            *final(self) == old(self).released(),
    {
        if let Some(s) = self.slide {
            if s.travel > DEAD_ZONE {
                self.moved = true;
            }
        }
        if self.fade.is_some() || self.level.is_some() || self.edge.is_some() {
            self.moved = true;
        }
        self.drop_all();
    }

    /// Leave the timeline with the button down.
    pub fn drop_all(&mut self)
        ensures
            *final(self) == old(self).dropped(),
    {
        self.slide = None;
        self.hop = None;
        self.fade = None;
        self.level = None;
        self.edge = None;
    }

    fn slide_to(&mut self, ed: &mut Editor, x: i32, scale: u32)
        requires
            old(self).wf(),
            old(ed)@.wf(),
            scale > 0,
        ensures
            (*final(self), final(ed)@) == match old(self).slide {
                Some(s) => slide_moved(*old(self), old(ed)@, s, x, scale),
                None => (*old(self), old(ed)@),
            },
            final(self).wf(),
            final(ed)@.wf(),
    {
        let s: Slide = match self.slide {
            Some(s) => s,
            None => {
                return;
            },
        };
        let dx: i64 = x as i64 - s.x as i64;
        if dx == 0 {
            return;
        }
        let gone: i64 = s.travel + if dx >= 0 { dx } else { -dx };
        let travel: i64 = if gone > TRAVEL_END { TRAVEL_END } else { gone };
        let dt: Time = time_of(dx, scale);
        match s.target {
            Sel::Main(i) if i < ed.reel.clips.len() => {
                let head: Time = hold_between(s.head + dt, -AXIS_END, AXIS_END);
                let to: usize = if travel > DEAD_ZONE { ed.drag_block(i, head) } else { i };
                self.slide = Some(Slide { target: Sel::Main(to), x, head, travel });
            },
            _ => {
                if travel > DEAD_ZONE {
                    ed.drag_item(s.target, dt, scale);
                }
                self.slide = Some(Slide { target: s.target, x, head: s.head, travel });
            },
        }
    }

    /// The mouse went to `(x, y)`.
    pub fn on_move(&mut self, ed: &mut Editor, x: i32, y: i32, scale: u32)
        requires
            old(self).wf(),
            old(ed)@.wf(),
            scale > 0,
            old(self).hop is Some ==> old(ed).reel.t_lanes >= 1,
        ensures
            (*final(self), final(ed)@) == mouse_moved(*old(self), old(ed)@, x, y, scale),
            final(self).wf(),
            final(ed)@.wf(),
    {
        if let Some(f) = self.fade {
            let dt: Time = time_of(x as i64 - f.x as i64, scale);
            ed.drag_fade(f.bed, f.out, f.from, dt);
            return;
        }
        if let Some(l) = self.level {
            ed.drag_level(l.target, l.from, y as i64 - l.y as i64);
            return;
        }
        if let Some(g) = self.edge {
            let dt: Time = time_of(x as i64 - g.x as i64, scale);
            ed.drag_edge(&g, dt);
            return;
        }
        if let Some(h) = self.hop {
            let hopped: bool = ed.drag_lane(h.card, h.track, h.y as i64 - y as i64);
            if hopped {
                self.moved = true;
            }
        }
        self.slide_to(ed, x, scale);
    }
}

/// The tag under which a run of pulls on item `k` is one undo step.
pub open spec fn tagged(word: Seq<char>, k: usize) -> Seq<char> {
    word + digits(k as nat)
}

pub(crate) fn tag(word: &str, k: usize) -> (r: String)
    ensures
        r@ == tagged(word@, k),
{
    let n: String = decimal(k as u128);
    cat2(word, n.as_str())
}

/// What is held when an edge of `target` is grabbed at `x`.
pub open spec fn edge_held(r: Reel, target: Sel, left: bool, x: i32) -> Option<EdgeGrab> {
    match target {
        Sel::Main(i) => {
            let c = r.clips[i as int];
            Some(EdgeGrab { target, left, x, at: 0, a: c.in_s, b: c.out_s, speed: rate(c.speed) as u32, source: c.duration })
        },
        Sel::Over(j) => {
            let o = r.overlays[j as int];
            Some(
                EdgeGrab {
                    target,
                    left,
                    x,
                    at: o.at,
                    a: o.in_s,
                    b: o.out_s,
                    speed: rate(o.speed) as u32,
                    source: o.duration,
                },
            )
        },
        Sel::Title(k) => {
            let t = r.titles[k as int];
            Some(EdgeGrab { target, left, x, at: t.at, a: t.dur, b: 0, speed: 1000, source: 0 })
        },
        Sel::Adjust(k) => {
            let a = r.adjustments[k as int];
            Some(EdgeGrab { target, left, x, at: a.at, a: a.dur, b: 0, speed: 1000, source: 0 })
        },
        Sel::Aud(_) => None,
    }
}

impl EditorView {
    /// After an edge of `target` was grabbed.
    pub open spec fn edge_grabbed(self, target: Sel) -> EditorView {
        match target {
            Sel::Main(i) => self.selects(Some(target)).pushed(tagged("clen"@, i)),
            Sel::Over(j) => self.pushed(tagged("olen"@, j)),
            Sel::Title(k) => self.pushed(tagged("tlen"@, k)),
            Sel::Adjust(k) => self.pushed(tagged("ajlen"@, k)),
            Sel::Aud(_) => self,
        }
    }

    /// After the level of `target` was grabbed.
    pub open spec fn level_grabbed(self, target: Sel) -> EditorView {
        match target {
            Sel::Main(i) => self.selects(Some(target)).pushed(tagged("cvol"@, i)),
            Sel::Aud(k) => self.pushed(tagged("avol"@, k)),
            _ => self,
        }
    }
}

impl Drags {
    /// The mouse went down on an item.
    pub fn grab(&mut self, ed: &mut Editor, target: Sel, x: i32, y: i32)
        requires
            old(self).wf(),
            old(ed)@.wf(),
            old(ed)@.reel.has(target),
        ensures
            final(ed)@ == old(ed)@.selects(Some(target)),
            final(ed)@.wf(),
            *final(self) == item_grabbed(*old(self), old(ed)@.reel, target, x, y),
            final(self).wf(),
    {
        ed.selected = Some(target);
        let mut head: Time = 0;
        match target {
            Sel::Main(i) => {
                let n: usize = ed.reel.clips.len();
                let (lo, len) = block_of(&ed.reel.clips, i);
                proof {
                    let p = (lo as int, len as int);
                    assert(is_block(ed@.reel.clips, i as int, p.0, p.1));
                    let q = the_block(ed@.reel.clips, i as int);
                    law_one_block(ed@.reel.clips, i as int, q.0, q.1, p.0, p.1);
                    crate::track::lemma_start_axis(ed@.reel.clips, lo as int);
                }
                head = start_of(&ed.reel.clips, lo);
            },
            Sel::Title(k) => {
                let track: u8 = ed.reel.titles[k].track;
                self.hop = Some(Hop { card: k, track: if track > 1 { track } else { 1 }, y });
            },
            _ => {},
        }
        self.slide = Some(Slide { target, x, head, travel: 0 });
    }

    /// The mouse went down on an edge of an item.
    pub fn grab_edge(&mut self, ed: &mut Editor, target: Sel, left: bool, x: i32)
        requires
            old(self).wf(),
            old(ed)@.wf(),
            old(ed)@.reel.has(target),
        ensures
            final(ed)@ == old(ed)@.edge_grabbed(target),
            final(ed)@.wf(),
            *final(self) == edge_taken(*old(self), old(ed)@.reel, target, left, x),
            final(self).wf(),
    {
        match target {
            Sel::Main(i) => {
                proof {
                    crate::model::lemma_sound_at(ed@.reel.clips, i as int);
                }
                ed.selected = Some(target);
                let t: String = tag("clen", i);
                ed.push_undo(t.as_str());
                let c: &Clip = &ed.reel.clips[i];
                let speed: u32 = if c.speed > 10 { c.speed } else { 10 };
                self.edge = Some(
                    EdgeGrab { target, left, x, at: 0, a: c.in_s, b: c.out_s, speed, source: c.duration },
                );
            },
            Sel::Over(j) => {
                proof {
                    crate::model::lemma_overlays_ok_at(ed@.reel.overlays, j as int);
                }
                let t: String = tag("olen", j);
                ed.push_undo(t.as_str());
                let o: &OverlayItem = &ed.reel.overlays[j];
                let speed: u32 = if o.speed > 10 { o.speed } else { 10 };
                self.edge = Some(
                    EdgeGrab { target, left, x, at: o.at, a: o.in_s, b: o.out_s, speed, source: o.duration },
                );
            },
            Sel::Title(k) => {
                proof {
                    crate::model::lemma_titles_ok_at(ed@.reel.titles, k as int);
                }
                let t: String = tag("tlen", k);
                ed.push_undo(t.as_str());
                let (at, dur): (Time, Time) = (ed.reel.titles[k].at, ed.reel.titles[k].dur);
                self.edge = Some(EdgeGrab { target, left, x, at, a: dur, b: 0, speed: 1000, source: 0 });
            },
            Sel::Adjust(k) => {
                proof {
                    crate::model::lemma_adjustments_ok_at(ed@.reel.adjustments, k as int);
                }
                let t: String = tag("ajlen", k);
                ed.push_undo(t.as_str());
                let (at, dur): (Time, Time) = (ed.reel.adjustments[k].at, ed.reel.adjustments[k].dur);
                self.edge = Some(EdgeGrab { target, left, x, at, a: dur, b: 0, speed: 1000, source: 0 });
            },
            Sel::Aud(_) => {},
        }
    }

    /// The mouse went down on the level of a clip or a bed.
    pub fn grab_level(&mut self, ed: &mut Editor, target: Sel, y: i32)
        requires
            old(self).wf(),
            old(ed)@.wf(),
            old(ed)@.reel.has(target),
            target is Main || target is Aud,
        ensures
            final(ed)@ == old(ed)@.level_grabbed(target),
            final(ed)@.wf(),
            *final(self) == level_taken(*old(self), old(ed)@.reel, target, y),
            final(self).wf(),
    {
        match target {
            Sel::Main(i) => {
                ed.selected = Some(target);
                let t: String = tag("cvol", i);
                ed.push_undo(t.as_str());
                self.level = Some(LevelGrab { target, y, from: ed.reel.clips[i].volume });
            },
            Sel::Aud(k) => {
                let t: String = tag("avol", k);
                ed.push_undo(t.as_str());
                self.level = Some(LevelGrab { target, y, from: ed.reel.audios[k].volume });
            },
            _ => {},
        }
    }

    /// The mouse went down on a fade's corner.
    pub fn grab_fade(&mut self, ed: &mut Editor, k: usize, out: bool, x: i32)
        requires
            old(self).wf(),
            old(ed)@.wf(),
            k < old(ed).reel.audios.len(),
        ensures
            final(ed)@ == old(ed)@.pushed(tagged(if out { "afout"@ } else { "afin"@ }, k)),
            final(ed)@.wf(),
            *final(self) == fade_taken(*old(self), old(ed)@.reel, k, out, x),
            final(self).wf(),
    {
        proof {
            crate::model::lemma_audios_ok_at(ed@.reel.audios, k as int);
        }
        let t: String = tag(if out { "afout" } else { "afin" }, k);
        ed.push_undo(t.as_str());
        let from: Time = if out { ed.reel.audios[k].fade_out } else { ed.reel.audios[k].fade_in };
        self.fade = Some(FadeGrab { bed: k, out, x, from });
    }
}

/// A clip that changes in its place leaves the other clips alone; without the magnet
/// it leaves everything else alone.
proof fn lemma_with_clip(e: EditorView, i: int, c: Clip)
    ensures
        e.with_clip(i, c).reel.clips == e.reel.clips.update(i, c),
        e.with_clip(i, c).magnet == e.magnet,
        !e.magnet ==> e.with_clip(i, c) == (EditorView {
            reel: Reel { clips: e.reel.clips.update(i, c), ..e.reel },
            ..e
        }),
{
    let clips = e.reel.clips.update(i, c);
    crate::magnet::lemma_carried(
        Reel { clips, ..e.reel },
        crate::track::spans_of(e.reel.clips),
        crate::trims::starts_by(clips, crate::trims::in_place(clips.len())),
    );
}

proof fn lemma_title_edge_drags(e: EditorView, g: EdgeGrab, way: int, dt: int)
    requires
        g.target is Title,
    ensures
        e.edge_dragged(g, way).edge_dragged(g, dt) == e.edge_dragged(g, dt),
{
    let a = e.edge_dragged(g, way).edge_dragged(g, dt);
    let b = e.edge_dragged(g, dt);
    assert(a.reel.titles =~= b.reel.titles);
}

proof fn lemma_overlay_edge_drags(e: EditorView, g: EdgeGrab, way: int, dt: int)
    requires
        g.target is Over,
    ensures
        e.edge_dragged(g, way).edge_dragged(g, dt) == e.edge_dragged(g, dt),
{
    if let Sel::Over(j) = g.target {
        if j < e.reel.overlays.len() {
            let o = e.reel.overlays[j as int];
            let on = overlay_dragged(o, g, way);
            let to = overlay_dragged(o, g, dt);
            lemma_overlay_dragged(o, g, way, dt);
            lemma_put_over_twice(e, j as int, on, to);
        }
    }
}

proof fn lemma_put_over_twice(e: EditorView, j: int, on: OverlayItem, to: OverlayItem)
    requires
        0 <= j < e.reel.overlays.len(),
    ensures
        e.put_over(j, on).put_over(j, to) == e.put_over(j, to),
        e.put_over(j, on).reel.overlays[j] == on,
        e.put_over(j, on).reel.overlays.len() == e.reel.overlays.len(),
{
    assert(e.put_over(j, on).put_over(j, to).reel.overlays =~= e.put_over(j, to).reel.overlays);
}

proof fn lemma_layer_edge_drags(e: EditorView, g: EdgeGrab, way: int, dt: int)
    requires
        g.target is Adjust,
    ensures
        e.edge_dragged(g, way).edge_dragged(g, dt) == e.edge_dragged(g, dt),
{
    let a = e.edge_dragged(g, way).edge_dragged(g, dt);
    let b = e.edge_dragged(g, dt);
    assert(a.reel.adjustments =~= b.reel.adjustments);
}

#[verifier::spinoff_prover]
proof fn lemma_clip_edge_drags(e: EditorView, g: EdgeGrab, way: int, dt: int)
    requires
        g.target is Main,
    ensures
        e.edge_dragged(g, way).edge_dragged(g, dt).reel.clips == e.edge_dragged(g, dt).reel.clips,
        !e.magnet ==> e.edge_dragged(g, way).edge_dragged(g, dt) == e.edge_dragged(g, dt),
{
    let m = e.edge_dragged(g, way);
    let a = m.edge_dragged(g, dt);
    let b = e.edge_dragged(g, dt);
    if let Sel::Main(i) = g.target {
        if i < e.reel.clips.len() {
            let c = e.reel.clips[i as int];
            let on = clip_dragged(c, g, way);
            let to = clip_dragged(c, g, dt);
            lemma_with_clip(e, i as int, on);
            lemma_with_clip(e, i as int, to);
            assert(m.reel.clips[i as int] == on);
            assert(clip_dragged(on, g, dt) == to);
            lemma_with_clip(m, i as int, to);
            assert(a.reel.clips =~= b.reel.clips);
        }
    }
}

/// Law: a drag that starts from where its edge was grabbed ends in the same place
/// whatever way the mouse took there. On the main track this holds of the clips, and
/// of everything where the magnet is off: what rides on them may have come to lie
/// on another clip on the way.
pub proof fn law_edge_drags_do_not_add_up(e: EditorView, g: EdgeGrab, way: int, dt: int)
    ensures
        e.edge_dragged(g, way).edge_dragged(g, dt).reel.clips == e.edge_dragged(g, dt).reel.clips,
        !(g.target is Main && e.magnet) ==> e.edge_dragged(g, way).edge_dragged(g, dt) == e.edge_dragged(g, dt),
{
    match g.target {
        Sel::Main(_) => lemma_clip_edge_drags(e, g, way, dt),
        Sel::Title(_) => lemma_title_edge_drags(e, g, way, dt),
        Sel::Over(_) => lemma_overlay_edge_drags(e, g, way, dt),
        Sel::Adjust(_) => lemma_layer_edge_drags(e, g, way, dt),
        Sel::Aud(_) => {},
    }
}

/// Law: fades that are pulled never cross: each takes less than half of its bed.
pub proof fn law_fades_do_not_cross(a: AudioItem, from_in: Time, from_out: Time, dt: int)
    ensures
        fade_pulled(a, false, from_in, dt) + fade_pulled(a, true, from_out, dt) <= kept(a.in_s, a.out_s),
        fade_pulled(a, false, from_in, dt) >= 0,
        fade_pulled(a, true, from_out, dt) >= 0,
{
}

/// Law: a press and release that stays in the dead zone, and with a card on its
/// track, changes nothing but the selection, and the click counts.
pub proof fn law_click_is_no_drag(d: Drags, e: EditorView, s: Slide, x: i32, y: i32, scale: u32)
    requires
        d.slide == Some(s),
        !d.moved,
        d.hop matches Some(h) ==> !e.hops(h.card, h.track, h.y - y),
        d.fade is None,
        d.level is None,
        d.edge is None,
        slid(s, x).travel <= DEAD_ZONE,
        s.travel <= DEAD_ZONE,
    ensures
        mouse_moved(d, e, x, y, scale).1 == e,
        !mouse_moved(d, e, x, y, scale).0.released().moved,
{
}

/// Law: a drag over as many pixels as a second takes up is a second of reel, in
/// proportion and the way the mouse goes.
pub proof fn law_pixels_are_time(dx: int, scale: u32)
    requires
        scale > 0,
    ensures
        dx >= 0 ==> scale * reel_time(dx, scale) <= dx * SECOND < scale * reel_time(dx, scale) + scale,
        reel_time(-dx, scale) == -reel_time(dx, scale),
        reel_time(scale as int, scale) == SECOND,
{
    let p = dx * SECOND;
    let s = scale as int;
    if dx >= 0 {
        let q = p / s;
        assert(s * q <= p < s * q + s) by (nonlinear_arith)
            requires
                q == p / s,
                s > 0,
        ;
    }
    if dx == 0 {
        assert(0int / s == 0) by (nonlinear_arith)
            requires
                s > 0,
        ;
    }
    assert(s * SECOND / s == SECOND) by (nonlinear_arith)
        requires
            s > 0,
            SECOND == 3_000_000,
    ;
}

/// Law: pulling a fade handle into the bed by some time makes that fade longer by as
/// much, up to just under half the bed, and changes nothing else.
pub proof fn law_fade_drag(e: EditorView, k: usize, out: bool, from: Time, dt: int)
    requires
        k < e.reel.audios.len(),
        e.reel.audios[k as int].wf(),
        in_source(from),
    ensures
        ({
            let f = e.fade_dragged(k, out, from, dt);
            let a = e.reel.audios[k as int];
            let b = f.reel.audios[k as int];
            let now = if out { b.fade_out } else { b.fade_in };
            let pull = if out { -dt } else { dt };
            &&& f == (EditorView { reel: f.reel, ..e })
            &&& f.reel == (Reel { audios: f.reel.audios, ..e.reel })
            &&& same_but(e.reel.audios, f.reel.audios, k as int)
            &&& out ==> b == (AudioItem { fade_out: b.fade_out, ..a })
            &&& !out ==> b == (AudioItem { fade_in: b.fade_in, ..a })
            &&& a.in_s <= a.out_s ==> 0 <= 100 * now <= 49 * (a.out_s - a.in_s)
            &&& a.in_s <= a.out_s && 0 <= 100 * (from + pull) <= 49 * (a.out_s - a.in_s) ==> now - from == pull
        }),
{
}

/// Law: pulling a level up makes it louder, a hundredth for each nine tenths of a
/// pixel, between silence and double; the tail of a ramp follows, and nothing else
/// changes.
pub proof fn law_level_drag(e: EditorView, target: Sel, from: u32, n: int)
    requires
        e.reel.has(target),
    ensures
        ({
            let f = e.level_dragged(target, from, -90 * n);
            let v = if from + n < 0 {
                0
            } else if from + n > 2000 {
                2000
            } else {
                from + n
            };
            &&& f == (EditorView { reel: f.reel, ..e })
            &&& target matches Sel::Main(i) ==> {
                &&& f.reel == (Reel { clips: f.reel.clips, ..e.reel })
                &&& same_but(e.reel.clips, f.reel.clips, i as int)
                &&& f.reel.clips[i as int].volume == v
                &&& f.reel.clips[i as int] == (Clip { volume: f.reel.clips[i as int].volume, ..e.reel.clips[i as int] })
            }
            &&& target matches Sel::Aud(i) ==> {
                let b = f.reel.audios[i as int];
                &&& f.reel == (Reel { audios: f.reel.audios, ..e.reel })
                &&& same_but(e.reel.audios, f.reel.audios, i as int)
                &&& b.volume == v
                &&& b.vol_end == if e.reel.audios[i as int].vol_end is Some { Some(b.volume) } else { None }
                &&& b == (AudioItem { volume: b.volume, vol_end: b.vol_end, ..e.reel.audios[i as int] })
            }
            &&& !(target is Main) && !(target is Aud) ==> f == e
        }),
{
    assert((-90 * n) / 90 == -n);
    assert((90 * n) / 90 == n);
    assert(scaled(-90 * n, 1, 90) == -n);
}

/// Law: dragging an edge of a title or layer moves that edge by the drag and leaves
/// the other where it is, and is never shorter than the shortest hold; nothing else
/// changes.
pub proof fn law_card_edge_drag(e: EditorView, g: EdgeGrab, dt: int)
    requires
        g.wf(),
        g.a >= 900_000,
        g.at + g.a <= AXIS_END,
        -AXIS_END <= dt <= AXIS_END,
        e.reel.has(g.target),
        g.target is Title || g.target is Adjust,
    ensures
        ({
            let f = e.edge_dragged(g, dt);
            let (at, dur) = match g.target {
                Sel::Title(k) => (f.reel.titles[k as int].at, f.reel.titles[k as int].dur),
                Sel::Adjust(k) => (f.reel.adjustments[k as int].at, f.reel.adjustments[k as int].dur),
                _ => (0, 0),
            };
            &&& g.target matches Sel::Title(k) ==> f.reel == (Reel { titles: f.reel.titles, ..e.reel }) && same_but(
                e.reel.titles,
                f.reel.titles,
                k as int,
            ) && f.reel.titles[k as int] == (TitleView { at, dur, ..e.reel.titles[k as int] })
            &&& g.target matches Sel::Adjust(k) ==> f.reel == (Reel { adjustments: f.reel.adjustments, ..e.reel })
                && same_but(e.reel.adjustments, f.reel.adjustments, k as int) && f.reel.adjustments[k as int] == (
            AdjustmentItem { at, dur, ..e.reel.adjustments[k as int] })
            &&& 10 * dur >= 3 * SECOND
            &&& g.left ==> at + dur == g.at + g.a
            &&& g.left && 0 <= g.at + dt && dt <= g.a - 900_000 ==> at - g.at == dt
            &&& !g.left ==> at == g.at
            &&& !g.left && 900_000 <= g.a + dt <= AXIS_END ==> dur - g.a == dt
        }),
{
}

/// Law: dragging an edge of a clip at normal speed trims that edge by the drag, where
/// the source has room and a tenth of a second is left; no other clip changes.
pub proof fn law_clip_edge_drag(e: EditorView, g: EdgeGrab, i: usize, dt: int)
    requires
        g.wf(),
        g.target == Sel::Main(i),
        i < e.reel.clips.len(),
        g.speed == 1000,
        g.a + crate::time::MIN_PIECE <= g.b <= g.source,
        -LONGEST_RUN <= dt <= LONGEST_RUN,
        !(media_kind(e.reel.clips[i as int].path@) is Still),
    ensures
        ({
            let f = e.edge_dragged(g, dt);
            let c = e.reel.clips[i as int];
            let d = f.reel.clips[i as int];
            &&& same_but(e.reel.clips, f.reel.clips, i as int)
            &&& crate::trims::other_lanes_stay(e, f)
            &&& d == (Clip { in_s: d.in_s, out_s: d.out_s, ..c })
            &&& g.left ==> d.out_s == g.b
            &&& !g.left ==> d.in_s == g.a
            &&& g.left && 0 <= g.a + dt <= g.b - crate::time::MIN_PIECE ==> d.in_s - g.a == dt
            &&& !g.left && g.a + crate::time::MIN_PIECE <= g.b + dt <= g.source ==> d.out_s - g.b == dt
        }),
{
    crate::edges::law_media_resize(0, g.a as int, g.b as int, g.source as int, g.left, dt, false);
    let c = clip_dragged(e.reel.clips[i as int], g, dt);
    let clips = e.reel.clips.update(i as int, c);
    crate::magnet::lemma_carried(
        Reel { clips, ..e.reel },
        spans_of(e.reel.clips),
        crate::trims::starts_by(clips, crate::trims::in_place(clips.len())),
    );
}

/// Law: dragging an edge of a cutaway at normal speed trims that edge by the drag; its
/// left edge takes its start along, so that what it shows stays where it is.
pub proof fn law_cutaway_edge_drag(e: EditorView, g: EdgeGrab, j: usize, dt: int)
    requires
        g.wf(),
        g.target == Sel::Over(j),
        j < e.reel.overlays.len(),
        g.speed == 1000,
        g.a + crate::time::MIN_PIECE <= g.b <= g.source,
        -LONGEST_RUN <= dt <= LONGEST_RUN,
        !(media_kind(e.reel.overlays[j as int].path@) is Still),
    ensures
        ({
            let f = e.edge_dragged(g, dt);
            let o = e.reel.overlays[j as int];
            let d = f.reel.overlays[j as int];
            &&& f == (EditorView { reel: f.reel, ..e })
            &&& f.reel == (Reel { overlays: f.reel.overlays, ..e.reel })
            &&& same_but(e.reel.overlays, f.reel.overlays, j as int)
            &&& d == (OverlayItem { at: d.at, in_s: d.in_s, out_s: d.out_s, ..o })
            &&& g.left ==> d.out_s == g.b
            &&& !g.left ==> d.in_s == g.a && d.at == g.at
            &&& g.left && 0 <= g.a + dt <= g.b - crate::time::MIN_PIECE && 0 <= g.at + dt <= AXIS_END ==> d.in_s - g.a
                == dt && d.at - g.at == dt
            &&& !g.left && g.a + crate::time::MIN_PIECE <= g.b + dt <= g.source ==> d.out_s - g.b == dt
        }),
{
    crate::edges::law_media_resize(g.at as int, g.a as int, g.b as int, g.source as int, g.left, dt, true);
}

/// Law: an edge that is held and not moved leaves its item as it is.
pub proof fn law_held_edge_changes_nothing(e: EditorView, target: Sel, left: bool, x: i32)
    requires
        e.reel.wf(),
        e.reel.has(target),
        target matches Sel::Main(i) ==> e.reel.clips[i as int].wf() && e.reel.clips[i as int].speed == 1000
            && e.reel.clips[i as int].in_s + crate::time::MIN_PIECE <= e.reel.clips[i as int].out_s
            <= e.reel.clips[i as int].duration,
        target matches Sel::Over(i) ==> e.reel.overlays[i as int].wf() && e.reel.overlays[i as int].speed == 1000
            && e.reel.overlays[i as int].in_s + crate::time::MIN_PIECE <= e.reel.overlays[i as int].out_s
            <= e.reel.overlays[i as int].duration && !(media_kind(e.reel.overlays[i as int].path@) is Still),
        target matches Sel::Title(i) ==> e.reel.titles[i as int].wf() && e.reel.titles[i as int].dur >= 900_000
            && e.reel.titles[i as int].at + e.reel.titles[i as int].dur <= AXIS_END,
    ensures
        target is Aud <==> edge_held(e.reel, target, left, x) is None,
        edge_held(e.reel, target, left, x) matches Some(g) ==> g.target == target && g.left == left && g.x == x,
        target is Main ==> e.edge_dragged(edge_held(e.reel, target, left, x)->0, 0).reel.clips == e.reel.clips,
        target is Over || target is Title ==> e.edge_dragged(edge_held(e.reel, target, left, x)->0, 0).reel == e.reel,
{
    reveal(crate::magnet::carried);
    assert(scaled(0, 1000, 1000) == 0);
    if let Sel::Main(i) = target {
        let g = edge_held(e.reel, target, left, x)->0;
        let c = e.reel.clips[i as int];
        assert(clip_dragged(c, g, 0) == c);
        assert(e.edge_dragged(g, 0).reel.clips =~= e.reel.clips);
    }
    if let Sel::Over(i) = target {
        let g = edge_held(e.reel, target, left, x)->0;
        assert(e.edge_dragged(g, 0).reel.overlays =~= e.reel.overlays);
    }
    if let Sel::Title(i) = target {
        let g = edge_held(e.reel, target, left, x)->0;
        assert(e.edge_dragged(g, 0).reel.titles =~= e.reel.titles);
    }
}

/// Law: a title dragged up by as many lanes as the mouse passes goes up by as many, held
/// to the lanes there are; half a lane is enough to change.
pub proof fn law_lane_drag(from: u8, n: int, rest: int, lanes: u8)
    requires
        -18_000 <= rest < 18_000,
        lanes >= 1,
        n >= 0,
    ensures
        n * 36_000 + rest >= 0 && 1 <= from + n <= lanes ==> lane_reached(from, n * 36_000 + rest, lanes) == from + n,
        1 <= from - n && from - n <= lanes && -(n * 36_000 + rest) < 0 ==> lane_reached(
            from,
            -(n * 36_000 + rest),
            lanes,
        ) == from - n,
        1 <= lane_reached(from, rest, lanes) <= lanes,
{
    let up = n * 36_000 + rest;
    assert((2 * up + 36_000) / 72_000 == n);
}

/// Law: an item that is dragged near a cut, the end of the reel, the playhead or a
/// marker lands on it; elsewhere it moves by the drag.
pub proof fn law_item_drag_snaps(e: EditorView, target: Sel, dt: int, scale: u32)
    requires
        e.reel.wf(),
        e.reel.has(target),
        !(target is Main),
        crate::groups::group_at(e.reel, target) == 0,
        scale > 0,
    ensures
        ({
            let was = place_of(e.reel, target)->0;
            let to = snapped(was + dt, snap_targets(e), reel_time(6_000, scale));
            let f = e.lane_dragged(target, dt, scale);
            &&& 0 <= to <= AXIS_END ==> place_of(f.reel, target) == Some(to as Time)
            &&& snap_targets(e).contains(e.playhead)
            &&& snap_targets(e).contains(total(e.reel.clips) as Time)
            &&& forall|k: int| 0 <= k < e.reel.clips.len() ==> snap_targets(e).contains(#[trigger] start(e.reel.clips, k) as Time)
            &&& forall|t: Time| e.reel.markers.contains(t) ==> #[trigger] snap_targets(e).contains(t)
        }),
{
    let s = snap_targets(e);
    let n = e.reel.clips.len() as int;
    assert(s[n] == total(e.reel.clips) as Time);
    assert(s[n + 1] == e.playhead);
    assert forall|k: int| 0 <= k < n implies s.contains(#[trigger] start(e.reel.clips, k) as Time) by {
        assert(s[k] == start(e.reel.clips, k) as Time);
    }
    assert forall|t: Time| e.reel.markers.contains(t) implies #[trigger] s.contains(t) by {
        let k = choose|k: int| 0 <= k < e.reel.markers.len() && e.reel.markers[k] == t;
        assert(s[n + 2 + k] == t);
    }
    let was = place_of(e.reel, target)->0;
    reveal(EditorView::pushed);
    crate::moves::law_an_item_moves_by_itself(e.reel, target, slide_step(e, target, dt, scale));
}

/// Law: dragging a block further right never takes it to an earlier place.
pub proof fn law_block_follows_the_mouse(clips: Seq<Clip>, i: int, head: int, further: int)
    requires
        head <= further,
    ensures
        block_dest(clips, i, head) <= block_dest(clips, i, further),
{
    let (lo, len) = the_block(clips, i);
    lemma_passed_more(
        clips,
        lo,
        len,
        2 * head + stretch(clips, lo, len),
        2 * further + stretch(clips, lo, len),
        clips.len() as int,
    );
}

proof fn lemma_passed_more(clips: Seq<Clip>, lo: int, len: int, m: int, n: int, k: int)
    requires
        m <= n,
    ensures
        passed(clips, lo, len, m, k) <= passed(clips, lo, len, n, k),
    decreases k,
{
    if k > 0 {
        lemma_passed_more(clips, lo, len, m, n, k - 1);
    }
}

/// Law: a release ends whatever was held; only a drag past the dead zone, or one of an
/// edge, a level or a fade, counts as a move.
pub proof fn law_release(d: Drags)
    ensures
        ({
            let r = d.released();
            &&& r.slide is None && r.hop is None && r.fade is None && r.level is None && r.edge is None
            &&& d.moved ==> r.moved
            &&& d.edge is Some || d.level is Some || d.fade is Some ==> r.moved
            &&& d.slide matches Some(s) ==> s.travel > 4_000 ==> r.moved
            &&& !d.moved && d.edge is None && d.level is None && d.fade is None && (d.slide is None
                || d.slide->0.travel <= 4_000) ==> !r.moved
            &&& d.dropped() == (Drags { moved: d.moved, ..r })
        }),
{
}

/// Law: only one thing is dragged at a time: a fade before a level, a level before an
/// edge, and an item only where none of these is held. What the mouse has passed since
/// the grab decides, not the way it took.
pub proof fn law_one_drag_at_a_time(d: Drags, e: EditorView, x: i32, y: i32, scale: u32)
    ensures
        d.fade matches Some(f) ==> mouse_moved(d, e, x, y, scale) == (
            d,
            e.fade_dragged(f.bed, f.out, f.from, reel_time(x - f.x, scale)),
        ),
        d.fade is None ==> (d.level matches Some(l) ==> mouse_moved(d, e, x, y, scale) == (
            d,
            e.level_dragged(l.target, l.from, y - l.y),
        )),
        d.fade is None && d.level is None ==> (d.edge matches Some(g) ==> mouse_moved(d, e, x, y, scale) == (
            d,
            e.edge_dragged(g, reel_time(x - g.x, scale)),
        )),
        d.fade is None && d.level is None && d.edge is None && d.hop is None && d.slide is None ==> mouse_moved(
            d,
            e,
            x,
            y,
            scale,
        ) == (d, e),
        d.fade is None && d.level is None && d.edge is None && d.hop is None ==> (d.slide matches Some(s) ==> !(
        s.target is Main) && x != s.x && slid(s, x).travel > DEAD_ZONE ==> mouse_moved(d, e, x, y, scale).1
            == e.lane_dragged(s.target, reel_time(x - s.x, scale), scale)),
{
}

/// Law: what a slide has travelled grows by what the mouse moved, either way.
pub proof fn law_travel_adds_up(s: Slide, x: i32)
    requires
        0 <= s.travel <= 1_000_000_000,
    ensures
        slid(s, x).x == x && slid(s, x).target == s.target && slid(s, x).head == s.head,
        x >= s.x && s.travel + (x - s.x) <= 1_000_000_000 ==> slid(s, x).travel - s.travel == x - s.x,
        x < s.x && s.travel + (s.x - x) <= 1_000_000_000 ==> slid(s, x).travel - s.travel == s.x - x,
{
}

/// An item was taken hold of.
pub open spec fn item_grabbed(d: Drags, r: Reel, target: Sel, x: i32, y: i32) -> Drags {
    Drags {
        slide: Some(
            Slide {
                target,
                x,
                head: if target is Main {
                    start(r.clips, the_block(r.clips, target->Main_0 as int).0) as Time
                } else {
                    0
                },
                travel: 0,
            },
        ),
        hop: if target is Title {
            Some(
                Hop {
                    card: target->Title_0,
                    track: crate::lanes::higher(r.titles[target->Title_0 as int].track, 1),
                    y,
                },
            )
        } else {
            d.hop
        },
        ..d
    }
}

/// An edge was taken hold of.
pub open spec fn edge_taken(d: Drags, r: Reel, target: Sel, left: bool, x: i32) -> Drags {
    Drags {
        edge: match edge_held(r, target, left, x) {
            Some(g) => Some(g),
            None => d.edge,
        },
        ..d
    }
}

/// A level was taken hold of.
pub open spec fn level_taken(d: Drags, r: Reel, target: Sel, y: i32) -> Drags {
    Drags {
        level: Some(
            LevelGrab {
                target,
                y,
                from: match target {
                    Sel::Main(i) => r.clips[i as int].volume,
                    Sel::Aud(k) => r.audios[k as int].volume,
                    _ => 0,
                },
            },
        ),
        ..d
    }
}

/// A fade was taken hold of.
pub open spec fn fade_taken(d: Drags, r: Reel, k: usize, out: bool, x: i32) -> Drags {
    Drags {
        fade: Some(
            FadeGrab {
                bed: k,
                out,
                x,
                from: if out {
                    r.audios[k as int].fade_out
                } else {
                    r.audios[k as int].fade_in
                },
            },
        ),
        ..d
    }
}

/// Law: what is taken hold of and not moved stays as it is: a level keeps its value, a
/// fade its length, an item its place; and a click is told from a drag.
pub proof fn law_holding_still(d: Drags, e: EditorView, target: Sel, k: usize, out: bool, x: i32, y: i32, scale: u32)
    requires
        d.fade is None,
        d.level is None,
        d.edge is None,
        d.hop is None,
        e.reel.has(target),
        k < e.reel.audios.len(),
        e.reel.audios[k as int].wf(),
        e.reel.audios[k as int].in_s <= e.reel.audios[k as int].out_s,
        0 <= 100 * e.reel.audios[k as int].fade_in <= 49 * (e.reel.audios[k as int].out_s - e.reel.audios[k as int].in_s),
        0 <= 100 * e.reel.audios[k as int].fade_out <= 49 * (e.reel.audios[k as int].out_s - e.reel.audios[k as int].in_s),
        scale > 0,
    ensures
        ({
            let g = fade_taken(d, e.reel, k, out, x);
            &&& g == (Drags { fade: g.fade, ..d }) && g.fade is Some
            &&& mouse_moved(g, e, x, y, scale).1.reel == e.reel
        }),
        target matches Sel::Main(i) ==> e.reel.clips[i as int].volume <= 2000 ==> mouse_moved(
            level_taken(d, e.reel, target, y),
            e,
            x,
            y,
            scale,
        ).1.reel == e.reel,
        target matches Sel::Aud(i) ==> e.reel.audios[i as int].volume <= 2000 && e.reel.audios[i as int].vol_end is None
            ==> mouse_moved(level_taken(d, e.reel, target, y), e, x, y, scale).1.reel == e.reel,
        !(target is Title) ==> mouse_moved(item_grabbed(d, e.reel, target, x, y), e, x, y, scale).1 == e,
        item_grabbed(d, e.reel, target, x, y).slide matches Some(s) && s.target == target && s.travel == 0 && s.x == x,
        !d.moved ==> !item_grabbed(d, e.reel, target, x, y).released().moved,
        target is Title ==> (item_grabbed(d, e.reel, target, x, y).hop matches Some(h) && h.card == target->Title_0 && h.y
            == y),
{
    law_pixels_are_time(0, scale);
    assert(scaled(0, 1, 90) == 0);
    assert(scaled(0, SECOND as int, scale as int) == 0);
    let f = mouse_moved(fade_taken(d, e.reel, k, out, x), e, x, y, scale).1;
    assert(f.reel.audios =~= e.reel.audios);
    if let Sel::Main(i) = target {
        let l = mouse_moved(level_taken(d, e.reel, target, y), e, x, y, scale).1;
        if e.reel.clips[i as int].volume <= 2000 {
            assert(l.reel.clips =~= e.reel.clips);
        }
    }
    if let Sel::Aud(i) = target {
        let l = mouse_moved(level_taken(d, e.reel, target, y), e, x, y, scale).1;
        if e.reel.audios[i as int].volume <= 2000 && e.reel.audios[i as int].vol_end is None {
            assert(l.reel.audios =~= e.reel.audios);
        }
    }
}

/// Law: a still has no end to run into: its right edge can be dragged out as far as it
/// is held, whatever its file says, on the main track as on another.
pub proof fn law_still_edge_drag(e: EditorView, g: EdgeGrab, k: usize, dt: int)
    requires
        g.wf(),
        g.speed == 1000,
        g.a == 0,
        900_000 <= g.b <= SRC_MAX / 2,
        g.at <= AXIS_END / 2,
        -SRC_MAX / 4 <= dt <= SRC_MAX / 4,
        g.b + dt >= 900_000,
        e.reel.has(g.target),
    ensures
        g.target == Sel::Main(k) && media_kind(e.reel.clips[k as int].path@) is Still && !g.left ==> e.edge_dragged(
            g,
            dt,
        ).reel.clips[k as int].out_s - g.b == dt,
        g.target == Sel::Over(k) && media_kind(e.reel.overlays[k as int].path@) is Still && e.reel.overlays[k as int].speed
            == 1000 ==> {
            let d = e.edge_dragged(g, dt).reel.overlays[k as int];
            &&& !g.left ==> d.at == g.at && d.in_s == g.a && d.out_s - g.b == dt
            &&& g.left && 0 <= g.at + dt && dt <= g.b - 900_000 ==> d.at - g.at == dt && d.at + (d.out_s - d.in_s) == g.at
                + (g.b - g.a)
        },
{
    reveal(crate::magnet::carried);
    assert(scaled(dt, 1000, 1000) == dt);
    crate::edges::law_still_resize(g.at as int, g.a, g.b, g.left, dt);
}

/// Law: a block that is held follows the mouse: where its head would be moves by what
/// the mouse moved, in reel time.
pub proof fn law_head_follows(s: Slide, x: i32, scale: u32)
    requires
        scale > 0,
        -AXIS_END <= s.head + reel_time(x - s.x, scale) <= AXIS_END,
    ensures
        headed(s, x, scale) - s.head == reel_time(x - s.x, scale),
{
}

/// How many of the first `n` clips are outside a block.
pub open spec fn outside(lo: int, len: int, n: int) -> int {
    if n <= lo {
        n
    } else if n <= lo + len {
        lo
    } else {
        n - len
    }
}

/// Law: a block goes between the clips whose middle lies before its own and those whose
/// middle lies behind it, the track being closed up behind it as it is lifted.
pub proof fn law_block_goes_between(clips: Seq<Clip>, i: int, head: int, k: int)
    requires
        crate::model::sound(clips),
        0 <= i < clips.len(),
        forall|j: int| 0 <= j < clips.len() ==> (#[trigger] clips[j]).transition is None,
        0 <= k < clips.len(),
    ensures
        ({
            let (lo, len) = the_block(clips, i);
            let dest = block_dest(clips, i, head);
            let long = start(clips, lo + len) - start(clips, lo);
            let before = crate::track::mapped(k, lo, len, dest) < dest;
            &&& 0 <= lo <= i < lo + len <= clips.len()
            &&& k < lo ==> (before <==> 2 * start(clips, k) + run_time(clips[k]) < 2 * head + long)
            &&& k >= lo + len ==> (before <==> 2 * (start(clips, k) - long) + run_time(clips[k]) < 2 * head + long)
        }),
{
    law_a_block(clips, i);
    let (lo, len) = the_block(clips, i);
    assert(is_block(clips, i, lo, len));
    let n = clips.len() as int;
    let middle = 2 * head + stretch(clips, lo, len);
    lemma_stretch(clips, lo, len);
    lemma_walked(clips, lo, len, k);
    lemma_passed_front(clips, lo, len, middle, n);
    if k < lo || k >= lo + len {
        let dest = passed(clips, lo, len, middle, n);
        assert(past(clips, lo, len, middle, k) <==> outside(lo, len, k) < dest);
        assert(outside(lo, len, k) == if k < lo { k } else { k - len });
    }
}

proof fn lemma_stretch(clips: Seq<Clip>, lo: int, n: int)
    requires
        forall|j: int| 0 <= j < clips.len() ==> (#[trigger] clips[j]).transition is None,
        0 <= lo,
        0 <= n,
        lo + n <= clips.len(),
    ensures
        stretch(clips, lo, n) == start(clips, lo + n) - start(clips, lo),
    decreases n,
{
    if n > 0 {
        lemma_stretch(clips, lo, n - 1);
        if lo + n < clips.len() {
            assert(clips[lo + n].transition is None);
        }
    }
}

proof fn lemma_walked(clips: Seq<Clip>, lo: int, len: int, k: int)
    requires
        forall|j: int| 0 <= j < clips.len() ==> (#[trigger] clips[j]).transition is None,
        0 <= lo,
        0 <= len,
        lo + len <= clips.len(),
        0 <= k <= clips.len(),
    ensures
        k <= lo ==> walked(clips, lo, len, k) == start(clips, k),
        lo <= k <= lo + len ==> walked(clips, lo, len, k) == start(clips, lo),
        k >= lo + len ==> walked(clips, lo, len, k) == start(clips, k) - (start(clips, lo + len) - start(clips, lo)),
    decreases k,
{
    if k > 0 {
        lemma_walked(clips, lo, len, k - 1);
        if k < clips.len() {
            assert(clips[k].transition is None);
        }
    }
}

proof fn lemma_walked_rises(clips: Seq<Clip>, lo: int, len: int, j: int, k: int)
    requires
        crate::model::sound(clips),
        0 <= j < k < clips.len(),
        !(lo <= j < lo + len),
    ensures
        walked(clips, lo, len, j) + run_time(clips[j]) <= walked(clips, lo, len, k),
    decreases k - j,
{
    crate::track::law_extents(clips, k - 1);
    if j < k - 1 {
        lemma_walked_rises(clips, lo, len, j, k - 1);
    }
}

proof fn lemma_passed_front(clips: Seq<Clip>, lo: int, len: int, middle: int, n: int)
    requires
        crate::model::sound(clips),
        0 <= lo,
        0 <= len,
        lo + len <= clips.len(),
        0 <= n <= clips.len(),
    ensures
        0 <= passed(clips, lo, len, middle, n) <= outside(lo, len, n),
        forall|k: int|
            0 <= k < n && !(lo <= k < lo + len) ==> (#[trigger] past(clips, lo, len, middle, k) <==> outside(lo, len, k)
                < passed(clips, lo, len, middle, n)),
    decreases n,
{
    if n > 0 {
        lemma_passed_front(clips, lo, len, middle, n - 1);
        let was = passed(clips, lo, len, middle, n - 1);
        if past(clips, lo, len, middle, n - 1) {
            crate::track::law_extents(clips, n - 1);
            assert forall|k: int| 0 <= k < n - 1 && !(lo <= k < lo + len) implies #[trigger] past(
                clips,
                lo,
                len,
                middle,
                k,
            ) by {
                lemma_walked_rises(clips, lo, len, k, n - 1);
                crate::track::law_extents(clips, k);
            }
            if n - 1 > 0 && was < outside(lo, len, n - 1) {
                let last = if n - 1 > lo + len || len == 0 || n - 1 <= lo { n - 2 } else { lo - 1 };
                assert(!(lo <= last < lo + len));
                assert(past(clips, lo, len, middle, last));
            }
        }
    }
}

} // verus!
