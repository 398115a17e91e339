//! Moving things: lane items along the axis, clips along the main track, the
//! playhead along the reel.

use crate::editor::{lemma_rideable, one_edit, same_but, Editor, EditorView};
use crate::groups::group_at;
use crate::model::{AdjustmentItem, AudioItem, Clip, OverlayItem, Reel, Sel, Snapshot, TitleView};
use crate::time::{
    between, hold_between, lower, on_axis, place, placed, upper, Time, AXIS_END, FRAME,
};
use crate::track::{
    block_map, law_block_move, law_extents, mapped, moved, spans, start, start_of, total,
    total_of,
};
use crate::trims::rides_along;
use vstd::prelude::*;

verus! {

/// Where a lane item starts; none for a clip, whose place follows from its track.
pub open spec fn place_of(r: Reel, s: Sel) -> Option<Time> {
    match s {
        Sel::Main(_) => None,
        Sel::Over(i) => if i < r.overlays.len() { Some(r.overlays[i as int].at) } else { None },
        Sel::Aud(i) => if i < r.audios.len() { Some(r.audios[i as int].at) } else { None },
        Sel::Title(i) => if i < r.titles.len() { Some(r.titles[i as int].at) } else { None },
        Sel::Adjust(i) => if i < r.adjustments.len() { Some(r.adjustments[i as int].at) } else { None },
    }
}

/// A reel with one lane item at another place.
pub open spec fn put_at(r: Reel, s: Sel, at: Time) -> Reel {
    match s {
        Sel::Main(_) => r,
        Sel::Over(i) => Reel {
            overlays: r.overlays.update(i as int, OverlayItem { at, ..r.overlays[i as int] }),
            ..r
        },
        Sel::Aud(i) => Reel {
            audios: r.audios.update(i as int, AudioItem { at, ..r.audios[i as int] }),
            ..r
        },
        Sel::Title(i) => Reel {
            titles: r.titles.update(i as int, TitleView { at, ..r.titles[i as int] }),
            ..r
        },
        Sel::Adjust(i) => Reel {
            adjustments: r.adjustments.update(i as int, AdjustmentItem { at, ..r.adjustments[i as int] }),
            ..r
        },
    }
}

/// The starts of the lane items of a group, lane after lane.
pub open spec fn member_starts(r: Reel, gid: u64) -> Seq<Time> {
    overlay_starts(r.overlays, gid, r.overlays.len() as int) + audio_starts(r.audios, gid, r.audios.len() as int)
        + title_starts(r.titles, gid, r.titles.len() as int) + adjustment_starts(
        r.adjustments,
        gid,
        r.adjustments.len() as int,
    )
}

/// The starts of those of the first `n` overlays that are in a group.
pub open spec fn overlay_starts(s: Seq<OverlayItem>, gid: u64, n: int) -> Seq<Time>
    decreases n,
{
    if n <= 0 {
        Seq::empty()
    } else if s[n - 1].group == gid {
        overlay_starts(s, gid, n - 1).push(s[n - 1].at)
    } else {
        overlay_starts(s, gid, n - 1)
    }
}

proof fn lemma_overlay_starts(s: Seq<OverlayItem>, gid: u64, n: int)
    requires
        0 <= n <= s.len(),
        crate::model::overlays_ok(s),
    ensures
        forall|k: int| 0 <= k < overlay_starts(s, gid, n).len() ==> on_axis(#[trigger] overlay_starts(s, gid, n)[k]),
        forall|i: int|
            0 <= i < n && (#[trigger] s[i]).group == gid ==> overlay_starts(s, gid, n).contains(s[i].at),
    decreases n,
{
    reveal(crate::model::overlays_ok);
    if n > 0 {
        lemma_overlay_starts(s, gid, n - 1);
        let p = overlay_starts(s, gid, n - 1);
        let q = overlay_starts(s, gid, n);
        assert(s[n - 1].wf());
        assert forall|i: int| 0 <= i < n && (#[trigger] s[i]).group == gid implies q.contains(s[i].at) by {
            if i == n - 1 {
                assert(q[p.len() as int] == s[i].at);
            } else {
                let k = choose|k: int| 0 <= k < p.len() && p[k] == s[i].at;
                assert(q[k] == s[i].at);
            }
        }
    }
}

/// The starts of those of the first `n` audios that are in a group.
pub open spec fn audio_starts(s: Seq<AudioItem>, gid: u64, n: int) -> Seq<Time>
    decreases n,
{
    if n <= 0 {
        Seq::empty()
    } else if s[n - 1].group == gid {
        audio_starts(s, gid, n - 1).push(s[n - 1].at)
    } else {
        audio_starts(s, gid, n - 1)
    }
}

proof fn lemma_audio_starts(s: Seq<AudioItem>, gid: u64, n: int)
    requires
        0 <= n <= s.len(),
        crate::model::audios_ok(s),
    ensures
        forall|k: int| 0 <= k < audio_starts(s, gid, n).len() ==> on_axis(#[trigger] audio_starts(s, gid, n)[k]),
        forall|i: int|
            0 <= i < n && (#[trigger] s[i]).group == gid ==> audio_starts(s, gid, n).contains(s[i].at),
    decreases n,
{
    reveal(crate::model::audios_ok);
    if n > 0 {
        lemma_audio_starts(s, gid, n - 1);
        let p = audio_starts(s, gid, n - 1);
        let q = audio_starts(s, gid, n);
        assert(s[n - 1].wf());
        assert forall|i: int| 0 <= i < n && (#[trigger] s[i]).group == gid implies q.contains(s[i].at) by {
            if i == n - 1 {
                assert(q[p.len() as int] == s[i].at);
            } else {
                let k = choose|k: int| 0 <= k < p.len() && p[k] == s[i].at;
                assert(q[k] == s[i].at);
            }
        }
    }
}

/// The starts of those of the first `n` titles that are in a group.
pub open spec fn title_starts(s: Seq<TitleView>, gid: u64, n: int) -> Seq<Time>
    decreases n,
{
    if n <= 0 {
        Seq::empty()
    } else if s[n - 1].group == gid {
        title_starts(s, gid, n - 1).push(s[n - 1].at)
    } else {
        title_starts(s, gid, n - 1)
    }
}

proof fn lemma_title_starts(s: Seq<TitleView>, gid: u64, n: int)
    requires
        0 <= n <= s.len(),
        crate::model::titles_ok(s),
    ensures
        forall|k: int| 0 <= k < title_starts(s, gid, n).len() ==> on_axis(#[trigger] title_starts(s, gid, n)[k]),
        forall|i: int|
            0 <= i < n && (#[trigger] s[i]).group == gid ==> title_starts(s, gid, n).contains(s[i].at),
    decreases n,
{
    reveal(crate::model::titles_ok);
    if n > 0 {
        lemma_title_starts(s, gid, n - 1);
        let p = title_starts(s, gid, n - 1);
        let q = title_starts(s, gid, n);
        assert(s[n - 1].wf());
        assert forall|i: int| 0 <= i < n && (#[trigger] s[i]).group == gid implies q.contains(s[i].at) by {
            if i == n - 1 {
                assert(q[p.len() as int] == s[i].at);
            } else {
                let k = choose|k: int| 0 <= k < p.len() && p[k] == s[i].at;
                assert(q[k] == s[i].at);
            }
        }
    }
}

/// The starts of those of the first `n` adjustments that are in a group.
pub open spec fn adjustment_starts(s: Seq<AdjustmentItem>, gid: u64, n: int) -> Seq<Time>
    decreases n,
{
    if n <= 0 {
        Seq::empty()
    } else if s[n - 1].group == gid {
        adjustment_starts(s, gid, n - 1).push(s[n - 1].at)
    } else {
        adjustment_starts(s, gid, n - 1)
    }
}

proof fn lemma_adjustment_starts(s: Seq<AdjustmentItem>, gid: u64, n: int)
    requires
        0 <= n <= s.len(),
        crate::model::adjustments_ok(s),
    ensures
        forall|k: int| 0 <= k < adjustment_starts(s, gid, n).len() ==> on_axis(#[trigger] adjustment_starts(s, gid, n)[k]),
        forall|i: int|
            0 <= i < n && (#[trigger] s[i]).group == gid ==> adjustment_starts(s, gid, n).contains(s[i].at),
    decreases n,
{
    reveal(crate::model::adjustments_ok);
    if n > 0 {
        lemma_adjustment_starts(s, gid, n - 1);
        let p = adjustment_starts(s, gid, n - 1);
        let q = adjustment_starts(s, gid, n);
        assert(s[n - 1].wf());
        assert forall|i: int| 0 <= i < n && (#[trigger] s[i]).group == gid implies q.contains(s[i].at) by {
            if i == n - 1 {
                assert(q[p.len() as int] == s[i].at);
            } else {
                let k = choose|k: int| 0 <= k < p.len() && p[k] == s[i].at;
                assert(q[k] == s[i].at);
            }
        }
    }
}

/// The earliest of some times; the far end of the axis when there are none.
pub open spec fn earliest(s: Seq<Time>) -> int
    decreases s.len(),
{
    if s.len() == 0 {
        AXIS_END as int
    } else {
        lower(earliest(s.drop_last()), s.last() as int)
    }
}

/// The latest of some times; the start of the axis when there are none.
pub open spec fn latest(s: Seq<Time>) -> int
    decreases s.len(),
{
    if s.len() == 0 {
        0
    } else {
        upper(latest(s.drop_last()), s.last() as int)
    }
}

/// How far a group moves when it is dragged by `dt`: as far as it can with every
/// member still on the axis.
pub open spec fn group_step(dt: int, starts: Seq<Time>) -> int {
    between(dt, -earliest(starts), AXIS_END - latest(starts))
}

/// A reel with the lane items of a group moved by `dt`.
pub open spec fn group_moved(r: Reel, gid: u64, dt: int) -> Reel {
    Reel {
        overlays: Seq::new(
            r.overlays.len(),
            |i: int|
                if r.overlays[i].group == gid {
                    OverlayItem { at: (r.overlays[i].at + dt) as Time, ..r.overlays[i] }
                } else {
                    r.overlays[i]
                },
        ),
        audios: Seq::new(
            r.audios.len(),
            |i: int|
                if r.audios[i].group == gid {
                    AudioItem { at: (r.audios[i].at + dt) as Time, ..r.audios[i] }
                } else {
                    r.audios[i]
                },
        ),
        titles: Seq::new(
            r.titles.len(),
            |i: int|
                if r.titles[i].group == gid {
                    TitleView { at: (r.titles[i].at + dt) as Time, ..r.titles[i] }
                } else {
                    r.titles[i]
                },
        ),
        adjustments: Seq::new(
            r.adjustments.len(),
            |i: int|
                if r.adjustments[i].group == gid {
                    AdjustmentItem { at: (r.adjustments[i].at + dt) as Time, ..r.adjustments[i] }
                } else {
                    r.adjustments[i]
                },
        ),
        ..r
    }
}

/// A reel after lane item `s` was dragged by `dt`: with its group where it has
/// one, and never off the axis.
pub open spec fn shifted(r: Reel, s: Sel, dt: int) -> Reel {
    let gid = group_at(r, s);
    if gid == 0 {
        match place_of(r, s) {
            Some(at) => put_at(r, s, placed(at + dt) as Time),
            None => r,
        }
    } else {
        group_moved(r, gid, group_step(dt, member_starts(r, gid)))
    }
}

/// Law: a group is dragged as one: no member leaves the axis, and any two keep
/// their distance.
pub proof fn law_group_moves_rigidly(r: Reel, s: Sel, dt: int, a: Sel, b: Sel)
    requires
        r.wf(),
        group_at(r, s) != 0,
        r.has(a) && !(a is Main),
        r.has(b) && !(b is Main),
        group_at(r, a) == group_at(r, s),
        group_at(r, b) == group_at(r, s),
    ensures
        on_axis(place_of(shifted(r, s, dt), a)->0),
        place_of(shifted(r, s, dt), a)->0 - place_of(shifted(r, s, dt), b)->0 == place_of(r, a)->0 - place_of(
            r,
            b,
        )->0,
{
    lemma_group_stays(r, group_at(r, s), dt);
}

/// Law: dragging a grouped item leaves everything outside its group where it was.
pub proof fn law_others_stay(r: Reel, s: Sel, dt: int, x: Sel)
    requires
        r.has(x),
        group_at(r, s) != 0,
        group_at(r, x) != group_at(r, s),
    ensures
        place_of(shifted(r, s, dt), x) == place_of(r, x),
        shifted(r, s, dt).clips == r.clips,
{
}

proof fn lemma_bounds(s: Seq<Time>, x: Time)
    requires
        s.contains(x),
        forall|k: int| 0 <= k < s.len() ==> on_axis(#[trigger] s[k]),
    ensures
        0 <= earliest(s) <= x <= latest(s) <= AXIS_END,
    decreases s.len(),
{
    let p = s.drop_last();
    assert forall|k: int| 0 <= k < p.len() implies on_axis(#[trigger] p[k]) by {
        assert(p[k] == s[k]);
    }
    assert(on_axis(s[s.len() - 1]));
    lemma_extremes(p);
    if x != s.last() {
        let k = choose|k: int| 0 <= k < s.len() && s[k] == x;
        assert(p[k] == x);
        lemma_bounds(p, x);
    }
}

proof fn lemma_extremes(s: Seq<Time>)
    requires
        forall|k: int| 0 <= k < s.len() ==> on_axis(#[trigger] s[k]),
    ensures
        0 <= earliest(s) <= AXIS_END,
        0 <= latest(s) <= AXIS_END,
    decreases s.len(),
{
    if s.len() > 0 {
        let p = s.drop_last();
        assert forall|k: int| 0 <= k < p.len() implies on_axis(#[trigger] p[k]) by {
            assert(p[k] == s[k]);
        }
        assert(on_axis(s[s.len() - 1]));
        lemma_extremes(p);
    }
}

proof fn lemma_group_stays(r: Reel, gid: u64, dt: int)
    requires
        r.wf(),
    ensures
        forall|i: int|
            0 <= i < r.overlays.len() && r.overlays[i].group == gid ==> 0 <= (#[trigger] r.overlays[i]).at
                + group_step(dt, member_starts(r, gid)) <= AXIS_END,
        forall|i: int|
            0 <= i < r.audios.len() && r.audios[i].group == gid ==> 0 <= (#[trigger] r.audios[i]).at
                + group_step(dt, member_starts(r, gid)) <= AXIS_END,
        forall|i: int|
            0 <= i < r.titles.len() && r.titles[i].group == gid ==> 0 <= (#[trigger] r.titles[i]).at
                + group_step(dt, member_starts(r, gid)) <= AXIS_END,
        forall|i: int|
            0 <= i < r.adjustments.len() && r.adjustments[i].group == gid ==> 0
                <= (#[trigger] r.adjustments[i]).at + group_step(dt, member_starts(r, gid)) <= AXIS_END,
        group_moved(r, gid, group_step(dt, member_starts(r, gid))).wf(),
{
    let a = overlay_starts(r.overlays, gid, r.overlays.len() as int);
    let b = audio_starts(r.audios, gid, r.audios.len() as int);
    let c = title_starts(r.titles, gid, r.titles.len() as int);
    let d = adjustment_starts(r.adjustments, gid, r.adjustments.len() as int);
    let m = member_starts(r, gid);
    lemma_overlay_starts(r.overlays, gid, r.overlays.len() as int);
    lemma_audio_starts(r.audios, gid, r.audios.len() as int);
    lemma_title_starts(r.titles, gid, r.titles.len() as int);
    lemma_adjustment_starts(r.adjustments, gid, r.adjustments.len() as int);
    assert forall|k: int| 0 <= k < m.len() implies on_axis(#[trigger] m[k]) by {
        if k < a.len() {
            assert(m[k] == a[k]);
        } else if k < a.len() + b.len() {
            assert(m[k] == b[k - a.len()]);
        } else if k < a.len() + b.len() + c.len() {
            assert(m[k] == c[k - a.len() - b.len()]);
        } else {
            assert(m[k] == d[k - a.len() - b.len() - c.len()]);
        }
    }
    assert forall|i: int| 0 <= i < r.overlays.len() && r.overlays[i].group == gid implies 0
        <= (#[trigger] r.overlays[i]).at + group_step(dt, m) <= AXIS_END by {
        let k = choose|k: int| 0 <= k < a.len() && a[k] == r.overlays[i].at;
        assert(m[k] == r.overlays[i].at);
        lemma_bounds(m, r.overlays[i].at);
    }
    assert forall|i: int| 0 <= i < r.audios.len() && r.audios[i].group == gid implies 0
        <= (#[trigger] r.audios[i]).at + group_step(dt, m) <= AXIS_END by {
        let k = choose|k: int| 0 <= k < b.len() && b[k] == r.audios[i].at;
        assert(m[a.len() + k] == r.audios[i].at);
        lemma_bounds(m, r.audios[i].at);
    }
    assert forall|i: int| 0 <= i < r.titles.len() && r.titles[i].group == gid implies 0
        <= (#[trigger] r.titles[i]).at + group_step(dt, m) <= AXIS_END by {
        let k = choose|k: int| 0 <= k < c.len() && c[k] == r.titles[i].at;
        assert(m[a.len() + b.len() + k] == r.titles[i].at);
        lemma_bounds(m, r.titles[i].at);
    }
    assert forall|i: int| 0 <= i < r.adjustments.len() && r.adjustments[i].group == gid implies 0
        <= (#[trigger] r.adjustments[i]).at + group_step(dt, m) <= AXIS_END by {
        let k = choose|k: int| 0 <= k < d.len() && d[k] == r.adjustments[i].at;
        assert(m[a.len() + b.len() + c.len() + k] == r.adjustments[i].at);
        lemma_bounds(m, r.adjustments[i].at);
    }
    reveal(crate::model::overlays_ok);
    reveal(crate::model::audios_ok);
    reveal(crate::model::titles_ok);
    reveal(crate::model::adjustments_ok);
}

impl Snapshot {
    /// Where a lane item starts.
    pub fn lane_at(&self, s: Sel) -> (r: Option<Time>)
        ensures
            r == place_of(self@, s),
    {
        match s {
            Sel::Main(_) => None,
            Sel::Over(i) => if i < self.overlays.len() { Some(self.overlays[i].at) } else { None },
            Sel::Aud(i) => if i < self.audios.len() { Some(self.audios[i].at) } else { None },
            Sel::Title(i) => if i < self.titles.len() { Some(self.titles[i].at) } else { None },
            Sel::Adjust(i) => if i < self.adjustments.len() { Some(self.adjustments[i].at) } else { None },
        }
    }

    /// The starts of the lane items of a group.
    fn starts_of_group(&self, gid: u64) -> (r: Vec<Time>)
        ensures
            r@ == member_starts(self@, gid),
    {
        let mut r: Vec<Time> = Vec::new();
        let ghost head = r@;
        let mut i: usize = 0;
        while i < self.overlays.len()
            invariant
                i <= self.overlays.len(),
                r@ == head + overlay_starts(self@.overlays, gid, i as int),
            decreases self.overlays.len() - i,
        {
            if self.overlays[i].group == gid {
                r.push(self.overlays[i].at);
            }
            i += 1;
            assert(r@ =~= head + overlay_starts(self@.overlays, gid, i as int));
        }
        let ghost head = r@;
        let mut i: usize = 0;
        while i < self.audios.len()
            invariant
                i <= self.audios.len(),
                r@ == head + audio_starts(self@.audios, gid, i as int),
            decreases self.audios.len() - i,
        {
            if self.audios[i].group == gid {
                r.push(self.audios[i].at);
            }
            i += 1;
            assert(r@ =~= head + audio_starts(self@.audios, gid, i as int));
        }
        let ghost head = r@;
        let mut i: usize = 0;
        while i < self.titles.len()
            invariant
                i <= self.titles.len(),
                r@ == head + title_starts(self@.titles, gid, i as int),
            decreases self.titles.len() - i,
        {
            if self.titles[i].group == gid {
                r.push(self.titles[i].at);
            }
            i += 1;
            assert(r@ =~= head + title_starts(self@.titles, gid, i as int));
        }
        let ghost head = r@;
        let mut i: usize = 0;
        while i < self.adjustments.len()
            invariant
                i <= self.adjustments.len(),
                r@ == head + adjustment_starts(self@.adjustments, gid, i as int),
            decreases self.adjustments.len() - i,
        {
            if self.adjustments[i].group == gid {
                r.push(self.adjustments[i].at);
            }
            i += 1;
            assert(r@ =~= head + adjustment_starts(self@.adjustments, gid, i as int));
        }
        r
    }

    /// Move the lane items of a group by `dt`.
    fn move_group(&mut self, gid: u64, dt: Time)
        requires
            old(self)@.wf(),
            group_moved(old(self)@, gid, dt as int).wf(),
            -AXIS_END <= dt <= AXIS_END,
            forall|i: int|
                0 <= i < old(self)@.overlays.len() && old(self)@.overlays[i].group == gid ==> 0
                    <= (#[trigger] old(self)@.overlays[i]).at + dt <= AXIS_END,
            forall|i: int|
                0 <= i < old(self)@.audios.len() && old(self)@.audios[i].group == gid ==> 0
                    <= (#[trigger] old(self)@.audios[i]).at + dt <= AXIS_END,
            forall|i: int|
                0 <= i < old(self)@.titles.len() && old(self)@.titles[i].group == gid ==> 0
                    <= (#[trigger] old(self)@.titles[i]).at + dt <= AXIS_END,
            forall|i: int|
                0 <= i < old(self)@.adjustments.len() && old(self)@.adjustments[i].group == gid ==> 0
                    <= (#[trigger] old(self)@.adjustments[i]).at + dt <= AXIS_END,
        ensures
            final(self)@ == group_moved(old(self)@, gid, dt as int),
    {
        let ghost was = self@;
        let ghost to = group_moved(was, gid, dt as int);
        let mut i: usize = 0;
        while i < self.overlays.len()
            invariant
                i <= self.overlays.len(),
                to == group_moved(was, gid, dt as int),
                self@ == (Reel { overlays: self@.overlays, ..was }),
                self@.overlays.len() == was.overlays.len(),
                forall|k: int| 0 <= k < i ==> #[trigger] self@.overlays[k] == to.overlays[k],
                forall|k: int| i <= k < was.overlays.len() ==> #[trigger] self@.overlays[k] == was.overlays[k],
                forall|k: int|
                    0 <= k < was.overlays.len() && was.overlays[k].group == gid ==> 0 <= (#[trigger] was.overlays[k]).at + dt
                        <= AXIS_END,
            decreases self.overlays.len() - i,
        {
            let ghost before = self@.overlays;
            assert(before[i as int] == was.overlays[i as int]);
            if self.overlays[i].group == gid {
                let at: Time = self.overlays[i].at + dt;
                self.overlays[i].at = at;
            }
            assert(self@.overlays =~= before.update(i as int, to.overlays[i as int]));
            i += 1;
        }
        assert(self@.overlays =~= to.overlays);
        let mut i: usize = 0;
        while i < self.audios.len()
            invariant
                i <= self.audios.len(),
                to == group_moved(was, gid, dt as int),
                self@ == (Reel { overlays: to.overlays, audios: self@.audios, ..was }),
                self@.audios.len() == was.audios.len(),
                forall|k: int| 0 <= k < i ==> #[trigger] self@.audios[k] == to.audios[k],
                forall|k: int| i <= k < was.audios.len() ==> #[trigger] self@.audios[k] == was.audios[k],
                forall|k: int|
                    0 <= k < was.audios.len() && was.audios[k].group == gid ==> 0 <= (#[trigger] was.audios[k]).at + dt
                        <= AXIS_END,
            decreases self.audios.len() - i,
        {
            let ghost before = self@.audios;
            assert(before[i as int] == was.audios[i as int]);
            if self.audios[i].group == gid {
                let at: Time = self.audios[i].at + dt;
                self.audios[i].at = at;
            }
            assert(self@.audios =~= before.update(i as int, to.audios[i as int]));
            i += 1;
        }
        assert(self@.audios =~= to.audios);
        let mut i: usize = 0;
        while i < self.titles.len()
            invariant
                i <= self.titles.len(),
                to == group_moved(was, gid, dt as int),
                self@ == (Reel { overlays: to.overlays, audios: to.audios, titles: self@.titles, ..was }),
                self@.titles.len() == was.titles.len(),
                forall|k: int| 0 <= k < i ==> #[trigger] self@.titles[k] == to.titles[k],
                forall|k: int| i <= k < was.titles.len() ==> #[trigger] self@.titles[k] == was.titles[k],
                forall|k: int|
                    0 <= k < was.titles.len() && was.titles[k].group == gid ==> 0 <= (#[trigger] was.titles[k]).at + dt
                        <= AXIS_END,
            decreases self.titles.len() - i,
        {
            let ghost before = self@.titles;
            assert(before[i as int] == was.titles[i as int]);
            if self.titles[i].group == gid {
                let at: Time = self.titles[i].at + dt;
                self.titles[i].at = at;
            }
            assert(self@.titles =~= before.update(i as int, to.titles[i as int]));
            i += 1;
        }
        assert(self@.titles =~= to.titles);
        let mut i: usize = 0;
        while i < self.adjustments.len()
            invariant
                i <= self.adjustments.len(),
                to == group_moved(was, gid, dt as int),
                self@ == (Reel { overlays: to.overlays, audios: to.audios, titles: to.titles, adjustments: self@.adjustments, ..was }),
                self@.adjustments.len() == was.adjustments.len(),
                forall|k: int| 0 <= k < i ==> #[trigger] self@.adjustments[k] == to.adjustments[k],
                forall|k: int| i <= k < was.adjustments.len() ==> #[trigger] self@.adjustments[k] == was.adjustments[k],
                forall|k: int|
                    0 <= k < was.adjustments.len() && was.adjustments[k].group == gid ==> 0 <= (#[trigger] was.adjustments[k]).at + dt
                        <= AXIS_END,
            decreases self.adjustments.len() - i,
        {
            let ghost before = self@.adjustments;
            assert(before[i as int] == was.adjustments[i as int]);
            if self.adjustments[i].group == gid {
                let at: Time = self.adjustments[i].at + dt;
                self.adjustments[i].at = at;
            }
            assert(self@.adjustments =~= before.update(i as int, to.adjustments[i as int]));
            i += 1;
        }
        assert(self@.adjustments =~= to.adjustments);
        assert(self@ =~= to);
    }

    /// Drag a lane item by `dt`, with its group where it has one.
    pub fn shift(&mut self, s: Sel, dt: Time)
        requires
            old(self)@.wf(),
            -AXIS_END <= dt <= AXIS_END,
        ensures
            final(self)@ == shifted(old(self)@, s, dt as int),
            final(self)@.wf(),
    {
        let ghost was = self@;
        let gid: u64 = self.group_of(s);
        if gid == 0 {
            if let Some(at) = self.lane_at(s) {
                match s {
                    Sel::Main(_) => {},
                    Sel::Over(i) => {
                        proof {
                            crate::model::lemma_overlays_ok_at(was.overlays, i as int);
                        }
                        self.overlays[i].at = place(at + dt);
                    },
                    Sel::Aud(i) => {
                        proof {
                            crate::model::lemma_audios_ok_at(was.audios, i as int);
                        }
                        self.audios[i].at = place(at + dt);
                    },
                    Sel::Title(i) => {
                        proof {
                            crate::model::lemma_titles_ok_at(was.titles, i as int);
                        }
                        self.titles[i].at = place(at + dt);
                    },
                    Sel::Adjust(i) => {
                        proof {
                            crate::model::lemma_adjustments_ok_at(was.adjustments, i as int);
                        }
                        self.adjustments[i].at = place(at + dt);
                    },
                }
            }
            proof {
                reveal(crate::model::overlays_ok);
                reveal(crate::model::audios_ok);
                reveal(crate::model::titles_ok);
                reveal(crate::model::adjustments_ok);
            }
            let ghost to = shifted(was, s, dt as int);
            assert(self@.overlays =~= to.overlays);
            assert(self@.audios =~= to.audios);
            assert(self@.titles =~= to.titles);
            assert(self@.adjustments =~= to.adjustments);
            return;
        }
        let starts: Vec<Time> = self.starts_of_group(gid);
        proof {
            lemma_group_stays(was, gid, dt as int);
            lemma_group_times(was, gid);
        }
        let mut lo: Time = AXIS_END;
        let mut hi: Time = 0;
        let mut i: usize = 0;
        while i < starts.len()
            invariant
                i <= starts.len(),
                forall|k: int| 0 <= k < starts.len() ==> on_axis(#[trigger] starts@[k]),
                on_axis(lo),
                on_axis(hi),
                lo == earliest(starts@.take(i as int)),
                hi == latest(starts@.take(i as int)),
            decreases starts.len() - i,
        {
            assert(starts@.take(i + 1).drop_last() =~= starts@.take(i as int));
            if starts[i] < lo {
                lo = starts[i];
            }
            if starts[i] > hi {
                hi = starts[i];
            }
            i += 1;
        }
        assert(starts@.take(starts.len() as int) =~= starts@);
        let step: Time = hold_between(dt, -lo, AXIS_END - hi);
        self.move_group(gid, step);
    }
}

proof fn lemma_group_times(r: Reel, gid: u64)
    requires
        r.wf(),
    ensures
        forall|k: int| 0 <= k < member_starts(r, gid).len() ==> on_axis(#[trigger] member_starts(r, gid)[k]),
{
    let a = overlay_starts(r.overlays, gid, r.overlays.len() as int);
    let b = audio_starts(r.audios, gid, r.audios.len() as int);
    let c = title_starts(r.titles, gid, r.titles.len() as int);
    let d = adjustment_starts(r.adjustments, gid, r.adjustments.len() as int);
    let m = member_starts(r, gid);
    lemma_overlay_starts(r.overlays, gid, r.overlays.len() as int);
    lemma_audio_starts(r.audios, gid, r.audios.len() as int);
    lemma_title_starts(r.titles, gid, r.titles.len() as int);
    lemma_adjustment_starts(r.adjustments, gid, r.adjustments.len() as int);
    assert forall|k: int| 0 <= k < m.len() implies on_axis(#[trigger] m[k]) by {
        if k < a.len() {
            assert(m[k] == a[k]);
        } else if k < a.len() + b.len() {
            assert(m[k] == b[k - a.len()]);
        } else if k < a.len() + b.len() + c.len() {
            assert(m[k] == c[k - a.len() - b.len()]);
        } else {
            assert(m[k] == d[k - a.len() - b.len() - c.len()]);
        }
    }
}

/// The block a clip belongs to: the clips around it that share its group, or the
/// clip alone when it is in none.
pub open spec fn is_block(clips: Seq<Clip>, i: int, lo: int, len: int) -> bool {
    let g = clips[i].group;
    &&& 0 <= lo <= i < lo + len <= clips.len()
    &&& g == 0 ==> len == 1
    &&& g != 0 ==> {
        &&& forall|k: int| lo <= k < lo + len ==> (#[trigger] clips[k]).group == g
        &&& lo > 0 ==> clips[lo - 1].group != g
        &&& lo + len < clips.len() ==> clips[lo + len].group != g
    }
}

/// Law: every clip belongs to a block.
pub proof fn law_a_block(clips: Seq<Clip>, i: int)
    requires
        0 <= i < clips.len(),
    ensures
        exists|p: (int, int)| #[trigger] is_block(clips, i, p.0, p.1),
{
    let g = clips[i].group;
    if g == 0 {
        assert(is_block(clips, i, (i, 1int).0, (i, 1int).1));
    } else {
        let lo = block_head(clips, g, i);
        let end = block_end(clips, g, i);
        lemma_block_head(clips, g, i);
        lemma_block_end(clips, g, i);
        let p = (lo, end - lo);
        assert forall|k: int| lo <= k < end implies (#[trigger] clips[k]).group == g by {}
        assert(is_block(clips, i, p.0, p.1));
    }
}

/// The first of the clips up to `i` that lie in group `g` without a break.
spec fn block_head(clips: Seq<Clip>, g: u64, i: int) -> int
    decreases i,
{
    if i <= 0 || clips[i - 1].group != g { i } else { block_head(clips, g, i - 1) }
}

proof fn lemma_block_head(clips: Seq<Clip>, g: u64, i: int)
    requires
        0 <= i < clips.len(),
        clips[i].group == g,
    ensures
        0 <= block_head(clips, g, i) <= i,
        forall|k: int| block_head(clips, g, i) <= k <= i ==> (#[trigger] clips[k]).group == g,
        block_head(clips, g, i) > 0 ==> clips[block_head(clips, g, i) - 1].group != g,
    decreases i,
{
    if i > 0 && clips[i - 1].group == g {
        lemma_block_head(clips, g, i - 1);
    }
}

/// Past the last of the clips from `i` on that lie in group `g` without a break.
spec fn block_end(clips: Seq<Clip>, g: u64, i: int) -> int
    decreases clips.len() - i,
{
    if i + 1 >= clips.len() || clips[i + 1].group != g { i + 1 } else { block_end(clips, g, i + 1) }
}

proof fn lemma_block_end(clips: Seq<Clip>, g: u64, i: int)
    requires
        0 <= i < clips.len(),
        clips[i].group == g,
    ensures
        i < block_end(clips, g, i) <= clips.len(),
        forall|k: int| i <= k < block_end(clips, g, i) ==> (#[trigger] clips[k]).group == g,
        block_end(clips, g, i) < clips.len() ==> clips[block_end(clips, g, i)].group != g,
    decreases clips.len() - i,
{
    if i + 1 < clips.len() && clips[i + 1].group == g {
        lemma_block_end(clips, g, i + 1);
    }
}

/// Law: a clip belongs to one block only.
pub proof fn law_one_block(clips: Seq<Clip>, i: int, lo: int, len: int, lo2: int, len2: int)
    requires
        0 <= i < clips.len(),
        is_block(clips, i, lo, len),
        is_block(clips, i, lo2, len2),
    ensures
        lo == lo2,
        len == len2,
{
    if clips[i].group != 0 {
        if lo < lo2 {
            assert(clips[lo2 - 1].group == clips[i].group);
        }
        if lo2 < lo {
            assert(clips[lo - 1].group == clips[i].group);
        }
        if lo + len < lo2 + len2 {
            assert(clips[lo + len].group == clips[i].group);
        }
        if lo2 + len2 < lo + len {
            assert(clips[lo2 + len2].group == clips[i].group);
        }
    }
}

/// The block a clip belongs to, as its first clip and its length.
pub fn block_of(clips: &Vec<Clip>, i: usize) -> (r: (usize, usize))
    requires
        i < clips.len(),
    ensures
        is_block(clips@, i as int, r.0 as int, r.1 as int),
{
    let g: u64 = clips[i].group;
    if g == 0 {
        return (i, 1);
    }
    let mut lo: usize = i;
    while lo > 0 && clips[lo - 1].group == g
        invariant
            lo <= i < clips.len(),
            forall|k: int| lo <= k <= i ==> (#[trigger] clips@[k]).group == g,
        ensures
            lo > 0 ==> clips@[lo - 1].group != g,
        decreases lo,
    {
        lo -= 1;
    }
    let mut hi: usize = i;
    while hi + 1 < clips.len() && clips[hi + 1].group == g
        invariant
            i <= hi < clips.len(),
            forall|k: int| i <= k <= hi ==> (#[trigger] clips@[k]).group == g,
        ensures
            hi + 1 < clips.len() ==> clips@[hi + 1].group != g,
        decreases clips.len() - hi,
    {
        hi += 1;
    }
    (lo, hi - lo + 1)
}

/// A list with two items swapped.
pub open spec fn swapped<T>(s: Seq<T>, i: int, j: int) -> Seq<T> {
    s.update(i, s[j]).update(j, s[i])
}

/// Where an item is after two were swapped.
pub open spec fn swap_index(k: int, i: int, j: int) -> int {
    if k == i {
        j
    } else if k == j {
        i
    } else {
        k
    }
}

/// The last cut before a limit, looking from cut `k` down; the start when there is none.
pub open spec fn cut_before(clips: Seq<Clip>, limit: int, k: int) -> int
    decreases k,
{
    if k <= 0 {
        0
    } else if start(clips, k) < limit {
        start(clips, k)
    } else {
        cut_before(clips, limit, k - 1)
    }
}

/// The first cut after a limit, looking from cut `k` up; the end when there is none.
pub open spec fn cut_after(clips: Seq<Clip>, limit: int, k: int) -> int
    decreases clips.len() - k,
{
    if k >= clips.len() {
        total(clips)
    } else if start(clips, k) > limit {
        start(clips, k)
    } else {
        cut_after(clips, limit, k + 1)
    }
}

/// A millisecond: a cut this close to the playhead is the one it sits on.
pub const ON_CUT: Time = 3_000;

impl EditorView {
    /// After a lane item was dragged by `dt`.
    pub open spec fn lane_shifted(self, s: Sel, dt: int) -> EditorView {
        EditorView { reel: shifted(self.reel, s, dt), ..self.pushed("drag-lane"@) }
    }

    /// After the `len` clips from `lo` on moved to `dest`, with what rides on them.
    pub open spec fn block_moved(self, lo: int, len: int, dest: int) -> EditorView {
        let clips = moved(self.reel.clips, lo, len, dest);
        self.pushed("drag-clip"@).reclipped(
            clips,
            Seq::new(clips.len(), |k: int| Some(start(clips, mapped(k, lo, len, dest)) as Time)),
        )
    }

    /// After the selected clip changed places with the one `delta` away.
    pub open spec fn sel_moved(self, delta: int) -> EditorView {
        match self.selected {
            Some(Sel::Main(i)) => {
                let j = i + delta;
                if 0 <= j < self.reel.clips.len() {
                    let clips = swapped(self.reel.clips, i as int, j);
                    self.pushed(""@).reclipped(
                        clips,
                        Seq::new(clips.len(), |k: int| Some(start(clips, swap_index(k, i as int, j)) as Time)),
                    ).selects(Some(Sel::Main(j as usize)))
                } else {
                    self
                }
            },
            _ => self,
        }
    }

    /// After stepping `d` clips along the track.
    pub open spec fn stepped(self, d: int) -> EditorView {
        let n = self.reel.clips.len();
        if n == 0 {
            self
        } else {
            let cur = match self.selected {
                Some(Sel::Main(i)) => i as int,
                _ => -1,
            };
            let to = between(cur + d, 0, n - 1);
            self.selects(Some(Sel::Main(to as usize))).sought(start(self.reel.clips, to))
        }
    }

    /// After the playhead moved by `d`, held on the reel.
    pub open spec fn nudged(self, d: int) -> EditorView {
        self.sought(between(self.playhead + d, 0, total(self.reel.clips)))
    }

    /// After the selected lane item moved by whole frames.
    pub open spec fn item_nudged(self, frames: int) -> EditorView {
        match self.selected {
            None => self.says("Select a cutaway, title, bed or FX layer to nudge."@),
            Some(Sel::Main(_)) => self.says(
                "V1 clips are magnetic — nudge a cutaway, title, bed or FX layer instead."@,
            ),
            Some(s) => self.lane_shifted(s, frames * FRAME).sought(self.playhead as int),
        }
    }

    /// After a jump to the cut before or after the playhead.
    pub open spec fn jumped(self, back: bool) -> EditorView {
        let clips = self.reel.clips;
        if back {
            self.sought(cut_before(clips, self.playhead - ON_CUT, clips.len() as int))
        } else {
            self.sought(cut_after(clips, self.playhead + ON_CUT, 0))
        }
    }
}

/// Law: a jump back never goes forward, a jump forward never goes back unless the
/// playhead lies past the reel, and both land on the reel.
pub proof fn law_jumps(clips: Seq<Clip>, t: int)
    requires
        crate::model::sound(clips),
        t >= 0,
    ensures
        0 <= cut_before(clips, t - ON_CUT, clips.len() as int) <= t,
        t <= total(clips) ==> t <= cut_after(clips, t + ON_CUT, 0),
        cut_after(clips, t + ON_CUT, 0) <= total(clips),
{
    lemma_cut_before(clips, t - ON_CUT, clips.len() as int);
    lemma_cut_after(clips, t + ON_CUT, 0);
}

proof fn lemma_cut_before(clips: Seq<Clip>, limit: int, k: int)
    requires
        crate::model::sound(clips),
        0 <= k <= clips.len(),
    ensures
        0 <= cut_before(clips, limit, k),
        cut_before(clips, limit, k) == 0 || cut_before(clips, limit, k) < limit,
        cut_before(clips, limit, k) <= start(clips, k),
    decreases k,
{
    crate::track::lemma_start_bound(clips, k);
    if k > 0 && start(clips, k) >= limit {
        lemma_cut_before(clips, limit, k - 1);
        law_extents(clips, k - 1);
    }
}

proof fn lemma_cut_after(clips: Seq<Clip>, limit: int, k: int)
    requires
        crate::model::sound(clips),
        0 <= k <= clips.len(),
    ensures
        0 <= cut_after(clips, limit, k) <= total(clips),
        cut_after(clips, limit, k) == total(clips) || cut_after(clips, limit, k) > limit,
    decreases clips.len() - k,
{
    crate::track::lemma_start_bound(clips, k);
    crate::track::law_starts_in_order(clips, k, clips.len() as int);
    if k < clips.len() {
        lemma_cut_after(clips, limit, k + 1);
    }
}

/// Lift the `len` clips from `lo` on out and put them back at `dest`.
fn move_clips(clips: &mut Vec<Clip>, lo: usize, len: usize, dest: usize)
    requires
        lo + len <= old(clips).len(),
        dest + len <= old(clips).len(),
    ensures
        final(clips)@ == moved(old(clips)@, lo as int, len as int, dest as int),
{
    let ghost s = clips@;
    let all: usize = clips.len();
    let ghost rest = s.subrange(0, lo as int) + s.subrange(lo + len, s.len() as int);
    let mut block: Vec<Clip> = Vec::new();
    while block.len() < len
        invariant
            lo + len <= s.len(),
            block.len() <= len,
            block@ == s.subrange(lo as int, lo + block.len()),
            clips@ == s.subrange(0, lo as int) + s.subrange(lo + block.len(), s.len() as int),
        decreases len - block.len(),
    {
        let c: Clip = clips.remove(lo);
        block.push(c);
        assert(block@ =~= s.subrange(lo as int, lo + block.len()));
        assert(clips@ =~= s.subrange(0, lo as int) + s.subrange(lo + block.len(), s.len() as int));
    }
    assert(clips@ =~= rest);
    assert(clips@ =~= rest.subrange(0, dest as int) + block@.subrange(0, 0) + rest.subrange(
        dest as int,
        rest.len() as int,
    ));
    let mut n: usize = 0;
    while n < len
        invariant
            n <= len,
            block.len() == len,
            dest + len <= all,
            all == s.len(),
            rest.len() == s.len() - len,
            clips@ == rest.subrange(0, dest as int) + block@.subrange(0, n as int) + rest.subrange(
                dest as int,
                rest.len() as int,
            ),
        decreases len - n,
    {
        clips.insert(dest + n, block[n].clone());
        n += 1;
        assert(clips@ =~= rest.subrange(0, dest as int) + block@.subrange(0, n as int) + rest.subrange(
            dest as int,
            rest.len() as int,
        ));
    }
    assert(block@.subrange(0, n as int) =~= block@);
}

impl Editor {
    /// Drag a lane item by `dt`, with its group.
    pub fn shift_lane(&mut self, target: Sel, dt: Time)
        requires
            old(self)@.wf(),
            -AXIS_END <= dt <= AXIS_END,
        ensures
            final(self)@ == old(self)@.lane_shifted(target, dt as int),
            final(self)@.wf(),
    {
        self.push_undo("drag-lane");
        self.reel.shift(target, dt);
    }

    /// Move the `len` clips from `lo` on so that they land at `dest`, an index
    /// into the track without them.
    pub fn move_block(&mut self, lo: usize, len: usize, dest: usize)
        requires
            old(self)@.wf(),
            lo + len <= old(self).reel.clips.len(),
            dest + len <= old(self).reel.clips.len(),
        ensures
            final(self)@ == old(self)@.block_moved(lo as int, len as int, dest as int),
            final(self)@.wf(),
    {
        let ghost was = self@;
        let n: usize = self.reel.clips.len();
        self.push_undo("drag-clip");
        let old_spans: Vec<(Time, Time)> = spans(&self.reel.clips);
        move_clips(&mut self.reel.clips, lo, len, dest);
        let ghost clips = moved(was.reel.clips, lo as int, len as int, dest as int);
        proof {
            law_block_move(was.reel.clips, lo as int, len as int, dest as int);
            lemma_moved_sound(was.reel.clips, lo as int, len as int, dest as int);
        }
        let mut starts: Vec<Option<Time>> = Vec::new();
        let mut k: usize = 0;
        while k < n
            invariant
                k <= n,
                n == self.reel.clips.len(),
                self.reel.clips@ == clips,
                crate::model::sound(clips),
                lo + len <= n,
                dest + len <= n,
                clips.len() == n,
                starts.len() == k,
                forall|j: int|
                    0 <= j < n ==> 0 <= #[trigger] mapped(j, lo as int, len as int, dest as int) < n,
                forall|j: int|
                    0 <= j < k ==> #[trigger] starts@[j] == Some(
                        start(clips, mapped(j, lo as int, len as int, dest as int)) as Time,
                    ),
                forall|j: int| 0 <= j < k ==> (#[trigger] starts@[j] matches Some(t) ==> on_axis(t)),
            decreases n - k,
        {
            assert(0 <= mapped(k as int, lo as int, len as int, dest as int) < n);
            let to: usize = block_map(k, lo, len, dest);
            starts.push(Some(start_of(&self.reel.clips, to)));
            k += 1;
        }
        proof {
            lemma_rideable(was.reel.clips, starts@);
        }
        self.settle(&old_spans, &starts);
        assert(starts@ =~= Seq::new(
            clips.len(),
            |k: int| Some(start(clips, mapped(k, lo as int, len as int, dest as int)) as Time),
        ));
    }

    /// Swap the selected clip with the one `delta` away, where there is one.
    pub fn move_sel(&mut self, delta: i64)
        requires
            old(self)@.wf(),
        ensures
            final(self)@ == old(self)@.sel_moved(delta as int),
            final(self)@.wf(),
    {
        let ghost was = self@;
        let i: usize = match self.selected {
            Some(Sel::Main(i)) => i,
            _ => {
                return;
            },
        };
        let n: usize = self.reel.clips.len();
        let j: i128 = i as i128 + delta as i128;
        if j < 0 || j >= n as i128 {
            return;
        }
        let j: usize = j as usize;
        self.push_undo("");
        let old_spans: Vec<(Time, Time)> = spans(&self.reel.clips);
        let a: Clip = self.reel.clips[i].clone();
        let b: Clip = self.reel.clips[j].clone();
        proof {
            crate::model::lemma_sound_at(was.reel.clips, i as int);
            crate::model::lemma_sound_at(was.reel.clips, j as int);
        }
        self.reel.clips[i] = b;
        self.reel.clips[j] = a;
        let ghost clips = swapped(was.reel.clips, i as int, j as int);
        proof {
            crate::model::lemma_sound(was.reel.clips, i as int, was.reel.clips[j as int]);
            crate::model::lemma_sound(was.reel.clips, j as int, was.reel.clips[i as int]);
            crate::model::lemma_sound(
                was.reel.clips.update(i as int, was.reel.clips[j as int]),
                j as int,
                was.reel.clips[i as int],
            );
        }
        assert(self.reel.clips@ =~= clips);
        self.selected = Some(Sel::Main(j));
        let mut starts: Vec<Option<Time>> = Vec::new();
        let mut k: usize = 0;
        while k < n
            invariant
                k <= n,
                n == self.reel.clips.len(),
                i < n,
                j < n,
                self.reel.clips@ == clips,
                crate::model::sound(clips),
                starts.len() == k,
                forall|h: int|
                    0 <= h < k ==> #[trigger] starts@[h] == Some(
                        start(clips, swap_index(h, i as int, j as int)) as Time,
                    ),
                forall|h: int| 0 <= h < k ==> (#[trigger] starts@[h] matches Some(t) ==> on_axis(t)),
            decreases n - k,
        {
            let to: usize = if k == i {
                j
            } else if k == j {
                i
            } else {
                k
            };
            starts.push(Some(start_of(&self.reel.clips, to)));
            k += 1;
        }
        proof {
            lemma_rideable(was.reel.clips, starts@);
        }
        self.settle(&old_spans, &starts);
        assert(starts@ =~= Seq::new(
            clips.len(),
            |k: int| Some(start(clips, swap_index(k, i as int, j as int)) as Time),
        ));
    }

    /// Step the selection `d` clips along the track.
    pub fn step_sel(&mut self, d: i64)
        requires
            old(self)@.wf(),
        ensures
            final(self)@ == old(self)@.stepped(d as int),
            final(self)@.wf(),
    {
        let n: usize = self.reel.clips.len();
        if n == 0 {
            return;
        }
        let cur: i128 = match self.selected {
            Some(Sel::Main(i)) => i as i128,
            _ => -1,
        };
        let to: i128 = hold_between(cur + d as i128, 0, n as i128 - 1);
        self.select_clip(to as usize);
    }

    /// Move the playhead by `d`, held on the reel.
    pub fn nudge(&mut self, d: Time)
        requires
            old(self)@.wf(),
            -AXIS_END <= d <= AXIS_END,
        ensures
            final(self)@ == old(self)@.nudged(d as int),
            final(self)@.wf(),
    {
        let end: Time = total_of(&self.reel.clips);
        let t: Time = hold_between(self.playhead + d, 0, end);
        self.seek_to(t);
    }

    /// Move the selected lane item by whole frames.
    pub fn nudge_item(&mut self, frames: i64)
        requires
            old(self)@.wf(),
        ensures
            final(self)@ == old(self)@.item_nudged(frames as int),
            final(self)@.wf(),
    {
        match self.selected {
            None => {
                self.status = "Select a cutaway, title, bed or FX layer to nudge.".to_owned();
            },
            Some(Sel::Main(_)) => {
                self.status = "V1 clips are magnetic — nudge a cutaway, title, bed or FX layer instead.".to_owned();
            },
            Some(s) => {
                let t: Time = self.playhead;
                self.shift_lane(s, frames as Time * FRAME);
                self.seek_to(t);
            },
        }
    }

    /// Jump to the cut before the playhead for a negative direction, else to the
    /// one after it.
    pub fn jump_edit(&mut self, dir: i64)
        requires
            old(self)@.wf(),
        ensures
            final(self)@ == old(self)@.jumped(dir < 0),
            final(self)@.wf(),
    {
        let n: usize = self.reel.clips.len();
        let now: Time = self.playhead;
        if dir < 0 {
            let mut k: usize = n;
            let mut to: Time = 0;
            while k > 0
                invariant_except_break
                    to == 0,
                invariant
                    k <= n,
                    n == self.reel.clips.len(),
                    self@.wf(),
                    now == self.playhead,
                    cut_before(self@.reel.clips, now - ON_CUT, n as int) == cut_before(
                        self@.reel.clips,
                        now - ON_CUT,
                        k as int,
                    ),
                ensures
                    to == cut_before(self@.reel.clips, now - ON_CUT, n as int),
                    on_axis(to),
                decreases k,
            {
                let b: Time = start_of(&self.reel.clips, k);
                if b < now - ON_CUT {
                    to = b;
                    break;
                }
                k -= 1;
            }
            self.seek_to(to);
        } else {
            let mut to: Time = total_of(&self.reel.clips);
            let mut k: usize = 0;
            while k < n
                invariant_except_break
                    to == total(self@.reel.clips),
                invariant
                    k <= n,
                    n == self.reel.clips.len(),
                    self@.wf(),
                    now == self.playhead,
                    on_axis(to),
                    cut_after(self@.reel.clips, now + ON_CUT, 0) == cut_after(
                        self@.reel.clips,
                        now + ON_CUT,
                        k as int,
                    ),
                ensures
                    to == cut_after(self@.reel.clips, now + ON_CUT, 0),
                    on_axis(to),
                decreases n - k,
            {
                let b: Time = start_of(&self.reel.clips, k);
                if b > now + ON_CUT {
                    to = b;
                    break;
                }
                k += 1;
            }
            self.seek_to(to);
        }
    }
}

proof fn lemma_moved_sound(s: Seq<Clip>, lo: int, len: int, dest: int)
    requires
        crate::model::sound(s),
        0 <= lo,
        0 <= len,
        lo + len <= s.len(),
        0 <= dest <= s.len() - len,
    ensures
        crate::model::sound(moved(s, lo, len, dest)),
{
    reveal(crate::model::sound);
}

proof fn lemma_overlay_members(s: Seq<OverlayItem>, gid: u64, n: int, lo: int, hi: int)
    requires
        0 <= n <= s.len(),
        forall|i: int| 0 <= i < n && s[i].group == gid ==> lo <= (#[trigger] s[i]).at <= hi,
    ensures
        forall|k: int| 0 <= k < overlay_starts(s, gid, n).len() ==> lo <= (#[trigger] overlay_starts(s, gid, n)[k]) <= hi,
    decreases n,
{
    if n > 0 {
        lemma_overlay_members(s, gid, n - 1, lo, hi);
        let x = s[n - 1];
        let q = overlay_starts(s, gid, n);
        let p = overlay_starts(s, gid, n - 1);
        assert(x.group == gid ==> lo <= x.at <= hi);
        assert forall|k: int| 0 <= k < q.len() implies lo <= (#[trigger] q[k]) <= hi by {
            if k < p.len() {
                assert(q[k] == p[k]);
            }
        }
    }
}

proof fn lemma_audio_members(s: Seq<AudioItem>, gid: u64, n: int, lo: int, hi: int)
    requires
        0 <= n <= s.len(),
        forall|i: int| 0 <= i < n && s[i].group == gid ==> lo <= (#[trigger] s[i]).at <= hi,
    ensures
        forall|k: int| 0 <= k < audio_starts(s, gid, n).len() ==> lo <= (#[trigger] audio_starts(s, gid, n)[k]) <= hi,
    decreases n,
{
    if n > 0 {
        lemma_audio_members(s, gid, n - 1, lo, hi);
        let x = s[n - 1];
        let q = audio_starts(s, gid, n);
        let p = audio_starts(s, gid, n - 1);
        assert(x.group == gid ==> lo <= x.at <= hi);
        assert forall|k: int| 0 <= k < q.len() implies lo <= (#[trigger] q[k]) <= hi by {
            if k < p.len() {
                assert(q[k] == p[k]);
            }
        }
    }
}

proof fn lemma_title_members(s: Seq<TitleView>, gid: u64, n: int, lo: int, hi: int)
    requires
        0 <= n <= s.len(),
        forall|i: int| 0 <= i < n && s[i].group == gid ==> lo <= (#[trigger] s[i]).at <= hi,
    ensures
        forall|k: int| 0 <= k < title_starts(s, gid, n).len() ==> lo <= (#[trigger] title_starts(s, gid, n)[k]) <= hi,
    decreases n,
{
    if n > 0 {
        lemma_title_members(s, gid, n - 1, lo, hi);
        let x = s[n - 1];
        let q = title_starts(s, gid, n);
        let p = title_starts(s, gid, n - 1);
        assert(x.group == gid ==> lo <= x.at <= hi);
        assert forall|k: int| 0 <= k < q.len() implies lo <= (#[trigger] q[k]) <= hi by {
            if k < p.len() {
                assert(q[k] == p[k]);
            }
        }
    }
}

proof fn lemma_adjustment_members(s: Seq<AdjustmentItem>, gid: u64, n: int, lo: int, hi: int)
    requires
        0 <= n <= s.len(),
        forall|i: int| 0 <= i < n && s[i].group == gid ==> lo <= (#[trigger] s[i]).at <= hi,
    ensures
        forall|k: int| 0 <= k < adjustment_starts(s, gid, n).len() ==> lo <= (#[trigger] adjustment_starts(s, gid, n)[k]) <= hi,
    decreases n,
{
    if n > 0 {
        lemma_adjustment_members(s, gid, n - 1, lo, hi);
        let x = s[n - 1];
        let q = adjustment_starts(s, gid, n);
        let p = adjustment_starts(s, gid, n - 1);
        assert(x.group == gid ==> lo <= x.at <= hi);
        assert forall|k: int| 0 <= k < q.len() implies lo <= (#[trigger] q[k]) <= hi by {
            if k < p.len() {
                assert(q[k] == p[k]);
            }
        }
    }
}

proof fn lemma_within(s: Seq<Time>, lo: int, hi: int)
    requires
        forall|k: int| 0 <= k < s.len() ==> lo <= (#[trigger] s[k]) <= hi,
        lo <= AXIS_END,
        0 <= hi,
    ensures
        lo <= earliest(s),
        latest(s) <= hi,
    decreases s.len(),
{
    if s.len() > 0 {
        lemma_within(s.drop_last(), lo, hi);
        assert(s.last() == s[s.len() - 1]);
    }
}

/// Every member of a group stays on the axis when it moves by `dt`.
pub open spec fn group_has_room(r: Reel, gid: u64, dt: int) -> bool {
    &&& forall|i: int|
        0 <= i < r.overlays.len() && r.overlays[i].group == gid ==> 0 <= (#[trigger] r.overlays[i]).at + dt <= AXIS_END
    &&& forall|i: int|
        0 <= i < r.audios.len() && r.audios[i].group == gid ==> 0 <= (#[trigger] r.audios[i]).at + dt <= AXIS_END
    &&& forall|i: int|
        0 <= i < r.titles.len() && r.titles[i].group == gid ==> 0 <= (#[trigger] r.titles[i]).at + dt <= AXIS_END
    &&& forall|i: int|
        0 <= i < r.adjustments.len() && r.adjustments[i].group == gid ==> 0 <= (#[trigger] r.adjustments[i]).at + dt
            <= AXIS_END
}

/// Law: a group that has room moves by exactly what it was dragged, each of its items
/// and nothing else; nothing but where the items start changes.
pub proof fn law_group_moves_as_far_as_dragged(r: Reel, s: Sel, dt: int)
    requires
        r.wf(),
        group_at(r, s) != 0,
        group_has_room(r, group_at(r, s), dt),
        -AXIS_END <= dt <= AXIS_END,
    ensures
        ({
            let g = group_at(r, s);
            let q = shifted(r, s, dt);
            &&& q == (Reel {
                overlays: q.overlays,
                audios: q.audios,
                titles: q.titles,
                adjustments: q.adjustments,
                ..r
            })
            &&& q.overlays.len() == r.overlays.len()
            &&& q.audios.len() == r.audios.len()
            &&& q.titles.len() == r.titles.len()
            &&& q.adjustments.len() == r.adjustments.len()
            &&& forall|i: int|
                0 <= i < r.overlays.len() ==> {
                    &&& (#[trigger] q.overlays[i]) == (OverlayItem { at: q.overlays[i].at, ..r.overlays[i] })
                    &&& q.overlays[i].at - r.overlays[i].at == (if r.overlays[i].group == g { dt } else { 0 })
                }
            &&& forall|i: int|
                0 <= i < r.audios.len() ==> {
                    &&& (#[trigger] q.audios[i]) == (AudioItem { at: q.audios[i].at, ..r.audios[i] })
                    &&& q.audios[i].at - r.audios[i].at == (if r.audios[i].group == g { dt } else { 0 })
                }
            &&& forall|i: int|
                0 <= i < r.titles.len() ==> {
                    &&& (#[trigger] q.titles[i]) == (TitleView { at: q.titles[i].at, ..r.titles[i] })
                    &&& q.titles[i].at - r.titles[i].at == (if r.titles[i].group == g { dt } else { 0 })
                }
            &&& forall|i: int|
                0 <= i < r.adjustments.len() ==> {
                    &&& (#[trigger] q.adjustments[i]) == (AdjustmentItem { at: q.adjustments[i].at, ..r.adjustments[i] })
                    &&& q.adjustments[i].at - r.adjustments[i].at == (if r.adjustments[i].group == g { dt } else { 0 })
                }
        }),
{
    let g = group_at(r, s);
    let lo = -dt;
    let hi = AXIS_END - dt;
    lemma_overlay_members(r.overlays, g, r.overlays.len() as int, lo, hi);
    lemma_audio_members(r.audios, g, r.audios.len() as int, lo, hi);
    lemma_title_members(r.titles, g, r.titles.len() as int, lo, hi);
    lemma_adjustment_members(r.adjustments, g, r.adjustments.len() as int, lo, hi);
    let m = member_starts(r, g);
    let a = overlay_starts(r.overlays, g, r.overlays.len() as int);
    let b = audio_starts(r.audios, g, r.audios.len() as int);
    let c = title_starts(r.titles, g, r.titles.len() as int);
    let d = adjustment_starts(r.adjustments, g, r.adjustments.len() as int);
    assert forall|k: int| 0 <= k < m.len() implies lo <= (#[trigger] m[k]) <= hi by {
        if k < a.len() {
            assert(m[k] == a[k]);
        } else if k < a.len() + b.len() {
            assert(m[k] == b[k - a.len()]);
        } else if k < a.len() + b.len() + c.len() {
            assert(m[k] == c[k - a.len() - b.len()]);
        } else {
            assert(m[k] == d[k - a.len() - b.len() - c.len()]);
        }
    }
    lemma_within(m, lo, hi);
    assert(group_step(dt, m) == dt);
}

/// Law: an item of no group moves by itself, by what it was dragged, and stops at the
/// start of the reel; no other item and no other lane changes.
pub proof fn law_an_item_moves_by_itself(r: Reel, s: Sel, dt: int)
    requires
        r.wf(),
        r.has(s),
        group_at(r, s) == 0,
    ensures
        ({
            let q = shifted(r, s, dt);
            &&& s is Main ==> q == r
            &&& !(s is Main) ==> {
                let was = place_of(r, s)->0;
                let is = place_of(q, s)->0;
                &&& 0 <= was + dt <= AXIS_END ==> is - was == dt
                &&& was + dt < 0 ==> is == 0
            }
            &&& s matches Sel::Over(i) ==> same_but(r.overlays, q.overlays, i as int) && q == (Reel {
                overlays: q.overlays,
                ..r
            }) && q.overlays[i as int] == (OverlayItem { at: q.overlays[i as int].at, ..r.overlays[i as int] })
            &&& s matches Sel::Aud(i) ==> same_but(r.audios, q.audios, i as int) && q == (Reel { audios: q.audios, ..r })
                && q.audios[i as int] == (AudioItem { at: q.audios[i as int].at, ..r.audios[i as int] })
            &&& s matches Sel::Title(i) ==> same_but(r.titles, q.titles, i as int) && q == (Reel { titles: q.titles, ..r })
                && q.titles[i as int] == (TitleView { at: q.titles[i as int].at, ..r.titles[i as int] })
            &&& s matches Sel::Adjust(i) ==> same_but(r.adjustments, q.adjustments, i as int) && q == (Reel {
                adjustments: q.adjustments,
                ..r
            }) && q.adjustments[i as int] == (AdjustmentItem {
                at: q.adjustments[i as int].at,
                ..r.adjustments[i as int]
            })
        }),
{
}

/// Law: moving an item by some time and back leaves the reel as it was, where it met
/// no end.
pub proof fn law_a_shift_goes_back(r: Reel, s: Sel, dt: int)
    requires
        r.wf(),
        r.has(s),
        !(s is Main),
        group_at(r, s) == 0,
        0 <= place_of(r, s)->0 + dt <= AXIS_END,
    ensures
        shifted(shifted(r, s, dt), s, -dt) == r,
{
    reveal(crate::model::overlays_ok);
    reveal(crate::model::audios_ok);
    reveal(crate::model::titles_ok);
    reveal(crate::model::adjustments_ok);
    let q = shifted(shifted(r, s, dt), s, -dt);
    assert(q.overlays =~= r.overlays);
    assert(q.audios =~= r.audios);
    assert(q.titles =~= r.titles);
    assert(q.adjustments =~= r.adjustments);
}

/// Law: a block that moves lands at its new place in one piece, and the clips it
/// passes keep their order.
pub proof fn law_block_lands(s: Seq<Clip>, lo: int, len: int, dest: int)
    requires
        0 <= lo,
        0 <= len,
        lo + len <= s.len(),
        0 <= dest <= s.len() - len,
    ensures
        forall|d: int| 0 <= d < len ==> (#[trigger] moved(s, lo, len, dest)[dest + d]) == s[lo + d],
        forall|k: int| 0 <= k < lo && k < dest ==> (#[trigger] moved(s, lo, len, dest)[k]) == s[k],
        forall|k: int| dest <= k < lo ==> moved(s, lo, len, dest)[k + len] == (#[trigger] s[k]),
        forall|k: int| lo + len <= k < dest + len ==> moved(s, lo, len, dest)[k - len] == (#[trigger] s[k]),
        forall|k: int|
            lo + len <= k < s.len() && dest + len <= k ==> (#[trigger] moved(s, lo, len, dest)[k]) == s[k],
{
}

/// Law: a move by one place swaps the selected clip with the one at the place it goes
/// to and keeps it selected; off either end nothing moves.
pub proof fn law_move_swaps(e: EditorView, i: usize, delta: int)
    requires
        e.selected == Some(Sel::Main(i)),
        i < e.reel.clips.len(),
    ensures
        ({
            let f = e.sel_moved(delta);
            let a = e.reel.clips;
            let j = i + delta;
            &&& j < 0 || j >= a.len() ==> f == e
            &&& 0 <= j < a.len() ==> {
                &&& one_edit(e, f)
                &&& f.reel.clips.len() == a.len()
                &&& f.reel.clips[j] == a[i as int]
                &&& f.reel.clips[i as int] == a[j]
                &&& forall|k: int| 0 <= k < a.len() && k != i && k != j ==> (#[trigger] f.reel.clips[k]) == a[k]
                &&& f.selected == Some(Sel::Main(j as usize))
                &&& crate::trims::other_lanes_stay(e, f)
            }
        }),
{
    reveal(EditorView::pushed);
    reveal_strlit("");
    let j = i + delta;
    let clips = swapped(e.reel.clips, i as int, j);
    crate::magnet::lemma_carried(
        Reel { clips, ..e.reel },
        crate::track::spans_of(e.reel.clips),
        Seq::new(clips.len(), |k: int| Some(start(clips, swap_index(k, i as int, j)) as Time)),
    );
}

/// Law: with the magnet on, a swap takes along what stands on each clip.
pub proof fn law_move_carries_riders(e: EditorView, i: usize, delta: int, k: int)
    requires
        e.magnet,
        e.reel.wf(),
        crate::trims::reel_track(e.reel.clips),
        e.selected == Some(Sel::Main(i)),
        i < e.reel.clips.len(),
        0 <= i + delta < e.reel.clips.len(),
        0 <= k < e.reel.clips.len(),
    ensures
        k == i ==> rides_along(e, e.sel_moved(delta), k, i + delta),
        k == i + delta ==> rides_along(e, e.sel_moved(delta), k, i as int),
        k != i && k != i + delta ==> rides_along(e, e.sel_moved(delta), k, k),
{
    reveal(EditorView::pushed);
    let j = i + delta;
    let clips = swapped(e.reel.clips, i as int, j);
    assert(crate::model::sound(clips)) by {
        reveal(crate::model::sound);
    }
    let starts = Seq::new(clips.len(), |m: int| Some(start(clips, swap_index(m, i as int, j)) as Time));
    let to = if k == i {
        j
    } else if k == j {
        i as int
    } else {
        k
    };
    crate::trims::law_riders(e.pushed(""@), clips, starts, k, to);
    crate::magnet::lemma_carried(Reel { clips, ..e.reel }, crate::track::spans_of(e.reel.clips), starts);
}

/// Law: with the magnet on, a block that is dragged takes along what stands on its
/// clips, and the clips it passes take along what stands on them.
pub proof fn law_block_carries_riders(e: EditorView, lo: int, len: int, dest: int, k: int)
    requires
        e.magnet,
        e.reel.wf(),
        crate::trims::reel_track(e.reel.clips),
        0 <= lo,
        0 <= len,
        lo + len <= e.reel.clips.len(),
        0 <= dest <= e.reel.clips.len() - len,
        0 <= k < e.reel.clips.len(),
    ensures
        lo <= k < lo + len ==> rides_along(e, e.block_moved(lo, len, dest), k, dest + (k - lo)),
        k < lo && k < dest ==> rides_along(e, e.block_moved(lo, len, dest), k, k),
        dest <= k < lo ==> rides_along(e, e.block_moved(lo, len, dest), k, k + len),
        lo + len <= k < dest + len ==> rides_along(e, e.block_moved(lo, len, dest), k, k - len),
        lo + len <= k && dest + len <= k ==> rides_along(e, e.block_moved(lo, len, dest), k, k),
{
    reveal(EditorView::pushed);
    let clips = moved(e.reel.clips, lo, len, dest);
    lemma_moved_sound(e.reel.clips, lo, len, dest);
    law_block_move(e.reel.clips, lo, len, dest);
    let starts = Seq::new(clips.len(), |m: int| Some(start(clips, mapped(m, lo, len, dest)) as Time));
    crate::trims::law_riders(e.pushed("drag-clip"@), clips, starts, k, mapped(k, lo, len, dest));
    crate::magnet::lemma_carried(Reel { clips, ..e.reel }, crate::track::spans_of(e.reel.clips), starts);
}

/// Law: stepping through the clips selects the one that many places on, held to the
/// first and the last, and goes to where it starts; the reel does not change.
pub proof fn law_step(e: EditorView, d: int)
    requires
        crate::trims::reel_track(e.reel.clips),
        e.reel.clips.len() > 0,
        !crate::editor::picture_phase(e.phase),
        e.selected matches Some(Sel::Main(i)) ==> i < e.reel.clips.len(),
    ensures
        ({
            let f = e.stepped(d);
            let n = e.reel.clips.len() as int;
            &&& f.reel == e.reel && f.undo == e.undo && f.redo == e.redo
            &&& e.selected matches Some(Sel::Main(i)) ==> {
                &&& 0 <= i + d < n ==> f.selected == Some(Sel::Main((i + d) as usize)) && f.playhead == start(
                    e.reel.clips,
                    i + d,
                )
                &&& i + d >= n ==> f.selected == Some(Sel::Main((n - 1) as usize))
                &&& i + d < 0 ==> f.selected == Some(Sel::Main(0)) && f.playhead == 0
            }
            &&& e.selected is None && d <= 1 ==> f.selected == Some(Sel::Main(0)) && f.playhead == 0
        }),
{
    if let Some(Sel::Main(i)) = e.selected {
        if 0 <= i + d < e.reel.clips.len() {
            crate::track::lemma_start_axis(e.reel.clips, i + d);
        }
    }
}

/// Law: a nudge moves the playhead by what it was asked, held to the reel, and changes
/// nothing on the reel.
pub proof fn law_nudge(e: EditorView, d: int)
    requires
        crate::trims::reel_track(e.reel.clips),
        on_axis(e.playhead),
    ensures
        ({
            let f = e.nudged(d);
            let end = total(e.reel.clips);
            &&& f.reel == e.reel && f.undo == e.undo && f.redo == e.redo
            &&& 0 <= e.playhead + d <= end ==> f.playhead - e.playhead == d
            &&& e.playhead + d > end ==> f.playhead == end
            &&& e.playhead + d < 0 ==> f.playhead == 0
        }),
{
    crate::track::lemma_start_axis(e.reel.clips, e.reel.clips.len() as int);
}

/// Law: nudging an item of no group moves it by whole frames, thirty to the second; a
/// clip of the main track is not nudged.
pub proof fn law_item_nudge(e: EditorView, frames: int)
    requires
        e.reel.wf(),
        e.selected matches Some(s) ==> e.reel.has(s) && group_at(e.reel, s) == 0,
    ensures
        ({
            let f = e.item_nudged(frames);
            &&& e.selected is None || e.selected->0 is Main ==> f.reel == e.reel && f.undo == e.undo
            &&& e.selected matches Some(s) ==> !(s is Main) ==> {
                let was = place_of(e.reel, s)->0;
                let is = place_of(f.reel, s)->0;
                &&& 0 <= was + frames * FRAME <= AXIS_END ==> is - was == frames * FRAME
                &&& was + frames * FRAME < 0 ==> is == 0
                &&& f.playhead == e.playhead
                &&& e.undo_tag != "drag-lane"@ ==> one_edit(e, f)
            }
        }),
        30 * FRAME == crate::time::SECOND,
{
    reveal(EditorView::pushed);
}

/// Law: a jump back goes to the last cut that is a millisecond or more before the
/// playhead, or to the start of the reel.
pub proof fn law_jump_back(e: EditorView)
    requires
        crate::trims::reel_track(e.reel.clips),
        on_axis(e.playhead),
    ensures
        ({
            let f = e.jumped(true);
            let limit = e.playhead - crate::time::SECOND / 1000;
            &&& f.reel == e.reel && f.undo == e.undo
            &&& f.playhead == 0 || (exists|k: int|
                0 <= k <= e.reel.clips.len() && f.playhead == #[trigger] start(e.reel.clips, k)) && f.playhead < limit
            &&& forall|k: int|
                0 <= k <= e.reel.clips.len() && (#[trigger] start(e.reel.clips, k)) < limit ==> start(e.reel.clips, k)
                    <= f.playhead
        }),
{
    let n = e.reel.clips.len() as int;
    lemma_jump_back(e.reel.clips, e.playhead - ON_CUT, n);
    crate::track::lemma_start_axis(e.reel.clips, n);
}

proof fn lemma_jump_back(clips: Seq<Clip>, limit: int, n: int)
    requires
        crate::model::sound(clips),
        0 <= n <= clips.len(),
    ensures
        ({
            let r = cut_before(clips, limit, n);
            &&& 0 <= r <= start(clips, n)
            &&& r == 0 || (exists|k: int| 0 <= k <= clips.len() && r == #[trigger] start(clips, k)) && r < limit
            &&& forall|k: int| 0 <= k <= n && (#[trigger] start(clips, k)) < limit ==> start(clips, k) <= r
        }),
    decreases n,
{
    crate::track::lemma_start_bound(clips, n);
    if n > 0 {
        law_extents(clips, n - 1);
        if start(clips, n) < limit {
            assert forall|k: int| 0 <= k <= n && (#[trigger] start(clips, k)) < limit implies start(clips, k) <= start(
                clips,
                n,
            ) by {
                crate::track::law_starts_in_order(clips, k, n);
            }
        } else {
            lemma_jump_back(clips, limit, n - 1);
        }
    }
}

/// Law: a jump forward goes to the first cut that is a millisecond or more behind the
/// playhead, or to the end of the reel.
pub proof fn law_jump_forward(e: EditorView)
    requires
        crate::trims::reel_track(e.reel.clips),
        on_axis(e.playhead),
    ensures
        ({
            let f = e.jumped(false);
            let limit = e.playhead + crate::time::SECOND / 1000;
            &&& f.reel == e.reel && f.undo == e.undo
            &&& f.playhead == total(e.reel.clips) || (exists|k: int|
                0 <= k < e.reel.clips.len() && f.playhead == #[trigger] start(e.reel.clips, k)) && f.playhead > limit
            &&& forall|k: int|
                0 <= k < e.reel.clips.len() && (#[trigger] start(e.reel.clips, k)) > limit ==> f.playhead <= start(
                    e.reel.clips,
                    k,
                )
        }),
{
    lemma_jump_forward(e.reel.clips, e.playhead + ON_CUT, 0);
    crate::track::lemma_start_axis(e.reel.clips, e.reel.clips.len() as int);
}

proof fn lemma_jump_forward(clips: Seq<Clip>, limit: int, n: int)
    requires
        crate::model::sound(clips),
        0 <= n <= clips.len(),
    ensures
        ({
            let r = cut_after(clips, limit, n);
            &&& 0 <= r <= total(clips)
            &&& r == total(clips) || (exists|k: int| 0 <= k < clips.len() && r == #[trigger] start(clips, k)) && r > limit
            &&& forall|k: int| n <= k < clips.len() && (#[trigger] start(clips, k)) > limit ==> r <= start(clips, k)
        }),
    decreases clips.len() - n,
{
    crate::track::lemma_start_bound(clips, n);
    crate::track::lemma_start_bound(clips, clips.len() as int);
    if n < clips.len() {
        if start(clips, n) > limit {
            crate::track::law_starts_in_order(clips, n, clips.len() as int);
            assert forall|k: int| n <= k < clips.len() && (#[trigger] start(clips, k)) > limit implies start(clips, n)
                <= start(clips, k) by {
                crate::track::law_starts_in_order(clips, n, k);
            }
        } else {
            lemma_jump_forward(clips, limit, n + 1);
        }
    }
}

} // verus!
