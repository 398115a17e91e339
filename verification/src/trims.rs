//! Trimming, deleting, joining and dissolving on the main track, with what rides
//! on it.

use crate::cuts::{poster_of, Poster};
use crate::edges::apart;
use crate::editor::{lemma_rideable, one_edit, same_but, taken_out, Editor, EditorView};
use crate::model::{sound, Clip, Reel, Sel};
use crate::text::{cat3, cat5};
use crate::time::{
    between, clock_text, fmt_clip_dur, fmt_t, greater, hold_between, hundredths, hundredths_text, length_text,
    lesser, lower, nearest, on_axis, signed, signed_text, upper, Time, FRAME, MIN_PIECE, SAME,
};
use crate::track::{
    clip_at, locate, located, shown, spans, spans_of, start, start_of, total, total_of,
};
use vstd::prelude::*;

verus! {

/// Where the clips of the old track start on the new one, given the place each
/// went to; none for one that is gone.
pub open spec fn starts_by(clips: Seq<Clip>, to: Seq<Option<usize>>) -> Seq<Option<Time>> {
    Seq::new(
        to.len(),
        |k: int|
            match to[k] {
                Some(m) => Some(start(clips, m as int) as Time),
                None => None,
            },
    )
}

/// Every clip stays at its place.
pub open spec fn in_place(n: nat) -> Seq<Option<usize>> {
    Seq::new(n, |k: int| Some(k as usize))
}

/// Clip `i` is gone, and the gap closes.
pub open spec fn closed_up(n: nat, i: int) -> Seq<Option<usize>> {
    Seq::new(
        n,
        |k: int|
            if k == i {
                None
            } else if k > i {
                Some((k - 1) as usize)
            } else {
                Some(k as usize)
            },
    )
}

/// Clip `right` went into the one before it, and the gap closes.
pub open spec fn joined_up(n: nat, right: int) -> Seq<Option<usize>> {
    Seq::new(n, |k: int| if k >= right { Some((k - 1) as usize) } else { Some(k as usize) })
}

/// The starts on a new track, given the place each old clip went to.
pub fn new_starts(clips: &Vec<Clip>, to: &Vec<Option<usize>>) -> (r: Vec<Option<Time>>)
    requires
        sound(clips@),
        forall|k: int| 0 <= k < to.len() ==> (#[trigger] to@[k] matches Some(m) ==> m <= clips.len()),
    ensures
        r@ == starts_by(clips@, to@),
        forall|k: int| 0 <= k < r.len() ==> (#[trigger] r@[k] matches Some(t) ==> on_axis(t)),
{
    let mut r: Vec<Option<Time>> = Vec::new();
    let mut k: usize = 0;
    while k < to.len()
        invariant
            k <= to.len(),
            sound(clips@),
            forall|k: int| 0 <= k < to.len() ==> (#[trigger] to@[k] matches Some(m) ==> m <= clips.len()),
            r.len() == k,
            forall|j: int| 0 <= j < k ==> #[trigger] r@[j] == starts_by(clips@, to@)[j],
            forall|j: int| 0 <= j < k ==> (#[trigger] r@[j] matches Some(t) ==> on_axis(t)),
        decreases to.len() - k,
    {
        match to[k] {
            Some(m) => {
                assert(to@[k as int] == Some(m));
                r.push(Some(start_of(clips, m)));
            },
            None => {
                r.push(None);
            },
        }
        k += 1;
    }
    assert(r@ =~= starts_by(clips@, to@));
    r
}

fn stay_in_place(n: usize) -> (r: Vec<Option<usize>>)
    ensures
        r@ == in_place(n as nat),
{
    let mut r: Vec<Option<usize>> = Vec::new();
    let mut k: usize = 0;
    while k < n
        invariant
            k <= n,
            r@ == in_place(k as nat),
        decreases n - k,
    {
        r.push(Some(k));
        k += 1;
        assert(r@ =~= in_place(k as nat));
    }
    r
}

fn close_up(n: usize, i: usize) -> (r: Vec<Option<usize>>)
    ensures
        r@ == closed_up(n as nat, i as int),
{
    let mut r: Vec<Option<usize>> = Vec::new();
    let mut k: usize = 0;
    while k < n
        invariant
            k <= n,
            r@ == closed_up(k as nat, i as int),
        decreases n - k,
    {
        r.push(
            if k == i {
                None
            } else if k > i {
                Some(k - 1)
            } else {
                Some(k)
            },
        );
        k += 1;
        assert(r@ =~= closed_up(k as nat, i as int));
    }
    r
}

fn join_up(n: usize, right: usize) -> (r: Vec<Option<usize>>)
    requires
        right > 0,
    ensures
        r@ == joined_up(n as nat, right as int),
{
    let mut r: Vec<Option<usize>> = Vec::new();
    let mut k: usize = 0;
    while k < n
        invariant
            right > 0,
            k <= n,
            r@ == joined_up(k as nat, right as int),
        decreases n - k,
    {
        r.push(if k >= right { Some(k - 1) } else { Some(k) });
        k += 1;
        assert(r@ =~= joined_up(k as nat, right as int));
    }
    r
}

/// A clip after one of its edges on the reel was set to source position `src`. A
/// reversed clip's head is its source tail, so there the other point moves.
pub open spec fn edge_set(c: Clip, out: bool, src: int) -> Clip {
    if out == c.reverse {
        Clip { in_s: upper(lower(src, c.out_s - MIN_PIECE), 0) as Time, ..c }
    } else {
        Clip { out_s: lower(upper(src, c.in_s + MIN_PIECE), c.duration as int) as Time, ..c }
    }
}

/// A clip after one of its source points moved by whole frames.
pub open spec fn frame_trimmed(c: Clip, edge_out: bool, frames: int) -> Clip {
    if edge_out {
        Clip {
            out_s: between(c.out_s + frames * FRAME, c.in_s + MIN_PIECE, c.duration as int) as Time,
            ..c
        }
    } else {
        Clip { in_s: between(c.in_s + frames * FRAME, 0, c.out_s - MIN_PIECE) as Time, ..c }
    }
}

/// Whether a clip leaves room for a frame trim: the source is long enough for the
/// shortest piece on the side that moves.
pub open spec fn trimmable(c: Clip, edge_out: bool) -> bool {
    if edge_out { c.in_s + MIN_PIECE <= c.duration } else { c.out_s >= MIN_PIECE }
}

/// Where the playhead goes after an out-edge was set: a twentieth of a second
/// before it, and not before the clip.
pub const EDGE_BACK: Time = 150_000;

/// Whether two neighbours are halves of one shot: the same source played the same
/// way, the second going on where the first stops.
pub open spec fn can_join(left: Clip, right: Clip) -> bool {
    &&& left.path@ == right.path@
    &&& left.reverse == right.reverse
    &&& left.speed == right.speed
    &&& apart(left.out_s as int, right.in_s as int) <= SAME
}

/// Two halves put together again.
pub open spec fn joined_clip(left: Clip, right: Clip) -> Clip {
    if left.reverse {
        Clip {
            in_s: lower(left.in_s as int, right.in_s as int) as Time,
            out_s: upper(left.out_s as int, right.out_s as int) as Time,
            ..left
        }
    } else {
        Clip { out_s: right.out_s, ..left }
    }
}

/// The left of the two clips that joining at clip `i` puts together: the pair that
/// ends with it, or else the one that starts with it.
pub open spec fn join_left(clips: Seq<Clip>, i: int) -> Option<int> {
    if i > 0 && can_join(clips[i - 1], clips[i]) {
        Some(i - 1)
    } else if i + 1 < clips.len() && can_join(clips[i], clips[i + 1]) {
        Some(i)
    } else {
        None
    }
}

pub open spec fn clips_joined(clips: Seq<Clip>, left: int) -> Seq<Clip> {
    clips.update(left, joined_clip(clips[left], clips[left + 1])).remove(left + 1)
}

/// The clip a one-click dissolve goes into: the selected one, or else the one that
/// shows; never the first.
pub open spec fn dissolve_into(e: EditorView) -> Option<int> {
    match e.selected {
        Some(Sel::Main(i)) if i > 0 => Some(i as int),
        _ => {
            let k = shown(e.reel.clips, e.playhead as int);
            if e.reel.clips.len() > 0 && k > 0 { Some(k) } else { None }
        },
    }
}

/// A clip with a dissolve of that name in front of it, half a second long where
/// the one stored is too short to see.
pub open spec fn dissolving(c: Clip, name: String) -> Clip {
    Clip {
        transition: Some(name),
        trans_dur: if c.trans_dur < MIN_PIECE { 1_500_000 } else { c.trans_dur },
        ..c
    }
}

impl EditorView {
    /// After clip `i` became `c`, with what rides on the track.
    pub open spec fn with_clip(self, i: int, c: Clip) -> EditorView {
        let clips = self.reel.clips.update(i, c);
        self.reclipped(clips, starts_by(clips, in_place(clips.len())))
    }

    /// After an edge of clip `i` was set to source position `src`.
    pub open spec fn edge_at(self, i: int, src: int, out: bool) -> EditorView {
        let c = self.reel.clips[i];
        let e = self.with_clip(i, edge_set(c, out, src));
        let head = start(e.reel.clips, i);
        let tail = start(e.reel.clips, i + 1);
        if out {
            e.says(
                "Out point set — "@ + c.name@ + " now ends at "@ + clock_text(tail) + "."@,
            ).sought(upper(tail - EDGE_BACK, head))
        } else {
            e.says(
                "In point set — "@ + c.name@ + " now starts at "@ + clock_text(head) + "."@,
            ).sought(head)
        }
    }

    /// After the clip under the playhead was trimmed to it.
    pub open spec fn edge_set_here(self, out: bool) -> EditorView {
        match located(self.reel.clips, self.playhead as int) {
            None => self.says("Add a clip first — I/O trim the clip under the playhead."@),
            Some((i, src)) => self.pushed(""@).edge_at(i, src, out),
        }
    }

    /// After the selected clip was trimmed by whole frames.
    pub open spec fn ripple_trimmed(self, edge_out: bool, frames: int) -> EditorView {
        match self.selected {
            Some(Sel::Main(i)) => {
                let c = frame_trimmed(self.reel.clips[i as int], edge_out, frames);
                let e = self.pushed("ripple-trim"@).with_clip(i as int, c);
                let head = start(e.reel.clips, i as int);
                let tail = start(e.reel.clips, i + 1);
                e.sought(if edge_out { upper(tail - FRAME, head) } else { head }).says(
                    trim_text(edge_out, frames, c),
                )
            },
            _ => self.says("Select a clip first to ripple-trim."@),
        }
    }

    /// After the selected item was deleted. A clip's gap closes, and the selection
    /// goes to the clip that took its place.
    pub open spec fn sel_deleted(self) -> EditorView {
        let e = EditorView { marked: Seq::empty(), ..self.pushed(""@) };
        let r = self.reel;
        match self.selected {
            None => e,
            Some(Sel::Main(i)) => {
                let clips = r.clips.remove(i as int);
                let f = e.reclipped(clips, starts_by(clips, closed_up(r.clips.len(), i as int)));
                if clips.len() == 0 {
                    EditorView { stale: true, ..f.selects(None) }
                } else {
                    let to = lower(i as int, clips.len() - 1);
                    f.selects(Some(Sel::Main(to as usize))).sought(start(clips, to))
                }
            },
            Some(Sel::Over(j)) => EditorView {
                reel: Reel { overlays: r.overlays.remove(j as int), ..r },
                ..e
            }.selects(None),
            Some(Sel::Aud(j)) => EditorView {
                reel: Reel { audios: r.audios.remove(j as int), ..r },
                ..e
            }.selects(None),
            Some(Sel::Title(j)) => EditorView {
                reel: Reel { titles: r.titles.remove(j as int), ..r },
                ..e
            }.selects(None),
            Some(Sel::Adjust(j)) => EditorView {
                reel: Reel { adjustments: r.adjustments.remove(j as int), ..r },
                ..e
            }.selects(None).sought(self.playhead as int),
        }
    }

    /// After the selected clip was joined with a neighbour.
    pub open spec fn joined_sel(self) -> EditorView {
        match self.selected {
            Some(Sel::Main(i)) => match join_left(self.reel.clips, i as int) {
                Some(left) => {
                    let clips = clips_joined(self.reel.clips, left);
                    self.pushed(""@).reclipped(
                        clips,
                        starts_by(clips, joined_up(self.reel.clips.len(), left + 1)),
                    ).selects(Some(Sel::Main(left as usize))).says(
                        "Joined halves of "@ + self.reel.clips[left].name@ + "."@,
                    )
                },
                None => self.says(
                    "Nothing to join — need an adjacent clip of the same source that still abuts in time."@,
                ),
            },
            _ => self.says("Select a V1 clip to join with its neighbour."@),
        }
    }

    /// After a dissolve of that name went in front of a clip.
    pub open spec fn dissolved(self, name: String) -> EditorView {
        match dissolve_into(self) {
            None => self.says("Select a V1 clip after the first to add a cross dissolve."@),
            Some(i) => self.pushed(""@).dissolved_at(i, name),
        }
    }

    /// After a dissolve of that name went in front of clip `i`.
    pub open spec fn dissolved_at(self, i: int, name: String) -> EditorView {
        let c = dissolving(self.reel.clips[i], name);
        let e = self.with_clip(i, c).selects(Some(Sel::Main(i as usize)));
        e.sought(lower(self.playhead as int, total(e.reel.clips))).says(
            "Cross dissolve into "@ + c.name@ + " ("@ + length_text(c.trans_dur as int) + ")."@,
        )
    }
}

/// What a frame trim reports.
pub open spec fn trim_text(edge_out: bool, frames: int, c: Clip) -> Seq<char> {
    "Trim "@ + (if edge_out { "out"@ } else { "in"@ }) + " "@ + signed_text(frames) + ("f  →  "@
        + hundredths_text(nearest(c.in_s as int, 30_000)) + ".."@ + hundredths_text(
        nearest(c.out_s as int, 30_000),
    ) + "s"@)
}

/// Law: joining the two halves of a split brings the clip back.
pub proof fn law_join_undoes_split(clips: Seq<Clip>, i: int, local: Time)
    requires
        0 <= i < clips.len(),
        clips[i].in_s <= local <= clips[i].out_s,
    ensures
        can_join(crate::cuts::split(clips, i, local)[i], crate::cuts::split(clips, i, local)[i + 1]),
        clips_joined(crate::cuts::split(clips, i, local), i) == clips,
{
    assert(clips_joined(crate::cuts::split(clips, i, local), i) =~= clips);
}

/// Law: a trim to the playhead and a frame trim keep a tenth of a second at least
/// where there was that much, and stay in the source.
pub proof fn law_trims_stay_in_source(c: Clip, out: bool, src: int, frames: int)
    requires
        c.wf(),
        c.in_s + MIN_PIECE <= c.out_s <= c.duration,
    ensures
        edge_set(c, out, src).wf(),
        edge_set(c, out, src).in_s + MIN_PIECE <= edge_set(c, out, src).out_s <= c.duration,
        frame_trimmed(c, out, frames).wf(),
        frame_trimmed(c, out, frames).in_s + MIN_PIECE <= frame_trimmed(c, out, frames).out_s <= c.duration,
{
}

/// Law: deleting a clip closes the gap: the reel has one clip less and the others
/// keep their order.
pub proof fn law_delete_closes_the_gap(e: EditorView, i: usize)
    requires
        e.selected == Some(Sel::Main(i)),
        i < e.reel.clips.len(),
    ensures
        e.sel_deleted().reel.clips == e.reel.clips.remove(i as int),
{
    reveal(crate::magnet::carried);
}

proof fn lemma_joined_sound(clips: Seq<Clip>, left: int)
    requires
        sound(clips),
        0 <= left < clips.len() - 1,
    ensures
        sound(clips_joined(clips, left)),
{
    reveal(sound);
    crate::model::lemma_sound_at(clips, left);
    crate::model::lemma_sound_at(clips, left + 1);
}

impl Clip {
    fn with_edge(self, out: bool, src: Time) -> (r: Clip)
        requires
            self.wf(),
            crate::time::in_source(src),
        ensures
            r == edge_set(self, out, src as int),
            r.wf(),
    {
        let mut c: Clip = self;
        if out == c.reverse {
            c.in_s = greater(lesser(src, c.out_s - MIN_PIECE), 0);
        } else {
            c.out_s = lesser(greater(src, c.in_s + MIN_PIECE), c.duration);
        }
        c
    }

    fn trimmed_by(self, edge_out: bool, frames: i64) -> (r: Clip)
        requires
            self.wf(),
            trimmable(self, edge_out),
        ensures
            r == frame_trimmed(self, edge_out, frames as int),
            r.wf(),
    {
        let mut c: Clip = self;
        let dt: Time = frames as Time * FRAME;
        if edge_out {
            c.out_s = hold_between(c.out_s + dt, c.in_s + MIN_PIECE, c.duration);
        } else {
            c.in_s = hold_between(c.in_s + dt, 0, c.out_s - MIN_PIECE);
        }
        c
    }

    fn joined_with(&self, right: &Clip) -> (r: Clip)
        ensures
            r == joined_clip(*self, *right),
    {
        let mut c: Clip = self.clone();
        if c.reverse {
            c.in_s = lesser(c.in_s, right.in_s);
            c.out_s = greater(c.out_s, right.out_s);
        } else {
            c.out_s = right.out_s;
        }
        c
    }

    fn with_dissolve(self, name: String) -> (r: Clip)
        requires
            self.wf(),
        ensures
            r == dissolving(self, name),
            r.wf(),
    {
        let mut c: Clip = self;
        c.transition = Some(name);
        if c.trans_dur < MIN_PIECE {
            c.trans_dur = 1_500_000;
        }
        c
    }
}

fn trim_report(edge_out: bool, frames: i64, c: &Clip) -> (r: String)
    requires
        c.wf(),
    ensures
        r@ == trim_text(edge_out, frames as int, *c),
{
    let a: String = hundredths(((c.in_s + 15_000) / 30_000) as u128);
    let b: String = hundredths(((c.out_s + 15_000) / 30_000) as u128);
    let tail: String = cat5("f  →  ", a.as_str(), "..", b.as_str(), "s");
    let edge: &str = if edge_out { "out" } else { "in" };
    cat5("Trim ", edge, " ", signed(frames).as_str(), tail.as_str())
}

pub fn can_join_clips(left: &Clip, right: &Clip) -> (r: bool)
    requires
        left.wf(),
        right.wf(),
    ensures
        r == can_join(*left, *right),
{
    let d: Time = if left.out_s >= right.in_s { left.out_s - right.in_s } else { right.in_s - left.out_s };
    left.path == right.path && left.reverse == right.reverse && left.speed == right.speed && d <= SAME
}

impl Editor {
    /// Let the items of the other lanes ride to the places the old clips went to.
    pub(crate) fn settle_by(&mut self, old_spans: &Vec<(Time, Time)>, to: &Vec<Option<usize>>, Ghost(was): Ghost<Seq<Clip>>)
        requires
            old(self)@.wf(),
            sound(was),
            was.len() <= usize::MAX,
            old_spans@ == spans_of(was),
            to.len() == was.len(),
            forall|k: int|
                0 <= k < to.len() ==> (#[trigger] to@[k] matches Some(m) ==> m <= old(self).reel.clips.len()),
        ensures
            final(self)@ == ({
                let e = old(self)@;
                EditorView {
                    reel: if e.magnet {
                        crate::magnet::carried(e.reel, spans_of(was), starts_by(e.reel.clips, to@))
                    } else {
                        e.reel
                    },
                    ..e
                }
            }),
            final(self)@.wf(),
            final(self)@.reel.clips == old(self)@.reel.clips,
    {
        let starts: Vec<Option<Time>> = new_starts(&self.reel.clips, to);
        proof {
            lemma_rideable(was, starts@);
        }
        self.settle(old_spans, &starts);
    }

    /// Put `c` in the place of clip `i`.
    pub(crate) fn put_clip(&mut self, i: usize, c: Clip)
        requires
            old(self)@.wf(),
            i < old(self).reel.clips.len(),
            c.wf(),
        ensures
            final(self)@ == old(self)@.with_clip(i as int, c),
            final(self)@.wf(),
            final(self)@.reel.clips == old(self)@.reel.clips.update(i as int, c),
    {
        let ghost was = self@;
        let n: usize = self.reel.clips.len();
        let old_spans: Vec<(Time, Time)> = spans(&self.reel.clips);
        self.reel.clips[i] = c;
        proof {
            crate::model::lemma_sound(was.reel.clips, i as int, c);
        }
        assert(self.reel.clips@ =~= was.reel.clips.update(i as int, c));
        let to: Vec<Option<usize>> = stay_in_place(n);
        self.settle_by(&old_spans, &to, Ghost(was.reel.clips));
    }

    fn set_edge(&mut self, i: usize, src: Time, out: bool) -> (r: Option<Poster>)
        requires
            old(self)@.wf(),
            i < old(self).reel.clips.len(),
            crate::time::in_source(src),
        ensures
            final(self)@ == old(self)@.edge_at(i as int, src as int, out),
            final(self)@.wf(),
            r is Some <==> old(self)@.reel.clips[i as int].reverse == out,
            r matches Some(p) ==> p.index == i && poster_of(final(self)@.reel.clips, i as int, p),
    {
        let ghost was = self@;
        let mut c: Clip = self.reel.clips[i].clone();
        proof {
            crate::model::lemma_sound_at(was.reel.clips, i as int);
        }
        let swap: bool = out == c.reverse;
        c = c.with_edge(out, src);
        let poster: Option<Poster> = if swap { Some(c.poster(i)) } else { None };
        let name: String = c.name.clone();
        self.put_clip(i, c);
        let head: Time = start_of(&self.reel.clips, i);
        let tail: Time = start_of(&self.reel.clips, i + 1);
        if out {
            self.status = cat5("Out point set — ", name.as_str(), " now ends at ", fmt_t(tail).as_str(), ".");
            self.seek_to(greater(tail - EDGE_BACK, head));
        } else {
            self.status = cat5("In point set — ", name.as_str(), " now starts at ", fmt_t(head).as_str(), ".");
            self.seek_to(head);
        }
        poster
    }

    /// Trim the clip under the playhead to the playhead: its in-point, or with
    /// `out` its out-point. Where the source head moved, the clip needs a new
    /// poster, which is returned.
    pub fn set_edge_here(&mut self, out: bool) -> (r: Option<Poster>)
        requires
            old(self)@.wf(),
        ensures
            final(self)@ == old(self)@.edge_set_here(out),
            final(self)@.wf(),
            ({
                let l = located(old(self)@.reel.clips, old(self)@.playhead as int);
                &&& r is Some <==> (l matches Some(p) && old(self)@.reel.clips[p.0].reverse == out)
                &&& r matches Some(p) ==> (l matches Some(q) && p.index == q.0 && poster_of(
                    final(self)@.reel.clips,
                    q.0,
                    p,
                ))
            }),
    {
        let ghost was = self@;
        let (i, src) = match locate(&self.reel.clips, self.playhead) {
            Some(p) => p,
            None => {
                self.status = "Add a clip first — I/O trim the clip under the playhead.".to_owned();
                return None;
            },
        };
        self.push_undo("");
        self.set_edge(i, src, out)
    }

    /// Trim an edge of the selected clip by whole frames; the rest of the track
    /// follows. The playhead parks on the edge.
    pub fn ripple_trim(&mut self, edge_out: bool, frames: i64)
        requires
            old(self)@.wf(),
            old(self)@.selected matches Some(Sel::Main(i)) ==> trimmable(
                old(self)@.reel.clips[i as int],
                edge_out,
            ),
        ensures
            final(self)@ == old(self)@.ripple_trimmed(edge_out, frames as int),
            final(self)@.wf(),
    {
        let ghost was = self@;
        let i: usize = match self.selected {
            Some(Sel::Main(i)) => i,
            _ => {
                self.status = "Select a clip first to ripple-trim.".to_owned();
                return;
            },
        };
        self.push_undo("ripple-trim");
        let mut c: Clip = self.reel.clips[i].clone();
        proof {
            crate::model::lemma_sound_at(was.reel.clips, i as int);
        }
        c = c.trimmed_by(edge_out, frames);
        let text: String = trim_report(edge_out, frames, &c);
        self.put_clip(i, c);
        let head: Time = start_of(&self.reel.clips, i);
        let t: Time = if edge_out {
            let tail: Time = start_of(&self.reel.clips, i + 1);
            greater(tail - FRAME, head)
        } else {
            head
        };
        self.seek_to(t);
        self.status = text;
    }

    fn delete_clip(&mut self, i: usize)
        requires
            old(self)@.wf(),
            i < old(self).reel.clips.len(),
            old(self)@.selected == Some(Sel::Main(i)),
        ensures
            final(self)@.wf(),
            ({
                let e = old(self)@;
                let clips = e.reel.clips.remove(i as int);
                let f = e.reclipped(clips, starts_by(clips, closed_up(e.reel.clips.len(), i as int)));
                final(self)@ == if clips.len() == 0 {
                    EditorView { stale: true, ..f.selects(None) }
                } else {
                    let to = lower(i as int, clips.len() - 1);
                    f.selects(Some(Sel::Main(to as usize))).sought(start(clips, to))
                }
            }),
    {
        let ghost was = self@;
        let n: usize = self.reel.clips.len();
        let old_spans: Vec<(Time, Time)> = spans(&self.reel.clips);
        self.reel.clips.remove(i);
        proof {
            crate::model::lemma_sound(was.reel.clips, i as int, was.reel.clips[i as int]);
        }
        assert(self.reel.clips@ =~= was.reel.clips.remove(i as int));
        self.selected = None;
        let to: Vec<Option<usize>> = close_up(n, i);
        self.settle_by(&old_spans, &to, Ghost(was.reel.clips));
        if n == 1 {
            self.stale = true;
        } else {
            let k: usize = if i < n - 2 { i } else { n - 2 };
            self.select_clip(k);
        }
    }

    /// Delete the selected item.
    pub fn delete_sel(&mut self)
        requires
            old(self)@.wf(),
        ensures
            final(self)@ == old(self)@.sel_deleted(),
            final(self)@.wf(),
    {
        let ghost was = self@;
        self.push_undo("");
        self.marked.clear();
        match self.selected {
            None => {},
            Some(Sel::Main(i)) => {
                self.delete_clip(i);
            },
            Some(Sel::Over(j)) => {
                proof {
                    crate::model::lemma_overlays_ok(was.reel.overlays, j as int, was.reel.overlays[j as int]);
                }
                self.reel.overlays.remove(j);
                self.selected = None;
            },
            Some(Sel::Aud(j)) => {
                proof {
                    crate::model::lemma_audios_ok(was.reel.audios, j as int, was.reel.audios[j as int]);
                }
                self.reel.audios.remove(j);
                self.selected = None;
            },
            Some(Sel::Title(j)) => {
                proof {
                    crate::model::lemma_titles_ok(was.reel.titles, j as int, was.reel.titles[j as int]);
                }
                self.reel.titles.remove(j);
                assert(self@.reel.titles =~= was.reel.titles.remove(j as int));
                self.selected = None;
            },
            Some(Sel::Adjust(j)) => {
                proof {
                    crate::model::lemma_adjustments_ok(was.reel.adjustments, j as int, was.reel.adjustments[j as int]);
                }
                self.reel.adjustments.remove(j);
                self.selected = None;
                let t: Time = self.playhead;
                self.seek_to(t);
            },
        }
    }

    fn join_pair(&mut self, left: usize)
        requires
            old(self)@.wf(),
            left < old(self).reel.clips.len() - 1,
        ensures
            final(self)@.wf(),
            ({
                let e = old(self)@;
                let clips = clips_joined(e.reel.clips, left as int);
                final(self)@ == e.reclipped(
                    clips,
                    starts_by(clips, joined_up(e.reel.clips.len(), left + 1)),
                ).selects(Some(Sel::Main(left))).says(
                    "Joined halves of "@ + e.reel.clips[left as int].name@ + "."@,
                )
            }),
    {
        let ghost was = self@;
        let n: usize = self.reel.clips.len();
        let right: usize = left + 1;
        let old_spans: Vec<(Time, Time)> = spans(&self.reel.clips);
        let c: Clip = self.reel.clips[left].joined_with(&self.reel.clips[right]);
        let name: String = c.name.clone();
        self.reel.clips[left] = c;
        self.reel.clips.remove(right);
        proof {
            lemma_joined_sound(was.reel.clips, left as int);
            assert(self.reel.clips@ =~= clips_joined(was.reel.clips, left as int));
        }
        self.selected = Some(Sel::Main(left));
        let to: Vec<Option<usize>> = join_up(n, right);
        self.settle_by(&old_spans, &to, Ghost(was.reel.clips));
        self.status = cat3("Joined halves of ", name.as_str(), ".");
    }

    /// Join the selected clip with a neighbour it was once cut from.
    pub fn join_clips(&mut self)
        requires
            old(self)@.wf(),
        ensures
            final(self)@ == old(self)@.joined_sel(),
            final(self)@.wf(),
    {
        let ghost was = self@;
        let i: usize = match self.selected {
            Some(Sel::Main(i)) => i,
            _ => {
                self.status = "Select a V1 clip to join with its neighbour.".to_owned();
                return;
            },
        };
        let n: usize = self.reel.clips.len();
        proof {
            crate::model::lemma_sound_at(was.reel.clips, i as int);
        }
        if i > 0 {
            proof {
                crate::model::lemma_sound_at(was.reel.clips, i - 1);
            }
        }
        if i + 1 < n {
            proof {
                crate::model::lemma_sound_at(was.reel.clips, i + 1);
            }
        }
        let left: usize = if i > 0 && can_join_clips(&self.reel.clips[i - 1], &self.reel.clips[i]) {
            i - 1
        } else if i + 1 < n && can_join_clips(&self.reel.clips[i], &self.reel.clips[i + 1]) {
            i
        } else {
            self.status = "Nothing to join — need an adjacent clip of the same source that still abuts in time.".to_owned();
            return;
        };
        self.push_undo("");
        self.join_pair(left);
    }

    fn dissolve(&mut self, i: usize, name: String)
        requires
            old(self)@.wf(),
            i < old(self).reel.clips.len(),
        ensures
            final(self)@ == old(self)@.dissolved_at(i as int, name),
            final(self)@.wf(),
    {
        let ghost was = self@;
        let mut c: Clip = self.reel.clips[i].clone();
        proof {
            crate::model::lemma_sound_at(was.reel.clips, i as int);
        }
        c = c.with_dissolve(name);
        let text: String = cat5(
            "Cross dissolve into ",
            c.name.as_str(),
            " (",
            fmt_clip_dur(c.trans_dur).as_str(),
            ").",
        );
        self.put_clip(i, c);
        self.selected = Some(Sel::Main(i));
        let end: Time = total_of(&self.reel.clips);
        let t: Time = lesser(self.playhead, end);
        self.seek_to(t);
        self.status = text;
    }

    /// Put a cross dissolve in front of the selected clip, or of the one that shows.
    pub fn add_cross_dissolve(&mut self)
        requires
            old(self)@.wf(),
        ensures
            exists|name: String| #[trigger] name@ == "Cross dissolve"@ && final(self)@ == old(self)@.dissolved(name),
            final(self)@.wf(),
    {
        let ghost was = self@;
        let name: String = "Cross dissolve".to_owned();
        let ghost gname = name;
        let i: usize = match self.selected {
            Some(Sel::Main(i)) if i > 0 => i,
            _ => {
                if self.reel.clips.len() == 0 {
                    self.status = "Select a V1 clip after the first to add a cross dissolve.".to_owned();
                    assert(self@ == was.dissolved(gname));
                    return;
                }
                let (k, _) = clip_at(&self.reel.clips, self.playhead);
                if k == 0 {
                    self.status = "Select a V1 clip after the first to add a cross dissolve.".to_owned();
                    assert(self@ == was.dissolved(gname));
                    return;
                }
                k
            },
        };
        self.push_undo("");
        self.dissolve(i, name);
        assert(self@ == was.dissolved(gname));
    }
}

/// Law: a frame trim moves the edge it is asked to move, by that many frames and the
/// way they count, where the source has room and a tenth of a second is left; the
/// other edge and everything else about the clip stay.
pub proof fn law_frame_trim_moves_the_edge(c: Clip, frames: int)
    ensures
        ({
            let r = frame_trimmed(c, true, frames);
            &&& r == (Clip { out_s: r.out_s, ..c })
            &&& c.wf() && c.in_s + MIN_PIECE <= c.out_s + frames * FRAME <= c.duration ==> r.out_s - c.out_s == frames
                * FRAME
            &&& c.wf() && c.in_s + MIN_PIECE <= c.duration < c.out_s + frames * FRAME ==> r.out_s == c.duration
            &&& c.wf() && c.out_s + frames * FRAME < c.in_s + MIN_PIECE <= c.duration ==> r.out_s - c.in_s == MIN_PIECE
        }),
        ({
            let r = frame_trimmed(c, false, frames);
            &&& r == (Clip { in_s: r.in_s, ..c })
            &&& c.wf() && 0 <= c.in_s + frames * FRAME <= c.out_s - MIN_PIECE ==> r.in_s - c.in_s == frames * FRAME
            &&& c.wf() && c.in_s + frames * FRAME < 0 <= c.out_s - MIN_PIECE ==> r.in_s == 0
            &&& c.wf() && 0 <= c.out_s - MIN_PIECE < c.in_s + frames * FRAME ==> c.out_s - r.in_s == MIN_PIECE
        }),
        30 * FRAME == crate::time::SECOND,
        10 * MIN_PIECE == crate::time::SECOND,
{
}

/// Law: trimming by some frames and then by as many the other way gives the clip back,
/// where the first trim met no end.
pub proof fn law_frame_trim_goes_back(c: Clip, n: int)
    requires
        c.wf(),
        c.in_s + MIN_PIECE <= c.out_s <= c.duration,
    ensures
        c.in_s + MIN_PIECE <= c.out_s + n * FRAME <= c.duration ==> frame_trimmed(
            frame_trimmed(c, true, n),
            true,
            -n,
        ) == c,
        0 <= c.in_s + n * FRAME <= c.out_s - MIN_PIECE ==> frame_trimmed(frame_trimmed(c, false, n), false, -n) == c,
{
    assert((-n) * FRAME == -(n * FRAME)) by (nonlinear_arith);
}

/// Law: a ripple trim changes the selected clip and no other, by the frames it was
/// asked for; the items of the other lanes stay, and without the magnet they stay
/// where they are.
pub proof fn law_ripple_trim(e: EditorView, i: usize, edge_out: bool, frames: int)
    requires
        e.selected == Some(Sel::Main(i)),
        i < e.reel.clips.len(),
        e.undo_tag != "ripple-trim"@,
    ensures
        ({
            let f = e.ripple_trimmed(edge_out, frames);
            let c = e.reel.clips[i as int];
            let d = f.reel.clips[i as int];
            &&& one_edit(e, f)
            &&& same_but(e.reel.clips, f.reel.clips, i as int)
            &&& c.wf() && edge_out && c.in_s + MIN_PIECE <= c.out_s + frames * FRAME <= c.duration ==> d.in_s
                == c.in_s && d.out_s - c.out_s == frames * FRAME
            &&& c.wf() && !edge_out && 0 <= c.in_s + frames * FRAME <= c.out_s - MIN_PIECE ==> d.out_s == c.out_s
                && d.in_s - c.in_s == frames * FRAME
            &&& d == (Clip { in_s: d.in_s, out_s: d.out_s, ..c })
            &&& other_lanes_stay(e, f)
            &&& edge_out && start(f.reel.clips, i as int) + FRAME <= start(f.reel.clips, i + 1) && on_axis_int(
                start(f.reel.clips, i + 1),
            ) ==> f.playhead + FRAME == start(f.reel.clips, i + 1)
            &&& !edge_out && on_axis_int(start(f.reel.clips, i as int)) ==> f.playhead == start(
                f.reel.clips,
                i as int,
            )
        }),
{
    reveal(EditorView::pushed);
    reveal_strlit("");
    let n = e.reel.clips.len();
    let clips = e.reel.clips.update(i as int, frame_trimmed(e.reel.clips[i as int], edge_out, frames));
    crate::magnet::lemma_carried(
        Reel { clips, ..e.reel },
        spans_of(e.reel.clips),
        starts_by(clips, in_place(n)),
    );
}

pub open spec fn on_axis_int(t: int) -> bool {
    0 <= t <= crate::time::AXIS_END
}

/// The items of the lanes besides the main track are all there, in their order, and,
/// without the magnet, where they were. Layers, markers, the mixer and the lanes never
/// ride.
pub open spec fn other_lanes_stay(e: EditorView, f: EditorView) -> bool {
    let a = e.reel;
    let b = f.reel;
    &&& b == (Reel { clips: b.clips, overlays: b.overlays, audios: b.audios, titles: b.titles, ..a })
    &&& b.overlays.len() == a.overlays.len()
    &&& b.audios.len() == a.audios.len()
    &&& b.titles.len() == a.titles.len()
    &&& !e.magnet ==> b.overlays == a.overlays && b.audios == a.audios && b.titles == a.titles
}

/// Law: deleting the selected cutaway, bed, title or layer takes that one off its lane
/// and changes no other item and no other lane; it is one undo step, and nothing stays
/// selected or marked.
pub proof fn law_delete_takes_the_selected_item(e: EditorView)
    ensures
        ({
            let f = e.sel_deleted();
            let a = e.reel;
            let b = f.reel;
            &&& one_edit(e, f)
            &&& f.marked.len() == 0
            &&& e.selected is None ==> b == a
            &&& e.selected matches Some(Sel::Over(j)) ==> j < a.overlays.len() ==> taken_out(
                a.overlays,
                b.overlays,
                j as int,
            ) && b == (Reel { overlays: b.overlays, ..a }) && f.selected is None
            &&& e.selected matches Some(Sel::Aud(j)) ==> j < a.audios.len() ==> taken_out(
                a.audios,
                b.audios,
                j as int,
            ) && b == (Reel { audios: b.audios, ..a }) && f.selected is None
            &&& e.selected matches Some(Sel::Title(j)) ==> j < a.titles.len() ==> taken_out(
                a.titles,
                b.titles,
                j as int,
            ) && b == (Reel { titles: b.titles, ..a }) && f.selected is None
            &&& e.selected matches Some(Sel::Adjust(j)) ==> j < a.adjustments.len() ==> taken_out(
                a.adjustments,
                b.adjustments,
                j as int,
            ) && b == (Reel { adjustments: b.adjustments, ..a })
        }),
{
    reveal(EditorView::pushed);
    reveal_strlit("");
}

/// Law: deleting the selected clip takes it off the track and closes the gap; the clip
/// that took its place is selected, and no item of another lane is lost.
pub proof fn law_delete_takes_the_selected_clip(e: EditorView, i: usize)
    requires
        e.selected == Some(Sel::Main(i)),
        i < e.reel.clips.len(),
        !crate::editor::picture_phase(e.phase),
    ensures
        ({
            let f = e.sel_deleted();
            &&& one_edit(e, f)
            &&& taken_out(e.reel.clips, f.reel.clips, i as int)
            &&& other_lanes_stay(e, f)
            &&& e.reel.clips.len() == 1 ==> f.selected is None
            &&& i + 1 < e.reel.clips.len() ==> f.selected == Some(Sel::Main(i))
            &&& i > 0 && i + 1 == e.reel.clips.len() ==> f.selected == Some(Sel::Main((i - 1) as usize))
        }),
{
    reveal(EditorView::pushed);
    reveal_strlit("");
    let clips = e.reel.clips.remove(i as int);
    crate::magnet::lemma_carried(
        Reel { clips, ..e.reel },
        spans_of(e.reel.clips),
        starts_by(clips, closed_up(e.reel.clips.len(), i as int)),
    );
}

/// Law: setting an edge at the playhead makes the clip under it start or end with the
/// very source position that shows there, where a tenth of a second is left; a
/// reversed clip shows its source backwards, so there the other source point moves.
pub proof fn law_edge_at_playhead(e: EditorView, out: bool)
    requires
        e.reel.clips.len() > 0,
        sound(e.reel.clips),
        e.playhead >= 0,
    ensures
        ({
            let i = shown(e.reel.clips, e.playhead as int);
            let c = e.reel.clips[i];
            let src = (located(e.reel.clips, e.playhead as int)->0).1;
            let f = e.edge_set_here(out);
            let d = f.reel.clips[i];
            &&& one_edit(e, f)
            &&& same_but(e.reel.clips, f.reel.clips, i)
            &&& other_lanes_stay(e, f)
            &&& out != c.reverse ==> d == (Clip { out_s: d.out_s, ..c })
            &&& out == c.reverse ==> d == (Clip { in_s: d.in_s, ..c })
            &&& out != c.reverse && c.in_s + MIN_PIECE <= src <= c.duration ==> d.out_s == src
            &&& out == c.reverse && 0 <= src <= c.out_s - MIN_PIECE ==> d.in_s == src
            &&& !out && on_axis_int(start(f.reel.clips, i)) ==> f.playhead == start(f.reel.clips, i)
            &&& out && on_axis_int(start(f.reel.clips, i)) && on_axis_int(start(f.reel.clips, i + 1)) && 20 * (start(
                f.reel.clips,
                i + 1,
            ) - start(f.reel.clips, i)) >= crate::time::SECOND ==> 20 * (start(f.reel.clips, i + 1) - f.playhead)
                == crate::time::SECOND
        }),
{
    reveal(EditorView::pushed);
    reveal_strlit("");
    crate::track::law_shown(e.reel.clips, e.playhead as int);
    let (i, src) = located(e.reel.clips, e.playhead as int)->0;
    let clips = e.reel.clips.update(i, edge_set(e.reel.clips[i], out, src));
    crate::magnet::lemma_carried(
        Reel { clips, ..e.reel },
        spans_of(e.reel.clips),
        starts_by(clips, in_place(e.reel.clips.len())),
    );
}

/// Law: a join puts the selected clip and a neighbour of the same shot together: one
/// clip less, the joined one covering the source of both, the rest in order. Clips of
/// different sources, speeds or directions, or with source missing between them, are
/// never joined.
pub proof fn law_join(e: EditorView, i: usize)
    requires
        e.selected == Some(Sel::Main(i)),
        i < e.reel.clips.len(),
    ensures
        ({
            let f = e.joined_sel();
            let a = e.reel.clips;
            let b = f.reel.clips;
            let fits = |l: int|
                a[l].path@ == a[l + 1].path@ && a[l].reverse == a[l + 1].reverse && a[l].speed == a[l + 1].speed
                    && -3 <= a[l].out_s - a[l + 1].in_s <= 3;
            let before = i > 0 && fits(i - 1);
            let behind = i + 1 < a.len() && fits(i as int);
            &&& !before && !behind ==> f.reel == e.reel && f.undo == e.undo && f.selected == e.selected
            &&& before || behind ==> {
                let l = if before { i - 1 } else { i as int };
                &&& one_edit(e, f)
                &&& b.len() == a.len() - 1
                &&& forall|k: int| 0 <= k < l ==> #[trigger] b[k] == a[k]
                &&& forall|k: int| l < k < b.len() ==> #[trigger] b[k] == a[k + 1]
                &&& b[l] == (Clip { in_s: b[l].in_s, out_s: b[l].out_s, ..a[l] })
                &&& !a[l].reverse ==> b[l].in_s == a[l].in_s && b[l].out_s == a[l + 1].out_s
                &&& a[l].reverse ==> b[l].in_s <= a[l].in_s && b[l].in_s <= a[l + 1].in_s && b[l].out_s >= a[l].out_s
                    && b[l].out_s >= a[l + 1].out_s
                &&& f.selected == Some(Sel::Main(l as usize))
                &&& other_lanes_stay(e, f)
            }
        }),
{
    reveal(EditorView::pushed);
    reveal_strlit("");
    if let Some(left) = join_left(e.reel.clips, i as int) {
        let clips = clips_joined(e.reel.clips, left);
        crate::magnet::lemma_carried(
            Reel { clips, ..e.reel },
            spans_of(e.reel.clips),
            starts_by(clips, joined_up(e.reel.clips.len(), left + 1)),
        );
    }
}

/// Law: a dissolve goes in front of the selected clip, or else of the one that shows,
/// never of the first; it keeps a length that can be seen and is half a second where
/// there was none, and changes nothing else about any clip.
pub proof fn law_dissolve(e: EditorView, name: String)
    requires
        sound(e.reel.clips),
        e.playhead >= 0,
        e.selected matches Some(Sel::Main(i)) ==> i < e.reel.clips.len(),
    ensures
        ({
            let f = e.dissolved(name);
            let a = e.reel.clips;
            let i = match e.selected {
                Some(Sel::Main(i)) if i > 0 => i as int,
                _ => if a.len() > 0 { shown(a, e.playhead as int) } else { 0 },
            };
            let d = f.reel.clips[i];
            &&& i == 0 ==> f.reel == e.reel && f.undo == e.undo && f.redo == e.redo
            &&& i > 0 ==> {
                &&& one_edit(e, f)
                &&& same_but(a, f.reel.clips, i)
                &&& d == (Clip { transition: Some(name), trans_dur: d.trans_dur, ..a[i] })
                &&& 10 * a[i].trans_dur >= crate::time::SECOND ==> d.trans_dur == a[i].trans_dur
                &&& 10 * a[i].trans_dur < crate::time::SECOND ==> 2 * d.trans_dur == crate::time::SECOND
                &&& other_lanes_stay(e, f)
            }
        }),
{
    reveal(EditorView::pushed);
    reveal_strlit("");
    if e.reel.clips.len() > 0 {
        crate::track::law_shown(e.reel.clips, e.playhead as int);
    }
    if let Some(i) = dissolve_into(e) {
        let clips = e.reel.clips.update(i, dissolving(e.reel.clips[i], name));
        crate::magnet::lemma_carried(
            Reel { clips, ..e.reel },
            spans_of(e.reel.clips),
            starts_by(clips, in_place(e.reel.clips.len())),
        );
    }
}

/// A reel position lies on clip `k`'s part of the track.
pub open spec fn over_clip(clips: Seq<Clip>, at: Time, k: int) -> bool {
    0 <= k < clips.len() && start(clips, k) <= at < start(clips, k + 1)
}

/// What stood on clip `k` of `e` stands on clip `to` of `f`, as far from its start as
/// it was, and is otherwise as it was.
pub open spec fn rides_along(e: EditorView, f: EditorView, k: int, to: int) -> bool {
    let by = start(f.reel.clips, to) - start(e.reel.clips, k);
    &&& forall|m: int|
        0 <= m < e.reel.overlays.len() && over_clip(e.reel.clips, e.reel.overlays[m].at, k) ==> #[trigger] f.reel.overlays[m]
            == (crate::model::OverlayItem { at: (e.reel.overlays[m].at + by) as Time, ..e.reel.overlays[m] })
    &&& forall|m: int|
        0 <= m < e.reel.audios.len() && over_clip(e.reel.clips, e.reel.audios[m].at, k) ==> #[trigger] f.reel.audios[m]
            == (crate::model::AudioItem { at: (e.reel.audios[m].at + by) as Time, ..e.reel.audios[m] })
    &&& forall|m: int|
        0 <= m < e.reel.titles.len() && over_clip(e.reel.clips, e.reel.titles[m].at, k) ==> #[trigger] f.reel.titles[m]
            == (crate::model::TitleView { at: (e.reel.titles[m].at + by) as Time, ..e.reel.titles[m] })
}

/// What stood on clip `k` of `e`, or behind its end, is where it was.
pub open spec fn rides_not(e: EditorView, f: EditorView, k: int) -> bool {
    &&& forall|m: int|
        0 <= m < e.reel.overlays.len() && over_clip(e.reel.clips, e.reel.overlays[m].at, k) ==> #[trigger] f.reel.overlays[m]
            == e.reel.overlays[m]
    &&& forall|m: int|
        0 <= m < e.reel.audios.len() && over_clip(e.reel.clips, e.reel.audios[m].at, k) ==> #[trigger] f.reel.audios[m]
            == e.reel.audios[m]
    &&& forall|m: int|
        0 <= m < e.reel.titles.len() && over_clip(e.reel.clips, e.reel.titles[m].at, k) ==> #[trigger] f.reel.titles[m]
            == e.reel.titles[m]
}

/// A track that stands on the axis.
pub open spec fn reel_track(clips: Seq<Clip>) -> bool {
    sound(clips) && clips.len() <= usize::MAX
}

proof fn lemma_over(clips: Seq<Clip>, at: Time, k: int, j: int)
    requires
        reel_track(clips),
        over_clip(clips, at, k),
        0 <= j <= k,
    ensures
        crate::magnet::anchor_from(at, spans_of(clips), j) == Some(k),
    decreases k - j,
{
    crate::track::lemma_start_axis(clips, j);
    crate::track::lemma_start_axis(clips, j + 1);
    if j < k {
        crate::track::law_starts_in_order(clips, j + 1, k);
        lemma_over(clips, at, k, j + 1);
    }
}

/// Law: with the magnet on, an edit of the main track that puts clip `k` where clip
/// `to` of the new track is takes along what stood on it, and leaves what stood on a
/// clip that is gone.
pub proof fn law_riders(e: EditorView, clips: Seq<Clip>, starts: Seq<Option<Time>>, k: int, to: int)
    requires
        e.magnet,
        e.reel.wf(),
        reel_track(e.reel.clips),
        reel_track(clips),
        starts.len() == e.reel.clips.len(),
        0 <= k < starts.len(),
        0 <= to <= clips.len(),
    ensures
        starts[k] == Some(start(clips, to) as Time) ==> rides_along(e, e.reclipped(clips, starts), k, to),
        starts[k] is None ==> rides_not(e, e.reclipped(clips, starts), k),
{
    reveal(crate::magnet::carried);
    reveal(crate::model::overlays_ok);
    reveal(crate::model::audios_ok);
    reveal(crate::model::titles_ok);
    let old = e.reel.clips;
    let f = e.reclipped(clips, starts);
    crate::track::lemma_start_axis(clips, to);
    crate::track::lemma_start_axis(old, k);
    crate::track::law_extents(old, k);
    let n = e.reel.overlays.len();
    let na = e.reel.audios.len();
    let nt = e.reel.titles.len();
    assert(e.reel.clips == old && f.reel.clips == clips);
    assert forall|at: Time| #[trigger] over_clip(old, at, k) implies crate::magnet::anchor(at, spans_of(old)) == Some(k) by {
        lemma_over(old, at, k, 0);
    }
    if starts[k] == Some(start(clips, to) as Time) {
        let by = start(clips, to) - start(old, k);
        assert forall|m: int| 0 <= m < n && over_clip(old, e.reel.overlays[m].at, k) implies #[trigger] f.reel.overlays[m]
            == (crate::model::OverlayItem { at: (e.reel.overlays[m].at + by) as Time, ..e.reel.overlays[m] }) by {}
        assert forall|m: int| 0 <= m < na && over_clip(old, e.reel.audios[m].at, k) implies #[trigger] f.reel.audios[m]
            == (crate::model::AudioItem { at: (e.reel.audios[m].at + by) as Time, ..e.reel.audios[m] }) by {}
        assert forall|m: int| 0 <= m < nt && over_clip(old, e.reel.titles[m].at, k) implies #[trigger] f.reel.titles[m]
            == (crate::model::TitleView { at: (e.reel.titles[m].at + by) as Time, ..e.reel.titles[m] }) by {}
    }
    if starts[k] is None {
        assert forall|m: int| 0 <= m < n && over_clip(old, e.reel.overlays[m].at, k) implies #[trigger] f.reel.overlays[m]
            == e.reel.overlays[m] by {
            assert(e.reel.overlays[m].wf());
        }
        assert forall|m: int| 0 <= m < na && over_clip(old, e.reel.audios[m].at, k) implies #[trigger] f.reel.audios[m]
            == e.reel.audios[m] by {
            assert(e.reel.audios[m].wf());
        }
        assert forall|m: int| 0 <= m < nt && over_clip(old, e.reel.titles[m].at, k) implies #[trigger] f.reel.titles[m]
            == e.reel.titles[m] by {
            assert(e.reel.titles[m].wf());
        }
    }
}

/// Law: with the magnet on, what stands on a clip that stays goes with it when another
/// is deleted; what stood on the deleted clip stays where it is.
pub proof fn law_delete_carries_riders(e: EditorView, i: usize, k: int)
    requires
        e.magnet,
        e.reel.wf(),
        reel_track(e.reel.clips),
        e.selected == Some(Sel::Main(i)),
        i < e.reel.clips.len(),
        0 <= k < e.reel.clips.len(),
    ensures
        k < i ==> rides_along(e, e.sel_deleted(), k, k),
        k > i ==> rides_along(e, e.sel_deleted(), k, k - 1),
        k == i ==> rides_not(e, e.sel_deleted(), k),
{
    reveal(EditorView::pushed);
    let clips = e.reel.clips.remove(i as int);
    lemma_removed_sound(e.reel.clips, i as int);
    let to = closed_up(e.reel.clips.len(), i as int);
    let d = EditorView { marked: Seq::empty(), ..e.pushed(""@) };
    law_riders(d, clips, starts_by(clips, to), k, if k > i { k - 1 } else { k });
    crate::magnet::lemma_carried(Reel { clips, ..e.reel }, spans_of(e.reel.clips), starts_by(clips, to));
}

proof fn lemma_removed_sound(clips: Seq<Clip>, i: int)
    requires
        sound(clips),
        0 <= i < clips.len(),
    ensures
        sound(clips.remove(i)),
{
    reveal(sound);
}

/// Law: with the magnet on, a clip that grows or shrinks takes along what stands on
/// every later clip, and what stands on it keeps its distance from its start.
pub proof fn law_trim_carries_riders(e: EditorView, i: usize, edge_out: bool, frames: int, k: int)
    requires
        e.magnet,
        e.reel.wf(),
        reel_track(e.reel.clips),
        e.selected == Some(Sel::Main(i)),
        i < e.reel.clips.len(),
        trimmable(e.reel.clips[i as int], edge_out),
        0 <= k < e.reel.clips.len(),
    ensures
        rides_along(e, e.ripple_trimmed(edge_out, frames), k, k),
{
    reveal(EditorView::pushed);
    reveal(sound);
    let c = frame_trimmed(e.reel.clips[i as int], edge_out, frames);
    assert(e.reel.clips[i as int].wf());
    let clips = e.reel.clips.update(i as int, c);
    assert(sound(clips));
    law_riders(e.pushed("ripple-trim"@), clips, starts_by(clips, in_place(clips.len())), k, k);
    crate::magnet::lemma_carried(
        Reel { clips, ..e.reel },
        spans_of(e.reel.clips),
        starts_by(clips, in_place(clips.len())),
    );
}

/// Law: with the magnet on, a join takes along what stands behind the joined clip.
pub proof fn law_join_carries_riders(e: EditorView, i: usize, k: int)
    requires
        e.magnet,
        e.reel.wf(),
        reel_track(e.reel.clips),
        e.selected == Some(Sel::Main(i)),
        i < e.reel.clips.len(),
        0 <= k < e.reel.clips.len(),
        join_left(e.reel.clips, i as int) is Some,
    ensures
        k <= join_left(e.reel.clips, i as int)->0 ==> rides_along(e, e.joined_sel(), k, k),
        k > join_left(e.reel.clips, i as int)->0 ==> rides_along(e, e.joined_sel(), k, k - 1),
{
    reveal(EditorView::pushed);
    let left = join_left(e.reel.clips, i as int)->0;
    let clips = clips_joined(e.reel.clips, left);
    lemma_joined_sound(e.reel.clips, left);
    let to = joined_up(e.reel.clips.len(), left + 1);
    law_riders(e.pushed(""@), clips, starts_by(clips, to), k, if k > left { k - 1 } else { k });
    crate::magnet::lemma_carried(Reel { clips, ..e.reel }, spans_of(e.reel.clips), starts_by(clips, to));
}

} // verus!
