//! Splitting at the playhead, and the posters that clips need afterwards.

use crate::edges::{can_cut, cut_local, drag_source, dragged};
use crate::editor::{one_edit, Editor, EditorView};
use crate::model::{sound, AudioItem, Clip, OverlayItem, Reel, Sel};
use crate::text::cat5;
use crate::time::{clock_text, fmt_t, in_source, Time, MIN_PIECE, SAME};
use crate::track::{extent, kept, locate, located, overlap, rate, run_of, run_time, shown, source_in, start};
use vstd::prelude::*;

verus! {

/// A frame to take again: which clip, from which file, at which source position.
pub struct Poster {
    pub index: usize,
    /// The file to read: the proxy where there is one.
    pub scrub: String,
    /// The clip's own source, to know it by when the frame is there.
    pub path: String,
    pub at: Time,
    pub framing: String,
}

/// The poster request for clip `i` of a track at its in-point.
pub open spec fn poster_of(clips: Seq<Clip>, i: int, p: Poster) -> bool {
    &&& p.index == i
    &&& p.path == clips[i].path
    &&& p.at == clips[i].in_s
    &&& p.framing == clips[i].framing
    &&& p.scrub == scrub_of(clips[i])
}

/// The file scrubbing reads: the proxy once it is there.
pub open spec fn scrub_of(c: Clip) -> String {
    if c.proxy@.len() > 0 { c.proxy } else { c.path }
}

impl Clip {
    /// The file scrubbing reads.
    pub fn scrub_path(&self) -> (r: String)
        ensures
            r == scrub_of(*self),
    {
        if !self.proxy.as_str().is_empty() { self.proxy.clone() } else { self.path.clone() }
    }

    /// The request for a poster of the clip at place `index`.
    pub(crate) fn poster(&self, index: usize) -> (r: Poster)
        ensures
            r.index == index,
            r.path == self.path,
            r.at == self.in_s,
            r.framing == self.framing,
            r.scrub == scrub_of(*self),
    {
        Poster {
            index,
            scrub: self.scrub_path(),
            path: self.path.clone(),
            at: self.in_s,
            framing: self.framing.clone(),
        }
    }
}

/// A track with clip `i` cut at source position `local`.
pub open spec fn split(clips: Seq<Clip>, i: int, local: Time) -> Seq<Clip> {
    clips.update(i, Clip { out_s: local, ..clips[i] }).insert(i + 1, Clip { in_s: local, ..clips[i] })
}

pub open spec fn too_close() -> Seq<char> {
    "Playhead is too close to an edge to split."@
}

/// What a split reports.
pub open spec fn split_text(what: Seq<char>, name: Seq<char>, t: Time) -> Seq<char> {
    what + name + " at "@ + clock_text(t as int) + "."@
}

impl EditorView {
    /// With no marks: they are positional, and an edit shifts what they point at.
    pub open spec fn unmarked(self) -> EditorView {
        EditorView { marked: Seq::empty(), ..self }
    }

    /// After a split at the playhead: of the selected overlay or bed where the
    /// playhead is inside its span, or else of the clip that shows there.
    pub open spec fn split_here(self) -> EditorView {
        let t = self.playhead;
        match self.selected {
            Some(Sel::Over(j)) => if overlay_holds(self.reel.overlays[j as int], t) {
                self.pushed(""@).unmarked().overlay_split(j)
            } else {
                self.pushed(""@).unmarked().clip_split()
            },
            Some(Sel::Aud(j)) => if bed_holds(self.reel.audios[j as int], t) {
                self.pushed(""@).unmarked().bed_split(j)
            } else {
                self.pushed(""@).unmarked().clip_split()
            },
            _ => self.pushed(""@).unmarked().clip_split(),
        }
    }

    /// After overlay `j` was split at the playhead.
    pub open spec fn overlay_split(self, j: usize) -> EditorView {
        let t = self.playhead;
        let o = self.reel.overlays[j as int];
        let local = o.in_s + dragged(t - o.at, o.speed);
        if can_cut(o.in_s as int, o.out_s as int, local, MIN_PIECE as int) {
            EditorView {
                reel: Reel {
                    overlays: self.reel.overlays.update(
                        j as int,
                        OverlayItem { out_s: local as Time, ..o },
                    ).insert(j + 1, OverlayItem { in_s: local as Time, at: t, ..o }),
                    ..self.reel
                },
                ..self
            }.selects(Some(Sel::Over((j + 1) as usize))).says(split_text("Split overlay "@, o.name@, t))
        } else {
            self.says(too_close())
        }
    }

    /// After bed `j` was split at the playhead.
    pub open spec fn bed_split(self, j: usize) -> EditorView {
        let t = self.playhead;
        let a = self.reel.audios[j as int];
        let local = a.in_s + (t - a.at);
        if can_cut(a.in_s as int, a.out_s as int, local, MIN_PIECE as int) {
            EditorView {
                reel: Reel {
                    audios: self.reel.audios.update(
                        j as int,
                        AudioItem { out_s: local as Time, ..a },
                    ).insert(j + 1, AudioItem { in_s: local as Time, at: t, ..a }),
                    ..self.reel
                },
                ..self
            }.selects(Some(Sel::Aud((j + 1) as usize))).says(split_text("Split audio "@, a.name@, t))
        } else {
            self.says(too_close())
        }
    }

    /// After the clip under the playhead was split.
    pub open spec fn clip_split(self) -> EditorView {
        let t = self.playhead;
        match located(self.reel.clips, t as int) {
            None => self,
            Some((i, local)) => {
                let c = self.reel.clips[i];
                if can_cut(c.in_s as int, c.out_s as int, local, MIN_PIECE as int) {
                    EditorView {
                        reel: Reel { clips: split(self.reel.clips, i, local as Time), ..self.reel },
                        ..self
                    }.selects(Some(Sel::Main((i + 1) as usize))).says(split_text("Split "@, c.name@, t))
                } else {
                    self.says(too_close())
                }
            },
        }
    }
}

/// Whether a reel position is inside an overlay's span.
pub open spec fn overlay_holds(o: OverlayItem, t: Time) -> bool {
    o.at <= t < o.at + run_of(o.in_s, o.out_s, o.speed)
}

/// Whether a reel position is inside a bed's span.
pub open spec fn bed_holds(a: AudioItem, t: Time) -> bool {
    a.at <= t < a.at + (a.out_s - a.in_s)
}

/// Law: both halves of a cut are at least a tenth of a second of source, they
/// meet at the cut, and every other clip is untouched.
pub proof fn law_split(clips: Seq<Clip>, i: int, local: Time)
    requires
        0 <= i < clips.len(),
        can_cut(clips[i].in_s as int, clips[i].out_s as int, local as int, MIN_PIECE as int),
    ensures
        split(clips, i, local).len() == clips.len() + 1,
        split(clips, i, local)[i].out_s - split(clips, i, local)[i].in_s >= MIN_PIECE,
        split(clips, i, local)[i + 1].out_s - split(clips, i, local)[i + 1].in_s >= MIN_PIECE,
        split(clips, i, local)[i].out_s == split(clips, i, local)[i + 1].in_s,
        split(clips, i, local)[i].in_s == clips[i].in_s,
        split(clips, i, local)[i + 1].out_s == clips[i].out_s,
        forall|k: int| 0 <= k < i ==> split(clips, i, local)[k] == #[trigger] clips[k],
        forall|k: int| i < k < clips.len() ==> split(clips, i, local)[k + 1] == #[trigger] clips[k],
{
}

/// Law: cutting a clip that starts with a hard cut, where the halves run as long as
/// the whole and the right half is long enough for the blend behind it, does not
/// change how long the reel is, nor where any later clip starts. At normal speed the
/// halves always run as long as the whole.
pub proof fn law_split_keeps_the_reel(clips: Seq<Clip>, i: int, local: Time, k: int)
    requires
        sound(clips),
        0 <= i < k <= clips.len(),
        clips[i].transition is None,
        clips[i].in_s <= local <= clips[i].out_s,
        clips[i].speed == 1000 || run_of(clips[i].in_s, local, clips[i].speed) + run_of(
            local,
            clips[i].out_s,
            clips[i].speed,
        ) == run_of(clips[i].in_s, clips[i].out_s, clips[i].speed),
        overlap(clips, i + 1) <= run_of(local, clips[i].out_s, clips[i].speed) / 2,
    ensures
        start(split(clips, i, local), k + 1) == start(clips, k),
    decreases k,
{
    let s = split(clips, i, local);
    lemma_same_head(clips, s, i);
    assert(s[i].transition is None && s[i + 1].transition is None);
    lemma_unit_run(clips[i].in_s, local);
    lemma_unit_run(local, clips[i].out_s);
    lemma_unit_run(clips[i].in_s, clips[i].out_s);
    crate::model::lemma_sound_at(clips, i);
    crate::track::lemma_run(clips[i].in_s, local, clips[i].speed);
    crate::track::lemma_run(local, clips[i].out_s, clips[i].speed);
    if k == i + 1 {
        reveal_with_fuel(start, 3);
        if k < clips.len() {
            assert(s[i + 2] == clips[i + 1]);
        }
    } else {
        law_split_keeps_the_reel(clips, i, local, k - 1);
        assert(s[k] == clips[k - 1]);
        if k < clips.len() {
            assert(s[k + 1] == clips[k]);
        }
        assert(extent(s, k) == extent(clips, k - 1));
    }
}

/// At normal speed a span runs as long as it is.
pub proof fn lemma_unit_run(in_s: Time, out_s: Time)
    ensures
        run_of(in_s, out_s, 1000) == kept(in_s, out_s),
{
    reveal(run_of);
    let a = kept(in_s, out_s);
    assert(a * 1000 / 1000 == a);
}

pub proof fn lemma_split_sound(clips: Seq<Clip>, i: int, local: Time)
    requires
        sound(clips),
        0 <= i < clips.len(),
        in_source(local),
    ensures
        sound(split(clips, i, local)),
{
    reveal(sound);
    assert(clips[i].wf());
}

/// Tracks that agree up to and with clip `n - 1`'s start agree on where clip `n` starts.
proof fn lemma_same_head(a: Seq<Clip>, b: Seq<Clip>, n: int)
    requires
        0 <= n < a.len(),
        n < b.len(),
        forall|k: int| 0 <= k < n ==> a[k] == b[k],
        a[n].transition is None,
        b[n].transition is None,
    ensures
        start(a, n) == start(b, n),
{
    if n > 0 {
        lemma_same_starts(a, b, n - 1);
        assert(a[n - 1] == b[n - 1]);
    }
}

proof fn lemma_same_starts(a: Seq<Clip>, b: Seq<Clip>, n: int)
    requires
        0 <= n < a.len(),
        n < b.len(),
        forall|k: int| 0 <= k <= n ==> a[k] == b[k],
    ensures
        start(a, n) == start(b, n),
    decreases n,
{
    if n > 0 {
        lemma_same_starts(a, b, n - 1);
        assert(a[n - 1] == b[n - 1] && a[n] == b[n]);
    }
}

impl Editor {
    fn split_overlay(&mut self, j: usize)
        requires
            old(self)@.wf(),
            j < old(self).reel.overlays.len(),
            old(self)@.selected == Some(Sel::Over(j)),
            old(self)@.marked.len() == 0,
        ensures
            final(self)@.wf(),
            final(self)@ == old(self)@.overlay_split(j),
    {
        let ghost was = self@;
        let t: Time = self.playhead;
        let o: OverlayItem = self.reel.overlays[j].clone();
        proof {
            crate::model::lemma_overlays_ok_at(was.reel.overlays, j as int);
        }
        let local: Time = o.in_s + drag_source(t - o.at, o.speed);
        match cut_local(o.in_s, o.out_s, local, MIN_PIECE) {
            Some(local) => {
                let mut right: OverlayItem = o.clone();
                self.reel.overlays[j].out_s = local;
                right.in_s = local;
                right.at = t;
                self.reel.overlays.insert(j + 1, right);
                self.selected = Some(Sel::Over(j + 1));
                self.status = cat5("Split overlay ", o.name.as_str(), " at ", fmt_t(t).as_str(), ".");
                proof {
                    let left = OverlayItem { out_s: local, ..o };
                    let right = OverlayItem { in_s: local, at: t, ..o };
                    crate::model::lemma_overlays_ok(was.reel.overlays, j as int, left);
                    crate::model::lemma_overlays_ok(was.reel.overlays.update(j as int, left), j + 1, right);
                    assert(self@.reel.overlays =~= was.reel.overlays.update(j as int, left).insert(j + 1, right));
                }
            },
            None => {
                self.status = "Playhead is too close to an edge to split.".to_owned();
            },
        }
    }

    fn split_audio(&mut self, j: usize)
        requires
            old(self)@.wf(),
            j < old(self).reel.audios.len(),
            old(self)@.selected == Some(Sel::Aud(j)),
            old(self)@.marked.len() == 0,
        ensures
            final(self)@.wf(),
            final(self)@ == old(self)@.bed_split(j),
    {
        let ghost was = self@;
        let t: Time = self.playhead;
        let a: AudioItem = self.reel.audios[j].clone();
        proof {
            crate::model::lemma_audios_ok_at(was.reel.audios, j as int);
        }
        let local: Time = a.in_s + (t - a.at);
        match cut_local(a.in_s, a.out_s, local, MIN_PIECE) {
            Some(local) => {
                let mut right: AudioItem = a.clone();
                self.reel.audios[j].out_s = local;
                right.in_s = local;
                right.at = t;
                self.reel.audios.insert(j + 1, right);
                self.selected = Some(Sel::Aud(j + 1));
                self.status = cat5("Split audio ", a.name.as_str(), " at ", fmt_t(t).as_str(), ".");
                proof {
                    let left = AudioItem { out_s: local, ..a };
                    let right = AudioItem { in_s: local, at: t, ..a };
                    crate::model::lemma_audios_ok(was.reel.audios, j as int, left);
                    crate::model::lemma_audios_ok(was.reel.audios.update(j as int, left), j + 1, right);
                    assert(self@.reel.audios =~= was.reel.audios.update(j as int, left).insert(j + 1, right));
                }
            },
            None => {
                self.status = "Playhead is too close to an edge to split.".to_owned();
            },
        }
    }

    fn split_clip(&mut self, i: usize, local: Time) -> (r: Poster)
        requires
            old(self)@.wf(),
            i < old(self).reel.clips.len(),
            in_source(local),
        ensures
            final(self)@ == (EditorView {
                reel: Reel { clips: split(old(self)@.reel.clips, i as int, local), ..old(self)@.reel },
                ..old(self)@
            }).selects(Some(Sel::Main((i + 1) as usize))).says(
                split_text("Split "@, old(self)@.reel.clips[i as int].name@, old(self)@.playhead),
            ),
            final(self)@.wf(),
            r.index == i + 1,
            poster_of(final(self)@.reel.clips, i + 1, r),
    {
        let ghost was = self@;
        let n: usize = self.reel.clips.len();
        let t: Time = self.playhead;
        proof {
            crate::model::lemma_sound_at(was.reel.clips, i as int);
        }
        let mut right: Clip = self.reel.clips[i].clone();
        self.reel.clips[i].out_s = local;
        right.in_s = local;
        let poster: Poster = right.poster(i + 1);
        self.status = cat5("Split ", right.name.as_str(), " at ", fmt_t(t).as_str(), ".");
        self.reel.clips.insert(i + 1, right);
        self.selected = Some(Sel::Main(i + 1));
        proof {
            lemma_split_sound(was.reel.clips, i as int, local);
            assert(self@.reel.clips =~= split(was.reel.clips, i as int, local));
        }
        poster
    }

    /// Split at the playhead: the selected overlay or bed where it is there, or else
    /// the clip that shows. The selection lands on the right half. Where a clip
    /// was cut, its right half needs a poster of its own, which is returned.
    pub fn split_at_playhead(&mut self) -> (r: Option<Poster>)
        requires
            old(self)@.wf(),
        ensures
            final(self)@ == old(self)@.split_here(),
            final(self)@.wf(),
            r is Some <==> final(self)@.reel.clips.len() != old(self)@.reel.clips.len(),
            r matches Some(p) ==> final(self)@.selected == Some(Sel::Main(p.index)) && poster_of(
                final(self)@.reel.clips,
                p.index as int,
                p,
            ),
    {
        let ghost was = self@;
        let t: Time = self.playhead;
        self.push_undo("");
        self.marked.clear();
        match self.selected {
            Some(Sel::Over(j)) => {
                proof {
                    crate::model::lemma_overlays_ok_at(was.reel.overlays, j as int);
                }
                let o: &OverlayItem = &self.reel.overlays[j];
                if o.at <= t && t < o.at + o.trimmed() {
                    self.split_overlay(j);
                    return None;
                }
            },
            Some(Sel::Aud(k)) => {
                proof {
                    crate::model::lemma_audios_ok_at(was.reel.audios, k as int);
                }
                let a: &AudioItem = &self.reel.audios[k];
                if a.at <= t && t < a.at + (a.out_s - a.in_s) {
                    self.split_audio(k);
                    return None;
                }
            },
            _ => {},
        }
        let (i, local) = match locate(&self.reel.clips, t) {
            Some(p) => p,
            None => {
                return None;
            },
        };
        proof {
            crate::model::lemma_sound_at(was.reel.clips, i as int);
        }
        let local: Time = match cut_local(self.reel.clips[i].in_s, self.reel.clips[i].out_s, local, MIN_PIECE) {
            Some(local) => local,
            None => {
                self.status = "Playhead is too close to an edge to split.".to_owned();
                return None;
            },
        };
        Some(self.split_clip(i, local))
    }

    /// A poster arrived: it goes on the clip it was taken for, where that clip is
    /// still in its place and still starts there.
    pub fn land_poster(&mut self, p: &Poster, thumb: String)
        requires
            old(self)@.wf(),
            in_source(p.at),
        ensures
            final(self)@ == old(self)@.poster_landed(*p, thumb),
            final(self)@.wf(),
    {
        let ghost was = self@;
        let i: usize = p.index;
        if i >= self.reel.clips.len() {
            return;
        }
        proof {
            crate::model::lemma_sound_at(was.reel.clips, i as int);
        }
        let in_s: Time = self.reel.clips[i].in_s;
        let d: Time = if in_s >= p.at { in_s - p.at } else { p.at - in_s };
        if self.reel.clips[i].path == p.path && d < SAME {
            self.reel.clips[i].thumb = thumb;
            proof {
                let c = Clip { thumb, ..was.reel.clips[i as int] };
                crate::model::lemma_sound(was.reel.clips, i as int, c);
                assert(self@.reel.clips =~= was.reel.clips.update(i as int, c));
            }
        }
    }
}

/// Halving a span at a rate: what the left half runs falls short of where it was cut
/// by less than one source tick and one reel tick.
proof fn lemma_cut_run(d: int, r: int)
    requires
        d >= 0,
        r >= 10,
    ensures
        d * r / 1000 >= 0,
        (d * r / 1000) * 1000 / r <= d,
        r * (d - (d * r / 1000) * 1000 / r) < 1000 + r,
        r == 1000 ==> d * r / 1000 == d && (d * r / 1000) * 1000 / r == d,
{
    let p = d * r;
    assert(p >= 0) by (nonlinear_arith)
        requires
            p == d * r,
            d >= 0,
            r >= 10,
    ;
    let g = p / 1000;
    assert(g * 1000 <= p < g * 1000 + 1000);
    let q = g * 1000 / r;
    assert(q * r <= g * 1000 < q * r + r) by (nonlinear_arith)
        requires
            q == g * 1000 / r,
            r >= 10,
    ;
    assert(q <= d) by (nonlinear_arith)
        requires
            q * r <= d * r,
            r >= 10,
    ;
    assert(r * (d - q) == p - q * r) by (nonlinear_arith)
        requires
            p == d * r,
    ;
    if r == 1000 {
        assert(p == d * 1000);
    }
}

/// How much source passes grows with the time that passed, and what passes in two
/// stretches is what passes in one, but for one tick of rounding.
proof fn lemma_passed(a: int, b: int, r: int)
    requires
        a >= 0,
        b >= 0,
        r >= 10,
    ensures
        a * r / 1000 <= (a + b) * r / 1000,
        a * r / 1000 + b * r / 1000 <= (a + b) * r / 1000 <= a * r / 1000 + b * r / 1000 + 1,
        r == 1000 ==> (a + b) * r / 1000 == a * r / 1000 + b * r / 1000,
{
    assert((a + b) * r == a * r + b * r) by (nonlinear_arith);
    assert(a * r >= 0 && b * r >= 0) by (nonlinear_arith)
        requires
            a >= 0,
            b >= 0,
            r >= 10,
    ;
    if r == 1000 {
        assert((a + b) * r == (a + b) * 1000);
        assert(a * r == a * 1000);
        assert(b * r == b * 1000);
    }
}

/// Law: splitting a selected cutaway at the playhead leaves two items in its place.
/// The left starts where the whole did and is over by the playhead, with no more than
/// the rounding of its speed between; the right starts at the playhead. A split that
/// would leave less than a tenth of a second of source on either side changes nothing.
pub proof fn law_split_cutaway(e: EditorView, j: usize)
    requires
        e.selected == Some(Sel::Over(j)),
        j < e.reel.overlays.len(),
        e.reel.overlays[j as int].wf(),
        e.reel.overlays[j as int].at <= e.playhead < e.reel.overlays[j as int].at + run_of(
            e.reel.overlays[j as int].in_s,
            e.reel.overlays[j as int].out_s,
            e.reel.overlays[j as int].speed,
        ),
    ensures
        ({
            let o = e.reel.overlays[j as int];
            let f = e.split_here();
            let passed = (e.playhead - o.at) * rate(o.speed) / 1000;
            let fits = passed >= MIN_PIECE && o.out_s - o.in_s - passed >= MIN_PIECE;
            &&& one_edit(e, f)
            &&& f.reel == (Reel { overlays: f.reel.overlays, ..e.reel })
            &&& !fits ==> f.reel == e.reel
            &&& fits ==> {
                let l = f.reel.overlays[j as int];
                let r = f.reel.overlays[j + 1];
                let gap = e.playhead - (l.at + run_of(l.in_s, l.out_s, l.speed));
                &&& f.reel.overlays.len() == e.reel.overlays.len() + 1
                &&& forall|k: int| 0 <= k < j ==> #[trigger] f.reel.overlays[k] == e.reel.overlays[k]
                &&& forall|k: int|
                    j + 1 < k < f.reel.overlays.len() ==> #[trigger] f.reel.overlays[k] == e.reel.overlays[k - 1]
                &&& l == (OverlayItem { out_s: l.out_s, ..o })
                &&& r == (OverlayItem { at: e.playhead, in_s: l.out_s, ..o })
                &&& l.out_s - l.in_s >= MIN_PIECE
                &&& r.out_s - r.in_s >= MIN_PIECE
                &&& 0 <= gap && rate(o.speed) * gap < 1000 + rate(o.speed)
                &&& o.speed == 1000 ==> gap == 0 && r.at + (r.out_s - r.in_s) == o.at + (o.out_s - o.in_s)
                &&& f.selected == Some(Sel::Over((j + 1) as usize))
            }
        }),
{
    reveal(EditorView::pushed);
    reveal_strlit("");
    reveal(run_of);
    let o = e.reel.overlays[j as int];
    let d = e.playhead - o.at;
    let r = rate(o.speed);
    lemma_cut_run(d, r);
    crate::track::lemma_run(o.in_s, o.out_s, o.speed);
    assert(dragged(d, o.speed) == d * r / 1000);
    lemma_passed_within(d, kept(o.in_s, o.out_s), r);
    assert(kept(o.in_s, (o.in_s + d * r / 1000) as Time) == d * r / 1000);
}

/// Law: at every reel position of a cutaway that is not reversed, the half that is up
/// after the split shows the source the whole showed there, to within a tick, and
/// exactly at normal speed.
pub proof fn law_split_cutaway_shows_the_same(e: EditorView, j: usize, t: Time)
    requires
        e.selected == Some(Sel::Over(j)),
        j < e.reel.overlays.len(),
        e.reel.overlays[j as int].wf(),
        !e.reel.overlays[j as int].reverse,
        overlay_holds(e.reel.overlays[j as int], e.playhead),
        overlay_holds(e.reel.overlays[j as int], t),
        e.split_here().reel.overlays.len() > e.reel.overlays.len(),
    ensures
        ({
            let o = e.reel.overlays[j as int];
            let l = e.split_here().reel.overlays[j as int];
            let r = e.split_here().reel.overlays[j + 1];
            let whole = source_in(o.in_s, o.out_s, o.speed, false, t - o.at);
            let left = source_in(l.in_s, l.out_s, l.speed, l.reverse, t - l.at);
            let right = source_in(r.in_s, r.out_s, r.speed, r.reverse, t - r.at);
            &&& t < e.playhead ==> !overlay_holds(r, t) && left == whole
            &&& t >= e.playhead ==> !overlay_holds(l, t) && right <= whole <= right + 1
            &&& t >= e.playhead && o.speed == 1000 ==> overlay_holds(r, t) && right == whole
            &&& t < e.playhead && o.speed == 1000 ==> overlay_holds(l, t)
        }),
{
    law_split_cutaway(e, j);
    reveal(source_in);
    reveal(run_of);
    let o = e.reel.overlays[j as int];
    let d = e.playhead - o.at;
    let r = rate(o.speed);
    lemma_cut_run(d, r);
    crate::track::lemma_run(o.in_s, o.out_s, o.speed);
    assert(dragged(d, o.speed) == d * r / 1000);
    lemma_passed_within(d, kept(o.in_s, o.out_s), r);
    lemma_passed_within(t - o.at, kept(o.in_s, o.out_s), r);
    let l = e.split_here().reel.overlays[j as int];
    assert(l.out_s == o.in_s + d * r / 1000) by {
        reveal(EditorView::pushed);
    }
    if o.speed == 1000 {
        lemma_unit_run(l.in_s, l.out_s);
        lemma_unit_run(l.out_s, o.out_s);
        lemma_unit_run(o.in_s, o.out_s);
    }
    if t < e.playhead {
        lemma_passed(t - o.at, e.playhead - t, r);
        lemma_passed(0, t - o.at, r);
    } else {
        lemma_passed(d, t - e.playhead, r);
        lemma_passed(0, t - e.playhead, r);
        assert(o.out_s >= o.in_s);
    }
}

/// Law: splitting a selected bed at the playhead leaves two items in its place: the
/// left is up from where the whole was to the playhead, the right from there to the
/// whole's end, and at each position the one that is up plays the source the whole
/// played there. A split too close to an end changes nothing.
pub proof fn law_split_bed(e: EditorView, j: usize)
    requires
        e.selected == Some(Sel::Aud(j)),
        j < e.reel.audios.len(),
        e.reel.audios[j as int].wf(),
        e.reel.audios[j as int].at <= e.playhead < e.reel.audios[j as int].at + (e.reel.audios[j as int].out_s
            - e.reel.audios[j as int].in_s),
    ensures
        ({
            let a = e.reel.audios[j as int];
            let f = e.split_here();
            let d = e.playhead - a.at;
            let fits = d >= MIN_PIECE && a.out_s - a.in_s - d >= MIN_PIECE;
            &&& one_edit(e, f)
            &&& f.reel == (Reel { audios: f.reel.audios, ..e.reel })
            &&& !fits ==> f.reel == e.reel
            &&& fits ==> {
                let l = f.reel.audios[j as int];
                let r = f.reel.audios[j + 1];
                &&& f.reel.audios.len() == e.reel.audios.len() + 1
                &&& forall|k: int| 0 <= k < j ==> #[trigger] f.reel.audios[k] == e.reel.audios[k]
                &&& forall|k: int|
                    j + 1 < k < f.reel.audios.len() ==> #[trigger] f.reel.audios[k] == e.reel.audios[k - 1]
                &&& l == (AudioItem { out_s: l.out_s, ..a })
                &&& r == (AudioItem { at: e.playhead, in_s: l.out_s, ..a })
                &&& l.at + (l.out_s - l.in_s) == e.playhead
                &&& r.at + (r.out_s - r.in_s) == a.at + (a.out_s - a.in_s)
                &&& forall|t: int|
                    a.at <= t < a.at + (a.out_s - a.in_s) ==> (#[trigger] hears(l, t)) != hears(r, t)
                &&& forall|t: int| hears(l, t) ==> #[trigger] plays(l, t) == plays(a, t)
                &&& forall|t: int| hears(r, t) ==> #[trigger] plays(r, t) == plays(a, t)
                &&& f.selected == Some(Sel::Aud((j + 1) as usize))
            }
        }),
{
    reveal(EditorView::pushed);
    reveal_strlit("");
}

/// A bed is up at a reel position.
pub open spec fn hears(a: AudioItem, t: int) -> bool {
    a.at <= t < a.at + (a.out_s - a.in_s)
}

/// The source position of a bed at a reel position.
pub open spec fn plays(a: AudioItem, t: int) -> int {
    a.in_s + (t - a.at)
}

/// Law: with nothing on another lane to cut, the split cuts the clip that shows at the
/// playhead. At normal speed, between hard cuts, the left half ends and the right half
/// starts at the playhead, the halves take the place of the whole, no other clip moves,
/// and no other lane changes.
#[verifier::rlimit(60)]
#[verifier::spinoff_prover]
pub proof fn law_split_clip_at_playhead(e: EditorView, i: int)
    requires
        sound(e.reel.clips),
        e.selected is None || e.selected->0 is Main,
        0 <= i < e.reel.clips.len(),
        i < usize::MAX,
        !e.reel.clips[i].reverse,
        e.reel.clips[i].speed == 1000,
        e.reel.clips[i].transition is None,
        i + 1 < e.reel.clips.len() ==> e.reel.clips[i + 1].transition is None,
        start(e.reel.clips, i) + MIN_PIECE <= e.playhead <= start(e.reel.clips, i) + (e.reel.clips[i].out_s
            - e.reel.clips[i].in_s) - MIN_PIECE,
    ensures
        ({
            let c = e.reel.clips[i];
            let f = e.split_here();
            let d = e.playhead - start(e.reel.clips, i);
            &&& one_edit(e, f)
            &&& f.reel == (Reel { clips: f.reel.clips, ..e.reel })
            &&& f.reel.clips.len() == e.reel.clips.len() + 1
            &&& forall|k: int| 0 <= k < i ==> #[trigger] f.reel.clips[k] == e.reel.clips[k]
            &&& forall|k: int| i + 1 < k < f.reel.clips.len() ==> #[trigger] f.reel.clips[k] == e.reel.clips[k - 1]
            &&& f.reel.clips[i] == (Clip { out_s: f.reel.clips[i].out_s, ..c })
            &&& f.reel.clips[i + 1] == (Clip { in_s: f.reel.clips[i].out_s, ..c })
            &&& f.reel.clips[i].out_s - c.in_s == d
            &&& start(f.reel.clips, i) == start(e.reel.clips, i)
            &&& start(f.reel.clips, i + 1) == e.playhead
            &&& forall|k: int|
                i < k <= e.reel.clips.len() ==> start(f.reel.clips, k + 1) == #[trigger] start(e.reel.clips, k)
            &&& f.selected == Some(Sel::Main((i + 1) as usize))
        }),
{
    reveal(EditorView::pushed);
    reveal_strlit("");
    reveal(source_in);
    let clips = e.reel.clips;
    let c = clips[i];
    let t = e.playhead as int;
    let d = t - start(clips, i);
    crate::model::lemma_sound_at(clips, i);
    lemma_unit_run(c.in_s, c.out_s);
    crate::track::lemma_start_bound(clips, i);
    assert(overlap(clips, i + 1) == 0);
    assert(start(clips, i + 1) == start(clips, i) + run_time(c));
    crate::track::law_shown(clips, t);
    assert(shown(clips, t) == i);
    assert(d * 1000 / 1000 == d);
    let local = (c.in_s + d) as Time;
    assert(located(clips, t) == Some((i, local as int)));
    let s = split(clips, i, local);
    assert(e.split_here().reel.clips == s);
    lemma_same_head(clips, s, i);
    lemma_unit_run(c.in_s, local);
    assert(overlap(s, i + 1) == 0);
    assert(start(s, i + 1) == start(s, i) + run_time(s[i]));
    crate::track::lemma_run(local, c.out_s, c.speed);
    assert forall|k: int| i < k <= clips.len() implies start(s, k + 1) == #[trigger] start(clips, k) by {
        law_split_keeps_the_reel(clips, i, local, k);
    }
}

/// Inside a span's run, less than the span's source has passed.
proof fn lemma_passed_within(d: int, k: int, r: int)
    requires
        0 <= d < k * 1000 / r,
        k >= 0,
        r >= 10,
    ensures
        0 <= d * r / 1000 < k,
{
    let q = k * 1000 / r;
    assert(q * r <= k * 1000) by (nonlinear_arith)
        requires
            q == k * 1000 / r,
            r >= 10,
    ;
    assert(0 <= d * r < q * r) by (nonlinear_arith)
        requires
            0 <= d < q,
            r >= 10,
    ;
}

impl EditorView {
    /// With a picture that was taken on its clip, where that still starts with it.
    pub open spec fn poster_landed(self, p: Poster, thumb: String) -> EditorView {
        let i = p.index as int;
        if i < self.reel.clips.len() && self.reel.clips[i].path@ == p.path@ && crate::edges::apart(
            self.reel.clips[i].in_s as int,
            p.at as int,
        ) < SAME {
            EditorView {
                reel: Reel { clips: self.reel.clips.update(i, Clip { thumb, ..self.reel.clips[i] }), ..self.reel },
                ..self
            }
        } else {
            self
        }
    }
}

/// Law: a clip's picture is the frame it starts with; it lands on that clip alone, and
/// not where the clip is another by then or starts elsewhere.
pub proof fn law_posters(e: EditorView, p: Poster, thumb: String, i: int)
    requires
        0 <= i < e.reel.clips.len(),
        poster_of(e.reel.clips, i, p),
    ensures
        p.path == e.reel.clips[i].path && p.at == e.reel.clips[i].in_s && p.framing == e.reel.clips[i].framing,
        ({
            let f = e.poster_landed(p, thumb);
            &&& f.reel == (Reel { clips: f.reel.clips, ..e.reel })
            &&& crate::editor::same_but(e.reel.clips, f.reel.clips, i)
            &&& f.reel.clips[i] == (Clip { thumb, ..e.reel.clips[i] })
            &&& f.undo == e.undo
        }),
        forall|g: EditorView|
            p.index >= g.reel.clips.len() || g.reel.clips[p.index as int].path@ != p.path@ || g.reel.clips[p.index as int].in_s
                >= p.at + 3 || g.reel.clips[p.index as int].in_s <= p.at - 3 ==> #[trigger] g.poster_landed(p, thumb) == g,
{
}

} // verus!
