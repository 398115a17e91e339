//! The editor's state, its undo history, and where it looks.

use crate::lanes::{normal, normalize_lanes, with_strips, LaneLimits};
use crate::magnet::{carried, lemma_carried, ride, rideable};
use crate::model::{
    sound, AudioItem, Clip, Mixer, MixerView, OverlayItem, Phase, Reel, Sel, Snapshot, TitleItem, TitleView,
};
use crate::text::same_text;
use crate::time::{lesser, lower, on_axis, Time};
use crate::track::{clip_at, law_shown, lemma_start_axis, shown, spans_of, start, start_of, total, total_of};
use vstd::prelude::*;

verus! {

/// How many steps can be undone; older ones are dropped first.
pub const UNDO_DEPTH: usize = 64;

/// What the clipboard holds.
pub enum ClipboardItem {
    Main(Clip),
    Over(OverlayItem),
    Aud(AudioItem),
    Title(TitleItem),
}

/// The clipboard's item as a value.
pub enum ClipboardView {
    Main(Clip),
    Over(OverlayItem),
    Aud(AudioItem),
    Title(TitleView),
}

impl View for ClipboardItem {
    type V = ClipboardView;

    open spec fn view(&self) -> ClipboardView {
        match *self {
            ClipboardItem::Main(c) => ClipboardView::Main(c),
            ClipboardItem::Over(o) => ClipboardView::Over(o),
            ClipboardItem::Aud(a) => ClipboardView::Aud(a),
            ClipboardItem::Title(t) => ClipboardView::Title(t@),
        }
    }
}

impl ClipboardView {
    pub open spec fn wf(&self) -> bool {
        match *self {
            ClipboardView::Main(c) => c.wf(),
            ClipboardView::Over(o) => o.wf(),
            ClipboardView::Aud(a) => a.wf(),
            ClipboardView::Title(t) => t.wf(),
        }
    }
}

/// The editor: the reel, what is selected and marked, and how it got there.
pub struct Editor {
    pub reel: Snapshot,
    pub selected: Option<Sel>,
    /// Items picked for grouping.
    pub marked: Vec<Sel>,
    /// The number the next group gets.
    pub next_group: u64,
    pub undo_stack: Vec<Snapshot>,
    pub redo_stack: Vec<Snapshot>,
    /// The tag of the run of edits the last undo step stands for.
    pub undo_tag: String,
    pub playhead: Time,
    /// Whether items on other lanes ride along with the main track.
    pub magnet: bool,
    pub status: String,
    pub clipboard: Option<ClipboardItem>,
    pub mark_in: Option<Time>,
    pub mark_out: Option<Time>,
    pub phase: Phase,
    pub limits: LaneLimits,
    /// Whether the monitor has to be drawn again.
    pub stale: bool,
    /// The reel position the monitor is to show.
    pub shown_at: Time,
}

/// The editor as a value.
pub struct EditorView {
    pub reel: Reel,
    pub selected: Option<Sel>,
    pub marked: Seq<Sel>,
    pub next_group: u64,
    pub undo: Seq<Reel>,
    pub redo: Seq<Reel>,
    pub undo_tag: Seq<char>,
    pub playhead: Time,
    pub magnet: bool,
    pub status: Seq<char>,
    pub clipboard: Option<ClipboardView>,
    pub mark_in: Option<Time>,
    pub mark_out: Option<Time>,
    pub phase: Phase,
    pub limits: LaneLimits,
    pub stale: bool,
    pub shown_at: Time,
}

/// Snapshots as values.
pub open spec fn reels(s: Seq<Snapshot>) -> Seq<Reel> {
    Seq::new(s.len(), |i: int| s[i]@)
}

/// The clipboard as a value.
pub open spec fn held(c: Option<ClipboardItem>) -> Option<ClipboardView> {
    match c {
        Some(item) => Some(item@),
        None => None,
    }
}

impl View for Editor {
    type V = EditorView;

    open spec fn view(&self) -> EditorView {
        EditorView {
            reel: self.reel@,
            selected: self.selected,
            marked: self.marked@,
            next_group: self.next_group,
            undo: reels(self.undo_stack@),
            redo: reels(self.redo_stack@),
            undo_tag: self.undo_tag@,
            playhead: self.playhead,
            magnet: self.magnet,
            status: self.status@,
            clipboard: held(self.clipboard),
            mark_in: self.mark_in,
            mark_out: self.mark_out,
            phase: self.phase,
            limits: self.limits,
            stale: self.stale,
            shown_at: self.shown_at,
        }
    }
}

/// The phases in which the selection follows the playhead.
pub open spec fn picture_phase(p: Phase) -> bool {
    p is Add || p is Cut || p is Style || p is Background
}

#[verifier::opaque]
pub open spec fn all_wf(s: Seq<Reel>) -> bool {
    forall|i: int| 0 <= i < s.len() ==> (#[trigger] s[i]).wf()
}

/// An undo stack without what lies deeper than the depth.
pub open spec fn capped(s: Seq<Reel>) -> Seq<Reel> {
    if s.len() > UNDO_DEPTH { s.subrange(1, s.len() as int) } else { s }
}

impl EditorView {
    pub open spec fn wf(&self) -> bool {
        &&& self.reel.wf()
        &&& self.selected matches Some(s) ==> self.reel.has(s)
        &&& self.next_group > 0
        &&& on_axis(self.playhead)
        &&& on_axis(self.shown_at)
        &&& self.mark_in matches Some(t) ==> on_axis(t)
        &&& self.mark_out matches Some(t) ==> on_axis(t)
        &&& self.clipboard matches Some(c) ==> c.wf()
        &&& all_wf(self.undo)
        &&& all_wf(self.redo)
        &&& self.undo.len() + self.redo.len() <= UNDO_DEPTH
    }

    /// With another status line.
    pub open spec fn says(self, text: Seq<char>) -> EditorView {
        EditorView { status: text, ..self }
    }

    pub open spec fn selects(self, s: Option<Sel>) -> EditorView {
        EditorView { selected: s, ..self }
    }

    /// With the present reel on the undo stack and nothing left to redo. A run of
    /// edits under the same tag is one step.
    #[verifier::opaque]
    pub open spec fn pushed(self, tag: Seq<char>) -> EditorView {
        if tag.len() > 0 && self.undo_tag == tag {
            self
        } else {
            EditorView {
                undo: capped(self.undo.push(self.reel)),
                redo: Seq::empty(),
                undo_tag: tag,
                ..self
            }
        }
    }

    /// With the playhead at `t`. In the phases that work on the picture the
    /// selection follows to the clip that shows there.
    pub open spec fn sought(self, t: int) -> EditorView {
        EditorView {
            playhead: t as Time,
            selected: if self.reel.clips.len() > 0 && picture_phase(self.phase) {
                Some(Sel::Main(shown(self.reel.clips, t) as usize))
            } else {
                self.selected
            },
            stale: true,
            shown_at: t as Time,
            ..self
        }
    }

    /// With another reel in place: lanes cover it, nothing is selected or marked,
    /// and the playhead stays on it.
    pub open spec fn restored(self, r: Reel) -> EditorView {
        let n = normal(r);
        EditorView { reel: n, selected: None, marked: Seq::empty(), ..self }.sought(
            lower(self.playhead as int, total(n.clips)),
        )
    }

    /// One step back.
    pub open spec fn undone(self) -> EditorView {
        if self.undo.len() == 0 {
            self.says("Nothing to undo."@)
        } else {
            EditorView {
                undo_tag: ""@,
                ..EditorView {
                    undo: self.undo.drop_last(),
                    redo: self.redo.push(self.reel),
                    ..self
                }.restored(self.undo.last())
            }.says("Undo."@)
        }
    }

    /// One step forward.
    pub open spec fn redone(self) -> EditorView {
        if self.redo.len() == 0 {
            self.says("Nothing to redo."@)
        } else {
            EditorView {
                undo_tag: ""@,
                ..EditorView {
                    redo: self.redo.drop_last(),
                    undo: self.undo.push(self.reel),
                    ..self
                }.restored(self.redo.last())
            }.says("Redo."@)
        }
    }
}

/// Law: whatever an edit, or a run of edits under one tag, did after its step was
/// recorded, undo brings back the reel it started from, with lanes that cover it.
pub proof fn law_undo_takes_an_edit_back(e: EditorView, tag: Seq<char>, edited: EditorView)
    requires
        e.undo_tag != tag || tag.len() == 0,
        edited.undo == e.pushed(tag).undo,
    ensures
        edited.undone().reel == normal(e.reel),
        edited.undone().undo == e.pushed(tag).undo.drop_last(),
{
    reveal(EditorView::pushed);
    assert(capped(e.undo.push(e.reel)).last() == e.reel);
}

/// Law: redo after undo brings the edited reel back, and the history is as it was.
pub proof fn law_redo_takes_an_undo_back(e: EditorView)
    requires
        e.undo.len() > 0,
    ensures
        e.undone().redone().reel == normal(e.reel),
        e.undone().redone().redo == e.redo,
        e.undone().redone().undo == e.undo.drop_last().push(normal(e.undo.last())),
{
    let u = e.undone();
    assert(u.redo == e.redo.push(e.reel));
    assert(u.redo.drop_last() =~= e.redo);
}

/// Law: an edit empties the redo stack, and a run of edits with one tag is one step.
pub proof fn law_pushing(e: EditorView, tag: Seq<char>)
    requires
        e.undo.len() <= UNDO_DEPTH,
        e.undo_tag != tag || tag.len() == 0,
    ensures
        e.pushed(tag).redo.len() == 0,
        0 < e.pushed(tag).undo.len() <= UNDO_DEPTH,
        e.pushed(tag).undo.last() == e.reel,
        e.pushed(tag).reel == e.reel,
        tag.len() > 0 ==> forall|edited: EditorView|
            edited.undo_tag == tag ==> #[trigger] edited.pushed(tag) == edited,
{
    reveal(EditorView::pushed);
}

impl EditorView {
    /// With the magnet switched.
    pub open spec fn magnet_toggled(self) -> EditorView {
        EditorView { magnet: !self.magnet, ..self }.says(
            if self.magnet {
                "Magnetic timeline off — V1 edits leave attached items in place."@
            } else {
                "Magnetic timeline on — attached V2/A1/T items ride V1 edits."@
            },
        )
    }

    /// With a clip selected and the playhead at its start.
    pub open spec fn clip_picked(self, i: usize) -> EditorView {
        self.selects(Some(Sel::Main(i))).sought(start(self.reel.clips, i as int))
    }

    /// With other clips on the main track. Where the magnet is on, the items of
    /// the other lanes ride along to the clips' new starts.
    pub open spec fn reclipped(self, clips: Seq<Clip>, starts: Seq<Option<Time>>) -> EditorView {
        let r = Reel { clips, ..self.reel };
        EditorView {
            reel: if self.magnet { carried(r, spans_of(self.reel.clips), starts) } else { r },
            ..self
        }
    }
}

/// The spans of a track that fits in memory can be ridden from.
pub proof fn lemma_rideable(clips: Seq<Clip>, starts: Seq<Option<Time>>)
    requires
        sound(clips),
        clips.len() <= usize::MAX,
        starts.len() == clips.len(),
        forall|k: int| 0 <= k < starts.len() ==> (#[trigger] starts[k] matches Some(s) ==> on_axis(s)),
    ensures
        rideable(spans_of(clips), starts),
{
    assert forall|k: int| 0 <= k < clips.len() implies on_axis((#[trigger] spans_of(clips)[k]).0) by {
        lemma_start_axis(clips, k);
    }
}

/// Seeking keeps the editor well formed.
pub proof fn lemma_sought(e: EditorView, t: int)
    requires
        e.wf(),
        0 <= t <= crate::time::AXIS_END,
        e.reel.clips.len() <= usize::MAX,
    ensures
        e.sought(t).wf(),
{
    if e.reel.clips.len() > 0 {
        law_shown(e.reel.clips, t);
    }
}

/// A reel with nothing on it: so many lanes, a strip for V1 and each audio lane.
pub open spec fn empty_reel(v_lanes: u8, t_lanes: u8, a_lanes: u8) -> Reel {
    Reel {
        clips: Seq::empty(),
        overlays: Seq::empty(),
        audios: Seq::empty(),
        titles: Seq::empty(),
        adjustments: Seq::empty(),
        markers: Seq::empty(),
        mixer: with_strips(MixerView { tracks: Seq::empty(), master: 1000 }, a_lanes),
        v_lanes,
        t_lanes,
        a_lanes,
    }
}

impl Snapshot {
    /// A reel with nothing on it.
    pub fn new(v_lanes: u8, t_lanes: u8, a_lanes: u8) -> (r: Self)
        ensures
            r@ == empty_reel(v_lanes, t_lanes, a_lanes),
            r@.wf(),
    {
        let mut mixer: Mixer = Mixer { tracks: Vec::new(), master: 1000 };
        mixer.ensure_lanes(a_lanes);
        let r: Snapshot = Snapshot {
            clips: Vec::new(),
            overlays: Vec::new(),
            audios: Vec::new(),
            titles: Vec::new(),
            adjustments: Vec::new(),
            markers: Vec::new(),
            mixer,
            v_lanes,
            t_lanes,
            a_lanes,
        };
        proof {
            reveal(sound);
            reveal(crate::model::overlays_ok);
            reveal(crate::model::audios_ok);
            reveal(crate::model::titles_ok);
            reveal(crate::model::adjustments_ok);
            reveal(crate::model::markers_ok);
            let to = empty_reel(v_lanes, t_lanes, a_lanes);
            assert(r@.clips =~= to.clips);
            assert(r@.overlays =~= to.overlays);
            assert(r@.audios =~= to.audios);
            assert(r@.titles =~= to.titles);
            assert(r@.adjustments =~= to.adjustments);
            assert(r@.markers =~= to.markers);
        }
        r
    }
}

impl Editor {
    /// An editor on a reel, with nothing done yet.
    pub fn new(reel: Snapshot, limits: LaneLimits) -> (r: Self)
        requires
            reel@.wf(),
        ensures
            r@ == (EditorView {
                reel: reel@,
                selected: None,
                marked: Seq::empty(),
                next_group: 1,
                undo: Seq::empty(),
                redo: Seq::empty(),
                undo_tag: ""@,
                playhead: 0,
                magnet: true,
                status: "Ready — add clips to start."@,
                clipboard: None,
                mark_in: None,
                mark_out: None,
                phase: Phase::Cut,
                limits,
                stale: false,
                shown_at: 0,
            }),
            r@.wf(),
    {
        let r: Editor = Editor {
            reel,
            selected: None,
            marked: Vec::new(),
            next_group: 1,
            undo_stack: Vec::new(),
            redo_stack: Vec::new(),
            undo_tag: "".to_owned(),
            playhead: 0,
            magnet: true,
            status: "Ready — add clips to start.".to_owned(),
            clipboard: None,
            mark_in: None,
            mark_out: None,
            phase: Phase::Cut,
            limits,
            stale: false,
            shown_at: 0,
        };
        proof {
            reveal(all_wf);
            assert(r@.marked =~= Seq::<Sel>::empty());
            assert(r@.undo =~= Seq::<Reel>::empty());
            assert(r@.redo =~= Seq::<Reel>::empty());
        }
        r
    }

    /// Record the present reel as an undo step.
    pub fn push_undo(&mut self, tag: &str)
        requires
            old(self)@.wf(),
        ensures
            final(self)@ == old(self)@.pushed(tag@),
            final(self)@ == (EditorView {
                undo: final(self)@.undo,
                redo: final(self)@.redo,
                undo_tag: final(self)@.undo_tag,
                ..old(self)@
            }),
            final(self)@.wf(),
    {
        proof {
            reveal(EditorView::pushed);
        }
        if !tag.is_empty() && same_text(self.undo_tag.as_str(), tag) {
            return;
        }
        let ghost was = self@;
        proof {
            reveal(all_wf);
        }
        self.undo_tag = tag.to_owned();
        let snap: Snapshot = self.reel.clone();
        self.undo_stack.push(snap);
        assert(reels(self.undo_stack@) =~= was.undo.push(was.reel));
        if self.undo_stack.len() > UNDO_DEPTH {
            self.undo_stack.remove(0);
        }
        assert(reels(self.undo_stack@) =~= capped(was.undo.push(was.reel)));
        self.redo_stack.clear();
        assert(reels(self.redo_stack@) =~= Seq::<Reel>::empty());
        assert(self@ =~= was.pushed(tag@));
    }

    /// Move the playhead to `t`.
    pub fn seek_to(&mut self, t: Time)
        requires
            old(self)@.wf(),
            on_axis(t),
        ensures
            final(self)@ == old(self)@.sought(t as int),
            final(self)@.wf(),
    {
        let n: usize = self.reel.clips.len();
        proof {
            lemma_sought(self@, t as int);
        }
        self.playhead = t;
        self.stale = true;
        self.shown_at = t;
        if self.reel.clips.len() > 0 {
            let follows: bool = matches!(self.phase, Phase::Add | Phase::Cut | Phase::Style | Phase::Background);
            if follows {
                let (i, _) = clip_at(&self.reel.clips, t);
                self.selected = Some(Sel::Main(i));
            }
        }
    }

    /// Put another reel in place.
    pub fn restore(&mut self, s: Snapshot)
        requires
            old(self)@.wf(),
            s@.wf(),
        ensures
            final(self)@ == old(self)@.restored(s@),
            final(self)@.wf(),
    {
        let mut s: Snapshot = s;
        normalize_lanes(&mut s);
        self.reel = s;
        self.selected = None;
        self.marked.clear();
        let end: Time = total_of(&self.reel.clips);
        let t: Time = lesser(self.playhead, end);
        self.seek_to(t);
    }

    /// Take the last step back.
    pub fn undo(&mut self)
        requires
            old(self)@.wf(),
        ensures
            final(self)@ == old(self)@.undone(),
            final(self)@.wf(),
    {
        let ghost was = self@;
        proof {
            reveal(all_wf);
        }
        match self.undo_stack.pop() {
            None => {
                self.status = "Nothing to undo.".to_owned();
            },
            Some(prev) => {
                assert(prev@ == was.undo.last());
                assert(reels(self.undo_stack@) =~= was.undo.drop_last());
                let now: Snapshot = self.reel.clone();
                self.redo_stack.push(now);
                assert(reels(self.redo_stack@) =~= was.redo.push(was.reel));
                assert(self@ =~= (EditorView {
                    undo: was.undo.drop_last(),
                    redo: was.redo.push(was.reel),
                    ..was
                }));
                self.restore(prev);
                self.undo_tag = "".to_owned();
                self.status = "Undo.".to_owned();
            },
        }
        assert(self@ =~= was.undone());
    }

    /// Take the last undone step again.
    pub fn redo(&mut self)
        requires
            old(self)@.wf(),
        ensures
            final(self)@ == old(self)@.redone(),
            final(self)@.wf(),
    {
        let ghost was = self@;
        proof {
            reveal(all_wf);
        }
        match self.redo_stack.pop() {
            None => {
                self.status = "Nothing to redo.".to_owned();
            },
            Some(next) => {
                assert(next@ == was.redo.last());
                assert(reels(self.redo_stack@) =~= was.redo.drop_last());
                let now: Snapshot = self.reel.clone();
                self.undo_stack.push(now);
                assert(reels(self.undo_stack@) =~= was.undo.push(was.reel));
                assert(self@ =~= (EditorView {
                    redo: was.redo.drop_last(),
                    undo: was.undo.push(was.reel),
                    ..was
                }));
                self.restore(next);
                self.undo_tag = "".to_owned();
                self.status = "Redo.".to_owned();
            },
        }
        assert(self@ =~= was.redone());
    }

    /// Let the items of the other lanes ride along after the clips changed.
    pub(crate) fn settle(&mut self, spans: &Vec<(Time, Time)>, starts: &Vec<Option<Time>>)
        requires
            old(self)@.wf(),
            rideable(spans@, starts@),
        ensures
            final(self)@ == (EditorView {
                reel: if old(self)@.magnet {
                    carried(old(self)@.reel, spans@, starts@)
                } else {
                    old(self)@.reel
                },
                ..old(self)@
            }),
            final(self)@.wf(),
            final(self)@.reel.clips == old(self)@.reel.clips,
    {
        proof {
            lemma_carried(self@.reel, spans@, starts@);
        }
        if self.magnet {
            ride(&mut self.reel, spans, starts);
        }
    }

    /// Select clip `i` and go to its start.
    pub fn select_clip(&mut self, i: usize)
        requires
            old(self)@.wf(),
            i < old(self).reel.clips.len(),
        ensures
            final(self)@ == old(self)@.clip_picked(i),
            final(self)@.wf(),
    {
        self.selected = Some(Sel::Main(i));
        let t: Time = start_of(&self.reel.clips, i);
        self.seek_to(t);
    }

    /// Switch the magnetic timeline on or off.
    pub fn toggle_magnet(&mut self)
        requires
            old(self)@.wf(),
        ensures
            final(self)@ == old(self)@.magnet_toggled(),
            final(self)@.wf(),
    {
        self.magnet = !self.magnet;
        self.status = if self.magnet {
            "Magnetic timeline on — attached V2/A1/T items ride V1 edits.".to_owned()
        } else {
            "Magnetic timeline off — V1 edits leave attached items in place.".to_owned()
        };
    }
}

/// One undoable edit leads from `e` to `f`: undo goes back to the reel of `e`, and
/// nothing is left to redo.
pub open spec fn one_edit(e: EditorView, f: EditorView) -> bool {
    f.undo.len() > 0 && f.undo.last() == e.reel && f.redo.len() == 0
}

/// `b` is `a` without its item `j`: one item less, those before it where they were,
/// those behind it one place forward.
pub open spec fn taken_out<A>(a: Seq<A>, b: Seq<A>, j: int) -> bool {
    &&& 0 <= j < a.len()
    &&& b.len() == a.len() - 1
    &&& forall|k: int| 0 <= k < j ==> #[trigger] b[k] == a[k]
    &&& forall|k: int| j <= k < b.len() ==> #[trigger] b[k] == a[k + 1]
}

/// `b` is `a` with one more item at `j`.
pub open spec fn put_in<A>(a: Seq<A>, b: Seq<A>, j: int) -> bool {
    &&& 0 <= j <= a.len()
    &&& b.len() == a.len() + 1
    &&& forall|k: int| 0 <= k < j ==> #[trigger] b[k] == a[k]
    &&& forall|k: int| j < k < b.len() ==> #[trigger] b[k] == a[k - 1]
}

/// `b` and `a` agree but in item `j`.
pub open spec fn same_but<A>(a: Seq<A>, b: Seq<A>, j: int) -> bool {
    &&& 0 <= j < a.len()
    &&& b.len() == a.len()
    &&& forall|k: int| 0 <= k < a.len() && k != j ==> #[trigger] b[k] == a[k]
}

/// Between interactions every edit is a step of its own: what was pushed last is the
/// reel before it.
pub proof fn lemma_pushed_alone(e: EditorView, tag: Seq<char>)
    requires
        e.undo_tag.len() == 0 || tag.len() == 0,
    ensures
        one_edit(e, e.pushed(tag)),
        e.pushed(tag) == (EditorView { undo: e.pushed(tag).undo, redo: Seq::empty(), undo_tag: tag, ..e }),
{
    reveal(EditorView::pushed);
}

/// Law: seeking moves the playhead and what is shown, and nothing on the reel; in the
/// phases that work on the picture the clip that shows there is selected, in the others
/// the selection stays.
pub proof fn law_seek(e: EditorView, t: Time)
    requires
        sound(e.reel.clips),
        e.reel.clips.len() <= usize::MAX,
        t >= 0,
    ensures
        ({
            let f = e.sought(t as int);
            &&& f == (EditorView { playhead: t, shown_at: t, stale: true, selected: f.selected, ..e })
            &&& !picture_phase(e.phase) || e.reel.clips.len() == 0 ==> f.selected == e.selected
            &&& (e.phase is Add || e.phase is Cut || e.phase is Style || e.phase is Background) && e.reel.clips.len() > 0
                ==> {
                &&& f.selected matches Some(Sel::Main(i))
                &&& i < e.reel.clips.len()
                &&& start(e.reel.clips, i as int) <= t
                &&& t < total(e.reel.clips) ==> t < start(e.reel.clips, i + 1)
            }
            &&& e.phase is Text || e.phase is Audio || e.phase is Effects || e.phase is Export ==> f.selected
                == e.selected
        }),
{
    if e.reel.clips.len() > 0 {
        law_shown(e.reel.clips, t as int);
    }
}

/// Law: the undo stack keeps the last sixty-four steps: a new step comes on top, the
/// ones below keep their order, and the oldest goes when there is no room.
pub proof fn law_undo_depth(e: EditorView, tag: Seq<char>, k: int)
    requires
        e.undo.len() <= 64,
        e.undo_tag != tag || tag.len() == 0,
        0 < k < e.pushed(tag).undo.len(),
    ensures
        e.undo.len() < 64 ==> e.pushed(tag).undo.len() == e.undo.len() + 1,
        e.undo.len() == 64 ==> e.pushed(tag).undo.len() == 64,
        e.pushed(tag).undo[e.pushed(tag).undo.len() - 1 - k] == e.undo[e.undo.len() - k],
        e.pushed(tag).undo_tag == tag,
        e.pushed(tag) == (EditorView { undo: e.pushed(tag).undo, redo: Seq::empty(), undo_tag: tag, ..e }),
{
    reveal(EditorView::pushed);
}

/// Law: undo and redo move one step between the stacks and lose none; with nothing to
/// undo, or to redo, nothing changes.
pub proof fn law_undo_moves_one_step(e: EditorView)
    requires
        !picture_phase(e.phase),
    ensures
        e.undo.len() == 0 ==> e.undone() == (EditorView { status: e.undone().status, ..e }),
        e.redo.len() == 0 ==> e.redone() == (EditorView { status: e.redone().status, ..e }),
        e.undo.len() > 0 ==> {
            let f = e.undone();
            &&& f.undo == e.undo.drop_last() && f.redo == e.redo.push(e.reel)
            &&& f.reel.clips == e.undo.last().clips && f.reel.overlays == e.undo.last().overlays
            &&& f.reel.audios == e.undo.last().audios && f.reel.titles == e.undo.last().titles
            &&& f.reel.adjustments == e.undo.last().adjustments && f.reel.markers == e.undo.last().markers
            &&& f.selected is None && f.marked.len() == 0 && f.undo_tag == ""@
            &&& f.clipboard == e.clipboard && f.phase == e.phase && f.magnet == e.magnet
        },
        e.redo.len() > 0 ==> {
            let f = e.redone();
            &&& f.redo == e.redo.drop_last() && f.undo == e.undo.push(e.reel)
            &&& f.reel.clips == e.redo.last().clips && f.reel.overlays == e.redo.last().overlays
            &&& f.reel.audios == e.redo.last().audios && f.reel.titles == e.redo.last().titles
            &&& f.reel.adjustments == e.redo.last().adjustments && f.reel.markers == e.redo.last().markers
            &&& f.selected is None && f.marked.len() == 0 && f.undo_tag == ""@
        },
{
}

/// Law: with another reel in place the playhead stays where it is, or goes to the end of
/// a shorter one.
pub proof fn law_restore_keeps_the_playhead(e: EditorView, r: Reel)
    requires
        sound(r.clips),
        r.clips.len() <= usize::MAX,
        on_axis(e.playhead),
    ensures
        e.playhead <= total(r.clips) ==> e.restored(r).playhead == e.playhead,
        e.playhead > total(r.clips) ==> e.restored(r).playhead == total(r.clips),
        e.restored(r).undo == e.undo && e.restored(r).redo == e.redo,
{
    lemma_start_axis(r.clips, r.clips.len() as int);
}

/// Law: the magnet goes off and on and changes nothing by itself; picking a clip goes to
/// where it starts.
pub proof fn law_magnet_and_picking(e: EditorView, i: usize)
    requires
        i < e.reel.clips.len(),
        e.reel.clips.len() <= usize::MAX,
        sound(e.reel.clips),
    ensures
        e.magnet_toggled().magnet != e.magnet,
        e.magnet_toggled() == (EditorView { magnet: !e.magnet, status: e.magnet_toggled().status, ..e }),
        e.magnet_toggled().magnet_toggled().magnet == e.magnet,
        e.clip_picked(i).playhead == start(e.reel.clips, i as int),
        e.clip_picked(i).reel == e.reel && e.clip_picked(i).undo == e.undo,
        !picture_phase(e.phase) ==> e.clip_picked(i).selected == Some(Sel::Main(i)),
{
    lemma_start_axis(e.reel.clips, i as int);
}

/// Law: a new reel is empty, with the lanes asked for and a strip at unity for the main
/// track and each audio lane.
pub proof fn law_new_reel(v: u8, t: u8, a: u8, k: int)
    ensures
        ({
            let r = empty_reel(v, t, a);
            &&& r.clips.len() == 0 && r.overlays.len() == 0 && r.audios.len() == 0 && r.titles.len() == 0
            &&& r.adjustments.len() == 0 && r.markers.len() == 0
            &&& (r.v_lanes, r.t_lanes, r.a_lanes) == (v, t, a)
            &&& r.mixer.tracks.len() == a + 1 && r.mixer.master == 1000
            &&& 0 <= k <= a ==> r.mixer.tracks[k].gain == 1000 && !r.mixer.tracks[k].mute && !r.mixer.tracks[k].solo
        }),
{
}

} // verus!
