//! Copy and paste, and the beat markers.

use crate::editor::{one_edit, put_in, ClipboardItem, ClipboardView, Editor, EditorView};
use crate::model::{cards, AudioItem, Clip, OverlayItem, Reel, Sel, TitleItem, TitleView};
use crate::sorting::{rising, sort_times};
use crate::text::{cat2, cat3, cat4, cat5, decimal, digits};
use crate::time::{clock_text, fmt_t, in_source, on_axis, place, placed, Time, SAME};
use crate::track::{insert_index, lemma_slot, slot, start, start_of};
use vstd::prelude::*;

verus! {

impl Clone for ClipboardItem {
    fn clone(&self) -> (r: Self)
        ensures
            r@ == self@,
    {
        match self {
            ClipboardItem::Main(c) => ClipboardItem::Main(c.clone()),
            ClipboardItem::Over(o) => ClipboardItem::Over(o.clone()),
            ClipboardItem::Aud(a) => ClipboardItem::Aud(a.clone()),
            ClipboardItem::Title(t) => ClipboardItem::Title(t.clone()),
        }
    }
}

/// What kind of thing is on the clipboard.
pub open spec fn noun(c: ClipboardView) -> Seq<char> {
    match c {
        ClipboardView::Main(_) => "Clip"@,
        ClipboardView::Over(_) => "Cutaway"@,
        ClipboardView::Aud(_) => "Audio"@,
        ClipboardView::Title(_) => "Title"@,
    }
}

/// How close to another marker a tap is a slip.
pub const SAME_BEAT: Time = 60_000;

/// Whether a marker stands where `t` is.
pub open spec fn on_a_marker(markers: Seq<Time>, t: Time) -> bool {
    exists|i: int| 0 <= i < markers.len() && crate::edges::apart((#[trigger] markers[i]) as int, t as int) < SAME_BEAT
}

impl EditorView {
    /// What copying takes.
    pub open spec fn copyable(self) -> Option<ClipboardView> {
        match self.selected {
            Some(Sel::Main(i)) => Some(ClipboardView::Main(self.reel.clips[i as int])),
            Some(Sel::Over(j)) => Some(ClipboardView::Over(self.reel.overlays[j as int])),
            Some(Sel::Aud(k)) => Some(ClipboardView::Aud(self.reel.audios[k as int])),
            Some(Sel::Title(k)) => Some(ClipboardView::Title(self.reel.titles[k as int])),
            _ => None,
        }
    }

    pub open spec fn copied(self) -> EditorView {
        match self.copyable() {
            Some(c) => EditorView { clipboard: Some(c), ..self }.says(
                noun(c) + " copied — Ctrl+V pastes at the playhead."@,
            ),
            None => self.says("Select something on the timeline to copy."@),
        }
    }

    /// After a paste: a clip goes in at the cut by the playhead, anything else at
    /// the playhead; it is in no group, and a clip starts with a hard cut.
    pub open spec fn pasted(self) -> EditorView {
        let e = self.pushed(""@);
        let t = self.playhead;
        let r = self.reel;
        match self.clipboard {
            None => self.says("Clipboard is empty — copy a timeline item first."@),
            Some(ClipboardView::Main(c)) => {
                let i = slot(r.clips, t as int);
                let clips = r.clips.insert(i, Clip { group: 0, transition: None, ..c });
                EditorView { reel: Reel { clips, ..r }, ..e }.selects(Some(Sel::Main(i as usize))).says(
                    "Pasted clip at "@ + clock_text(start(clips, i)) + "."@,
                )
            },
            Some(ClipboardView::Over(o)) => EditorView {
                reel: Reel { overlays: r.overlays.push(OverlayItem { group: 0, at: t, ..o }), ..r },
                ..e
            }.selects(Some(Sel::Over(r.overlays.len() as usize))).says(
                "Pasted cutaway at "@ + clock_text(t as int) + "."@,
            ),
            Some(ClipboardView::Aud(a)) => EditorView {
                reel: Reel { audios: r.audios.push(AudioItem { group: 0, at: t, ..a }), ..r },
                ..e
            }.selects(Some(Sel::Aud(r.audios.len() as usize))).says(
                "Pasted audio at "@ + clock_text(t as int) + "."@,
            ),
            Some(ClipboardView::Title(c)) => EditorView {
                reel: Reel {
                    titles: r.titles.push(TitleView { group: 0, at: t, pngs: Seq::empty(), ..c }),
                    ..r
                },
                ..e
            }.selects(Some(Sel::Title(r.titles.len() as usize))).says(
                "Pasted title at "@ + clock_text(t as int) + "."@,
            ),
        }
    }

    /// After a marker was tapped: `m` holds the markers with the new one, in order.
    pub open spec fn marker_dropped(self, m: Seq<Time>) -> EditorView {
        EditorView { reel: Reel { markers: m, ..self.reel }, ..self.pushed(""@) }.says(
            "Marker at "@ + clock_text(self.playhead as int) + " ("@ + digits(m.len())
                + " total) — tap M on the beat while it plays."@,
        )
    }

    /// After the markers were cleared.
    pub open spec fn markers_cleared(self) -> EditorView {
        if self.reel.markers.len() == 0 {
            self
        } else {
            EditorView { reel: Reel { markers: Seq::empty(), ..self.reel }, ..self.pushed(""@) }.says(
                "Markers cleared."@,
            )
        }
    }

    /// The bed whose beats are looked for: the selected one, or the first on A1.
    pub open spec fn beat_bed(self) -> Option<AudioItem> {
        match self.selected {
            Some(Sel::Aud(k)) => Some(self.reel.audios[k as int]),
            _ => first_on_a1(self.reel.audios, 0),
        }
    }

    /// After beats became the markers `m`.
    pub open spec fn beats_set(self, m: Seq<Time>, bpm: u32) -> EditorView {
        EditorView { reel: Reel { markers: m, ..self.reel }, ..self.pushed(""@) }.says(
            digits(m.len()) + " beat markers at ~"@ + digits(bpm as nat)
                + " BPM — drag items to snap to them, Shift+M clears."@,
        )
    }
}

/// The first bed on A1, looking from bed `k` on.
pub open spec fn first_on_a1(s: Seq<AudioItem>, k: int) -> Option<AudioItem>
    decreases s.len() - k,
{
    if k < 0 || k >= s.len() {
        None
    } else if s[k].lane == 1 {
        Some(s[k])
    } else {
        first_on_a1(s, k + 1)
    }
}

/// Where a beat of a bed's source falls on the reel.
pub open spec fn beat_at(a: AudioItem, s: Time) -> int {
    a.at + (s - a.in_s)
}

/// Whether a beat falls where the bed plays.
pub open spec fn beat_heard(a: AudioItem, s: Time) -> bool {
    a.at - SAME <= beat_at(a, s) <= a.at + (a.out_s - a.in_s) + SAME
}

/// The first `n` beats as reel times, where the bed plays.
pub open spec fn reel_beats(a: AudioItem, beats: Seq<Time>, n: int) -> Seq<Time>
    decreases n,
{
    if n <= 0 {
        Seq::empty()
    } else if beat_heard(a, beats[n - 1]) {
        reel_beats(a, beats, n - 1).push(placed(beat_at(a, beats[n - 1])) as Time)
    } else {
        reel_beats(a, beats, n - 1)
    }
}

/// Whether `m` holds the times of `s`, in order.
pub open spec fn in_order(m: Seq<Time>, s: Seq<Time>) -> bool {
    rising(m) && m.to_multiset() == s.to_multiset()
}

proof fn lemma_in_order_ok(m: Seq<Time>, s: Seq<Time>)
    requires
        crate::model::markers_ok(s),
        m.to_multiset() == s.to_multiset(),
    ensures
        crate::model::markers_ok(m),
        m.len() == s.len(),
{
    reveal(crate::model::markers_ok);
    m.to_multiset_ensures();
    s.to_multiset_ensures();
    assert forall|i: int| 0 <= i < m.len() implies on_axis(#[trigger] m[i]) by {
        assert(m.contains(m[i]));
        assert(m.to_multiset().count(m[i]) > 0);
        assert(s.contains(m[i]));
        let k = choose|k: int| 0 <= k < s.len() && s[k] == m[i];
        assert(on_axis(s[k]));
    }
}

impl Clip {
    fn for_paste(&self) -> (r: Clip)
        ensures
            r == (Clip { group: 0, transition: None, ..*self }),
    {
        let mut c: Clip = self.clone();
        c.group = 0;
        c.transition = None;
        c
    }
}

impl Editor {
    /// Copy the selected item.
    pub fn copy_sel(&mut self)
        requires
            old(self)@.wf(),
        ensures
            final(self)@ == old(self)@.copied(),
            final(self)@.wf(),
    {
        let ghost was = self@;
        let item: ClipboardItem = match self.selected {
            Some(Sel::Main(i)) => {
                proof {
                    crate::model::lemma_sound_at(was.reel.clips, i as int);
                }
                ClipboardItem::Main(self.reel.clips[i].clone())
            },
            Some(Sel::Over(j)) => {
                proof {
                    crate::model::lemma_overlays_ok_at(was.reel.overlays, j as int);
                }
                ClipboardItem::Over(self.reel.overlays[j].clone())
            },
            Some(Sel::Aud(k)) => {
                proof {
                    crate::model::lemma_audios_ok_at(was.reel.audios, k as int);
                }
                ClipboardItem::Aud(self.reel.audios[k].clone())
            },
            Some(Sel::Title(k)) => {
                proof {
                    crate::model::lemma_titles_ok_at(was.reel.titles, k as int);
                }
                ClipboardItem::Title(self.reel.titles[k].clone())
            },
            _ => {
                self.status = "Select something on the timeline to copy.".to_owned();
                return;
            },
        };
        let word: &str = match &item {
            ClipboardItem::Main(_) => "Clip",
            ClipboardItem::Over(_) => "Cutaway",
            ClipboardItem::Aud(_) => "Audio",
            ClipboardItem::Title(_) => "Title",
        };
        self.clipboard = Some(item);
        self.status = cat2(word, " copied — Ctrl+V pastes at the playhead.");
    }

    fn paste_clip(&mut self, c: &Clip)
        requires
            old(self)@.wf(),
            c.wf(),
        ensures
            ({
                let e = old(self)@;
                let i = slot(e.reel.clips, e.playhead as int);
                let clips = e.reel.clips.insert(i, Clip { group: 0, transition: None, ..*c });
                final(self)@ == (EditorView { reel: Reel { clips, ..e.reel }, ..e }).selects(
                    Some(Sel::Main(i as usize)),
                ).says("Pasted clip at "@ + clock_text(start(clips, i)) + "."@)
            }),
            final(self)@.wf(),
    {
        let ghost was = self@;
        let i: usize = insert_index(&self.reel.clips, self.playhead);
        let x: Clip = c.for_paste();
        proof {
            crate::model::lemma_sound(was.reel.clips, i as int, x);
        }
        self.reel.clips.insert(i, x);
        self.selected = Some(Sel::Main(i));
        let at: Time = start_of(&self.reel.clips, i);
        self.status = cat3("Pasted clip at ", fmt_t(at).as_str(), ".");
    }

    /// Paste what is on the clipboard. A pasted title has to be rendered; its
    /// place is returned.
    pub fn paste_sel(&mut self) -> (r: Option<usize>)
        requires
            old(self)@.wf(),
        ensures
            final(self)@ == old(self)@.pasted(),
            final(self)@.wf(),
            r == match old(self)@.clipboard {
                Some(ClipboardView::Title(_)) => Some(old(self)@.reel.titles.len() as usize),
                _ => None,
            },
    {
        let ghost was = self@;
        let item: ClipboardItem = match &self.clipboard {
            Some(item) => item.clone(),
            None => {
                self.status = "Clipboard is empty — copy a timeline item first.".to_owned();
                return None;
            },
        };
        self.push_undo("");
        let t: Time = self.playhead;
        match item {
            ClipboardItem::Main(c) => {
                self.paste_clip(&c);
                None
            },
            ClipboardItem::Over(o) => {
                let mut o: OverlayItem = o;
                o.group = 0;
                o.at = t;
                proof {
                    crate::model::lemma_overlays_ok(was.reel.overlays, 0, o);
                }
                let k: usize = self.reel.overlays.len();
                self.reel.overlays.push(o);
                self.selected = Some(Sel::Over(k));
                self.status = cat3("Pasted cutaway at ", fmt_t(t).as_str(), ".");
                None
            },
            ClipboardItem::Aud(a) => {
                let mut a: AudioItem = a;
                a.group = 0;
                a.at = t;
                proof {
                    crate::model::lemma_audios_ok(was.reel.audios, 0, a);
                }
                let k: usize = self.reel.audios.len();
                self.reel.audios.push(a);
                self.selected = Some(Sel::Aud(k));
                self.status = cat3("Pasted audio at ", fmt_t(t).as_str(), ".");
                None
            },
            ClipboardItem::Title(c) => {
                let mut c: TitleItem = c;
                c.group = 0;
                c.at = t;
                c.pngs = Vec::new();
                let k: usize = self.reel.titles.len();
                proof {
                    crate::model::lemma_titles_ok(was.reel.titles, 0, c@);
                }
                self.reel.titles.push(c);
                assert(cards(self.reel.titles@) =~= was.reel.titles.push(c@));
                self.selected = Some(Sel::Title(k));
                self.status = cat3("Pasted title at ", fmt_t(t).as_str(), ".");
                Some(k)
            },
        }
    }

    /// Tap a marker at the playhead, unless one stands there.
    pub fn drop_marker(&mut self)
        requires
            old(self)@.wf(),
        ensures
            final(self)@.wf(),
            drops_marker(old(self)@, final(self)@),
    {
        let ghost was = self@;
        let t: Time = self.playhead;
        let mut i: usize = 0;
        while i < self.reel.markers.len()
            invariant
                i <= self.reel.markers@.len(),
                *self == *old(self),
                was == self@,
                was.wf(),
                t == was.playhead,
                forall|k: int|
                    0 <= k < i ==> crate::edges::apart((#[trigger] was.reel.markers[k]) as int, t as int) >= SAME_BEAT,
            decreases self.reel.markers@.len() - i,
        {
            proof {
                crate::model::lemma_markers_ok_at(was.reel.markers, i as int);
            }
            let m: Time = self.reel.markers[i];
            let d: Time = if m >= t { m - t } else { t - m };
            if d < SAME_BEAT {
                assert(crate::edges::apart(was.reel.markers[i as int] as int, t as int) < SAME_BEAT);
                return;
            }
            i += 1;
        }
        assert(!on_a_marker(was.reel.markers, t));
        self.push_undo("");
        let mut m: Vec<Time> = self.reel.markers.clone();
        assert(m@ =~= was.reel.markers);
        m.push(t);
        proof {
            crate::model::lemma_markers_ok(was.reel.markers, 0, t);
        }
        sort_times(&mut m);
        proof {
            lemma_in_order_ok(m@, was.reel.markers.push(t));
        }
        let ghost gm = m@;
        let n: usize = m.len();
        self.reel.markers = m;
        self.status = cat5(
            "Marker at ",
            fmt_t(t).as_str(),
            " (",
            decimal(n as u128).as_str(),
            " total) — tap M on the beat while it plays.",
        );
        assert(in_order(gm, was.reel.markers.push(t)));
        assert(self@ == was.marker_dropped(gm));
    }

    /// Clear every marker.
    pub fn clear_markers(&mut self)
        requires
            old(self)@.wf(),
        ensures
            final(self)@ == old(self)@.markers_cleared(),
            final(self)@.wf(),
    {
        if self.reel.markers.len() == 0 {
            return;
        }
        self.push_undo("");
        self.reel.markers = Vec::new();
        proof {
            reveal(crate::model::markers_ok);
        }
        self.status = "Markers cleared.".to_owned();
    }

    /// The bed to look for beats in; where there is none, the status line says so.
    pub fn beat_target(&mut self) -> (r: Option<AudioItem>)
        requires
            old(self)@.wf(),
        ensures
            r == old(self)@.beat_bed(),
            final(self)@ == old(self)@.says(
                if r is Some {
                    "Analysing music for beats…"@
                } else {
                    "Add a music bed on A1 (or select an audio item) first."@
                },
            ),
            final(self)@.wf(),
            r matches Some(a) ==> a.wf(),
    {
        let ghost was = self@;
        let r: Option<AudioItem> = match self.selected {
            Some(Sel::Aud(k)) => {
                proof {
                    crate::model::lemma_audios_ok_at(was.reel.audios, k as int);
                }
                Some(self.reel.audios[k].clone())
            },
            _ => {
                let mut found: Option<AudioItem> = None;
                let mut i: usize = 0;
                while i < self.reel.audios.len() && found.is_none()
                    invariant
                        i <= self.reel.audios@.len(),
                        self@ == was,
                        was.wf(),
                        match found {
                            None => first_on_a1(was.reel.audios, 0) == first_on_a1(was.reel.audios, i as int),
                            Some(a) => first_on_a1(was.reel.audios, 0) == Some(a) && a.wf(),
                        },
                    decreases self.reel.audios@.len() - i,
                {
                    if self.reel.audios[i].lane == 1 {
                        proof {
                            crate::model::lemma_audios_ok_at(was.reel.audios, i as int);
                        }
                        found = Some(self.reel.audios[i].clone());
                    }
                    i += 1;
                }
                found
            },
        };
        self.status = if r.is_some() {
            "Analysing music for beats…".to_owned()
        } else {
            "Add a music bed on A1 (or select an audio item) first.".to_owned()
        };
        r
    }

    /// Beats of a bed were found: those that are heard become the markers.
    pub fn land_beats(&mut self, a: &AudioItem, bpm: u32, beats: &Vec<Time>)
        requires
            old(self)@.wf(),
            a.wf(),
            forall|i: int| 0 <= i < beats@.len() ==> in_source(#[trigger] beats@[i]),
        ensures
            final(self)@.wf(),
            lands_beats(old(self)@, *a, bpm, beats@, final(self)@),
    {
        let ghost was = self@;
        let ghost heard = reel_beats(*a, beats@, beats@.len() as int);
        let mut m: Vec<Time> = Vec::new();
        let mut i: usize = 0;
        proof {
            reveal(crate::model::markers_ok);
        }
        while i < beats.len()
            invariant
                i <= beats@.len(),
                a.wf(),
                forall|k: int| 0 <= k < beats@.len() ==> in_source(#[trigger] beats@[k]),
                m@ == reel_beats(*a, beats@, i as int),
                crate::model::markers_ok(m@),
            decreases beats@.len() - i,
        {
            assert(in_source(beats@[i as int]));
            let t: Time = a.at + (beats[i] - a.in_s);
            if t >= a.at - SAME && t <= a.at + (a.out_s - a.in_s) + SAME {
                let p: Time = place(t);
                proof {
                    crate::model::lemma_markers_ok(m@, 0, p);
                }
                m.push(p);
            }
            i += 1;
        }
        if m.len() == 0 {
            self.status = "No beats found in that clip.".to_owned();
            return;
        }
        self.push_undo("");
        sort_times(&mut m);
        proof {
            lemma_in_order_ok(m@, heard);
        }
        let ghost gm = m@;
        let n: usize = m.len();
        self.reel.markers = m;
        self.status = cat4(
            decimal(n as u128).as_str(),
            " beat markers at ~",
            decimal(bpm as u128).as_str(),
            " BPM — drag items to snap to them, Shift+M clears.",
        );
        assert(in_order(gm, heard));
        assert(self@ == was.beats_set(gm, bpm));
    }
}

/// Law: what was copied is what is pasted, but for its place, its group and the
/// way into it.
pub proof fn law_paste_gives_back_the_copy(e: EditorView)
    requires
        e.wf(),
        e.copyable() is Some,
    ensures
        ({
            let r = e.reel;
            let p = e.copied().pasted();
            match e.selected {
                Some(Sel::Main(i)) => {
                    let k = slot(r.clips, e.playhead as int);
                    &&& 0 <= k <= r.clips.len()
                    &&& p.reel == (Reel {
                        clips: r.clips.insert(k, Clip { group: 0, transition: None, ..r.clips[i as int] }),
                        ..r
                    })
                },
                Some(Sel::Over(j)) => p.reel == (Reel {
                    overlays: r.overlays.push(OverlayItem { group: 0, at: e.playhead, ..r.overlays[j as int] }),
                    ..r
                }),
                Some(Sel::Aud(k)) => p.reel == (Reel {
                    audios: r.audios.push(AudioItem { group: 0, at: e.playhead, ..r.audios[k as int] }),
                    ..r
                }),
                Some(Sel::Title(k)) => p.reel == (Reel {
                    titles: r.titles.push(
                        TitleView { group: 0, at: e.playhead, pngs: Seq::empty(), ..r.titles[k as int] },
                    ),
                    ..r
                }),
                _ => false,
            }
        }),
{
    reveal(EditorView::pushed);
    lemma_slot(e.reel.clips, e.playhead as int, 0);
}

/// Law: a copy changes nothing on the reel; the clipboard holds the selected item and
/// keeps it whatever becomes of the selection.
pub proof fn law_copy(e: EditorView)
    ensures
        ({
            let f = e.copied();
            &&& f == (EditorView { clipboard: f.clipboard, status: f.status, ..e })
            &&& e.selected matches Some(Sel::Main(i)) ==> f.clipboard == Some(ClipboardView::Main(e.reel.clips[i as int]))
            &&& e.selected matches Some(Sel::Over(i)) ==> f.clipboard == Some(
                ClipboardView::Over(e.reel.overlays[i as int]),
            )
            &&& e.selected matches Some(Sel::Aud(i)) ==> f.clipboard == Some(ClipboardView::Aud(e.reel.audios[i as int]))
            &&& e.selected matches Some(Sel::Title(i)) ==> f.clipboard == Some(
                ClipboardView::Title(e.reel.titles[i as int]),
            )
            &&& e.selected is None || e.selected->0 is Adjust ==> f.clipboard == e.clipboard
        }),
{
}

/// Law: a paste adds one item: a clip in front of the first whose middle lies behind
/// the playhead, anything else at the playhead, behind what its lane holds. The new
/// item is selected, belongs to no group, and everything that was there stays.
pub proof fn law_paste(e: EditorView)
    ensures
        ({
            let f = e.pasted();
            let a = e.reel;
            let b = f.reel;
            &&& f.clipboard == e.clipboard && f.playhead == e.playhead
            &&& e.clipboard is None ==> b == a && f.undo == e.undo
            &&& e.clipboard is Some ==> one_edit(e, f)
            &&& e.clipboard matches Some(ClipboardView::Main(c)) ==> {
                let k = slot(a.clips, e.playhead as int);
                &&& put_in(a.clips, b.clips, k) && b == (Reel { clips: b.clips, ..a })
                &&& b.clips[k] == (Clip { group: 0, transition: None, ..c })
                &&& f.selected == Some(Sel::Main(k as usize))
            }
            &&& e.clipboard matches Some(ClipboardView::Over(c)) ==> {
                let k = a.overlays.len() as int;
                &&& put_in(a.overlays, b.overlays, k) && b == (Reel { overlays: b.overlays, ..a })
                &&& b.overlays[k] == (OverlayItem { group: 0, at: e.playhead, ..c })
                &&& f.selected == Some(Sel::Over(k as usize))
            }
            &&& e.clipboard matches Some(ClipboardView::Aud(c)) ==> {
                let k = a.audios.len() as int;
                &&& put_in(a.audios, b.audios, k) && b == (Reel { audios: b.audios, ..a })
                &&& b.audios[k] == (AudioItem { group: 0, at: e.playhead, ..c })
                &&& f.selected == Some(Sel::Aud(k as usize))
            }
            &&& e.clipboard matches Some(ClipboardView::Title(c)) ==> {
                let k = a.titles.len() as int;
                &&& put_in(a.titles, b.titles, k) && b == (Reel { titles: b.titles, ..a })
                &&& b.titles[k] == (TitleView { group: 0, at: e.playhead, pngs: Seq::empty(), ..c })
                &&& f.selected == Some(Sel::Title(k as usize))
            }
        }),
{
    reveal(EditorView::pushed);
    reveal_strlit("");
    crate::track::law_slot(e.reel.clips, e.playhead as int);
}

/// Law: a marker goes to the playhead unless one is within a fiftieth of a second; the
/// markers that were there stay, and they stand in order.
pub proof fn law_marker(e: EditorView, m: Seq<Time>)
    requires
        in_order(m, e.reel.markers.push(e.playhead)),
    ensures
        ({
            let f = e.marker_dropped(m);
            &&& one_edit(e, f)
            &&& f.reel == (Reel { markers: f.reel.markers, ..e.reel })
            &&& f.reel.markers.len() == e.reel.markers.len() + 1
            &&& f.reel.markers.contains(e.playhead)
            &&& forall|t: Time| e.reel.markers.contains(t) ==> #[trigger] f.reel.markers.contains(t)
            &&& forall|i: int, j: int| 0 <= i <= j < f.reel.markers.len() ==> f.reel.markers[i] <= f.reel.markers[j]
        }),
        forall|t: Time|
            #[trigger] on_a_marker(e.reel.markers, t) <==> exists|i: int|
                0 <= i < e.reel.markers.len() && -crate::time::SECOND < 50 * ((#[trigger] e.reel.markers[i]) - t)
                    < crate::time::SECOND,
        ({
            let f = e.markers_cleared();
            &&& f.reel.markers.len() == 0
            &&& f.reel == (Reel { markers: f.reel.markers, ..e.reel })
            &&& e.reel.markers.len() > 0 ==> one_edit(e, f)
            &&& e.reel.markers.len() == 0 ==> f == e
        }),
{
    reveal(EditorView::pushed);
    reveal_strlit("");
    let was = e.reel.markers.push(e.playhead);
    was.to_multiset_ensures();
    m.to_multiset_ensures();
    assert(m.len() == was.len()) by {
        assert(m.to_multiset().len() == was.to_multiset().len());
    }
    assert(was[was.len() - 1] == e.playhead);
    assert(was.contains(e.playhead));
    assert(m.to_multiset().count(e.playhead) > 0);
    assert(m.contains(e.playhead));
    assert forall|t: Time| e.reel.markers.contains(t) implies #[trigger] m.contains(t) by {
        let k = choose|k: int| 0 <= k < e.reel.markers.len() && e.reel.markers[k] == t;
        assert(was[k] == t);
        assert(was.contains(t));
        assert(m.to_multiset().count(t) > 0);
    }
    assert forall|t: Time|
        #[trigger] on_a_marker(e.reel.markers, t) <==> exists|i: int|
            0 <= i < e.reel.markers.len() && -crate::time::SECOND < 50 * ((#[trigger] e.reel.markers[i]) - t)
                < crate::time::SECOND by {
        if on_a_marker(e.reel.markers, t) {
            let i = choose|i: int|
                0 <= i < e.reel.markers.len() && crate::edges::apart((#[trigger] e.reel.markers[i]) as int, t as int)
                    < SAME_BEAT;
            assert(-crate::time::SECOND < 50 * (e.reel.markers[i] - t) < crate::time::SECOND);
        }
        if exists|i: int|
            0 <= i < e.reel.markers.len() && -crate::time::SECOND < 50 * ((#[trigger] e.reel.markers[i]) - t)
                < crate::time::SECOND {
            let i = choose|i: int|
                0 <= i < e.reel.markers.len() && -crate::time::SECOND < 50 * ((#[trigger] e.reel.markers[i]) - t)
                    < crate::time::SECOND;
            assert(crate::edges::apart(e.reel.markers[i] as int, t as int) < SAME_BEAT);
        }
    }
}

/// Law: a beat is marked where the bed plays it: as far behind the bed's start as the
/// beat lies behind its in point. Beats outside what the bed plays are left out, and
/// the others keep their order.
pub proof fn law_beats(a: AudioItem, beats: Seq<Time>, n: int)
    requires
        a.wf(),
        0 <= n < beats.len(),
        in_source(beats[n]),
    ensures
        reel_beats(a, beats, 0).len() == 0,
        a.in_s <= beats[n] <= a.out_s ==> reel_beats(a, beats, n + 1) == reel_beats(a, beats, n).push(
            placed(a.at + (beats[n] - a.in_s)) as Time,
        ),
        beats[n] < a.in_s - 3 || beats[n] > a.out_s + 3 ==> reel_beats(a, beats, n + 1) == reel_beats(a, beats, n),
{
}

/// Law: beats are sought in the selected bed, or else in the first on A1.
pub proof fn law_beat_bed(e: EditorView)
    ensures
        e.selected matches Some(Sel::Aud(k)) ==> e.beat_bed() == Some(e.reel.audios[k as int]),
        !(e.selected matches Some(Sel::Aud(_))) ==> match e.beat_bed() {
            None => forall|k: int| 0 <= k < e.reel.audios.len() ==> (#[trigger] e.reel.audios[k]).lane != 1,
            Some(a) => exists|k: int|
                0 <= k < e.reel.audios.len() && #[trigger] e.reel.audios[k] == a && a.lane == 1 && forall|j: int|
                    0 <= j < k ==> (#[trigger] e.reel.audios[j]).lane != 1,
        },
{
    lemma_first_on_a1(e.reel.audios, 0);
}

proof fn lemma_first_on_a1(s: Seq<AudioItem>, n: int)
    requires
        0 <= n <= s.len(),
        forall|j: int| 0 <= j < n ==> (#[trigger] s[j]).lane != 1,
    ensures
        match first_on_a1(s, n) {
            None => forall|k: int| 0 <= k < s.len() ==> (#[trigger] s[k]).lane != 1,
            Some(a) => exists|k: int|
                0 <= k < s.len() && #[trigger] s[k] == a && a.lane == 1 && forall|j: int|
                    0 <= j < k ==> (#[trigger] s[j]).lane != 1,
        },
    decreases s.len() - n,
{
    if n < s.len() && s[n].lane != 1 {
        lemma_first_on_a1(s, n + 1);
    }
}

/// The marker key was pressed.
pub open spec fn drops_marker(e: EditorView, f: EditorView) -> bool {
    if on_a_marker(e.reel.markers, e.playhead) {
        f == e
    } else {
        exists|m: Seq<Time>| #[trigger] in_order(m, e.reel.markers.push(e.playhead)) && f == e.marker_dropped(m)
    }
}

/// The beats of a bed were found.
pub open spec fn lands_beats(e: EditorView, a: AudioItem, bpm: u32, beats: Seq<Time>, f: EditorView) -> bool {
    let heard = reel_beats(a, beats, beats.len() as int);
    if heard.len() == 0 {
        f == e.says("No beats found in that clip."@)
    } else {
        exists|m: Seq<Time>| #[trigger] in_order(m, heard) && f == e.beats_set(m, bpm)
    }
}

/// Law: the marker key leaves a marker at the playhead, or one within a fiftieth of a
/// second that was there already; it never takes one away.
pub proof fn law_marker_key(e: EditorView, f: EditorView)
    requires
        drops_marker(e, f),
    ensures
        f.reel == (Reel { markers: f.reel.markers, ..e.reel }),
        on_a_marker(f.reel.markers, e.playhead),
        forall|t: Time| e.reel.markers.contains(t) ==> #[trigger] f.reel.markers.contains(t),
        f.reel.markers.len() == e.reel.markers.len() || f.reel.markers.len() == e.reel.markers.len() + 1,
        f.reel.markers.len() > e.reel.markers.len() ==> one_edit(e, f) && f.reel.markers.contains(e.playhead),
{
    if !on_a_marker(e.reel.markers, e.playhead) {
        let m = choose|m: Seq<Time>| #[trigger]
            in_order(m, e.reel.markers.push(e.playhead)) && f == e.marker_dropped(m);
        law_marker(e, m);
        let k = choose|k: int| 0 <= k < f.reel.markers.len() && f.reel.markers[k] == e.playhead;
        assert(crate::edges::apart(f.reel.markers[k] as int, e.playhead as int) < SAME_BEAT);
    }
}

/// Law: the beats of a bed replace the markers, in order and one for each that the bed
/// plays; a bed without any leaves them.
pub proof fn law_beats_become_markers(e: EditorView, a: AudioItem, bpm: u32, beats: Seq<Time>, f: EditorView)
    requires
        lands_beats(e, a, bpm, beats, f),
    ensures
        f.reel == (Reel { markers: f.reel.markers, ..e.reel }),
        ({
            let heard = reel_beats(a, beats, beats.len() as int);
            &&& heard.len() == 0 ==> f.reel == e.reel && f.undo == e.undo
            &&& heard.len() > 0 ==> {
                &&& one_edit(e, f)
                &&& f.reel.markers.len() == heard.len()
                &&& forall|t: Time| heard.contains(t) <==> #[trigger] f.reel.markers.contains(t)
                &&& forall|i: int, j: int| 0 <= i <= j < f.reel.markers.len() ==> f.reel.markers[i] <= f.reel.markers[j]
            }
        }),
{
    reveal(EditorView::pushed);
    reveal_strlit("");
    let heard = reel_beats(a, beats, beats.len() as int);
    if heard.len() > 0 {
        let m = choose|m: Seq<Time>| #[trigger] in_order(m, heard) && f == e.beats_set(m, bpm);
        heard.to_multiset_ensures();
        m.to_multiset_ensures();
        assert(m.len() == heard.len()) by {
            assert(m.to_multiset().len() == heard.to_multiset().len());
        }
        assert forall|t: Time| heard.contains(t) <==> #[trigger] m.contains(t) by {
            assert(heard.contains(t) <==> heard.to_multiset().count(t) > 0);
            assert(m.contains(t) <==> m.to_multiset().count(t) > 0);
        }
    }
}

} // verus!
