//! Switches of single items: mute, disable and solo; and putting one item in its
//! place.

use crate::editor::{one_edit, same_but, Editor, EditorView};
use crate::model::{
    cards, AdjustmentItem, AudioItem, Clip, OverlayItem, Reel, Sel, TitleItem, TitleView,
};
use crate::sound::unsoloed;
use crate::text::cat2;
use crate::time::Time;
use vstd::prelude::*;

verus! {

impl EditorView {
    /// With clip `i` as it is given.
    pub open spec fn put_main(self, i: int, c: Clip) -> EditorView {
        EditorView { reel: Reel { clips: self.reel.clips.update(i, c), ..self.reel }, ..self }
    }

    pub open spec fn put_over(self, i: int, o: OverlayItem) -> EditorView {
        EditorView { reel: Reel { overlays: self.reel.overlays.update(i, o), ..self.reel }, ..self }
    }

    pub open spec fn put_aud(self, i: int, a: AudioItem) -> EditorView {
        EditorView { reel: Reel { audios: self.reel.audios.update(i, a), ..self.reel }, ..self }
    }

    pub open spec fn put_title(self, i: int, t: TitleView) -> EditorView {
        EditorView { reel: Reel { titles: self.reel.titles.update(i, t), ..self.reel }, ..self }
    }

    pub open spec fn put_adjust(self, i: int, a: AdjustmentItem) -> EditorView {
        EditorView { reel: Reel { adjustments: self.reel.adjustments.update(i, a), ..self.reel }, ..self }
    }

    /// With the monitor to be drawn again where it is.
    pub open spec fn reseeks(self) -> EditorView {
        self.sought(self.playhead as int)
    }

    /// After the selected item was muted, or unmuted where it was silent.
    pub open spec fn muted(self) -> EditorView {
        let e = self.pushed(""@);
        match self.selected {
            Some(Sel::Main(i)) => {
                let c = self.reel.clips[i as int];
                if !c.has_audio {
                    e.says(c.name@ + " has no audio to mute."@)
                } else if c.volume <= 1 {
                    e.put_main(i as int, Clip { volume: 1000, ..c }).says(c.name@ + " unmuted."@)
                } else {
                    e.put_main(i as int, Clip { volume: 0, ..c }).says(c.name@ + " muted."@)
                }
            },
            Some(Sel::Aud(k)) => {
                let a = self.reel.audios[k as int];
                if a.volume <= 1 {
                    e.put_aud(k as int, AudioItem { volume: 1000, vol_end: None, ..a }).says(a.name@ + " unmuted."@)
                } else {
                    e.put_aud(k as int, AudioItem { volume: 0, vol_end: None, ..a }).says(a.name@ + " muted."@)
                }
            },
            _ => self.says("Select a V1 clip or A-lane bed to mute."@),
        }
    }

    /// After the selected item was switched on or off.
    pub open spec fn disable_toggled(self) -> EditorView {
        let e = self.pushed(""@);
        match self.selected {
            Some(Sel::Main(i)) => {
                let c = self.reel.clips[i as int];
                e.put_main(i as int, Clip { enabled: !c.enabled, ..c }).says(
                    c.name@ + if c.enabled {
                        " disabled — dimmed on the timeline, invisible and silent."@
                    } else {
                        " enabled — back in preview and export."@
                    },
                ).sought(self.playhead as int)
            },
            Some(Sel::Over(j)) => {
                let o = self.reel.overlays[j as int];
                e.put_over(j as int, OverlayItem { enabled: !o.enabled, ..o }).says(
                    o.name@ + if o.enabled { " disabled — cutaway hidden."@ } else { " enabled."@ },
                ).sought(self.playhead as int)
            },
            Some(Sel::Aud(k)) => {
                let a = self.reel.audios[k as int];
                e.put_aud(k as int, AudioItem { enabled: !a.enabled, ..a }).says(
                    a.name@ + if a.enabled { " disabled — silent."@ } else { " enabled."@ },
                )
            },
            Some(Sel::Title(k)) => {
                let t = self.reel.titles[k as int];
                e.put_title(k as int, TitleView { enabled: !t.enabled, ..t }).says(
                    if t.enabled { "Title disabled — not composited."@ } else { "Title enabled."@ },
                ).sought(self.playhead as int)
            },
            Some(Sel::Adjust(k)) => {
                let a = self.reel.adjustments[k as int];
                e.put_adjust(k as int, AdjustmentItem { enabled: !a.enabled, ..a }).says(
                    if a.enabled {
                        "Adjustment layer disabled — its look drops out."@
                    } else {
                        "Adjustment layer enabled."@
                    },
                ).sought(self.playhead as int)
            },
            None => self.says("Select a clip, cutaway, bed, title or FX layer to disable."@),
        }
    }

    /// After the selected item was soloed. A second press on the same item clears
    /// every solo.
    pub open spec fn solo_toggled(self) -> EditorView {
        let e = self.pushed(""@);
        match self.selected {
            Some(Sel::Main(i)) => {
                let c = self.reel.clips[i as int];
                if c.solo {
                    EditorView { reel: unsoloed(self.reel), ..e }.says(c.name@ + " unsoloed."@)
                } else {
                    e.put_main(i as int, Clip { solo: true, ..c }).says(
                        c.name@ + " soloed — other audio silent; non-soloed clips in B&W."@,
                    )
                }.sought(self.playhead as int)
            },
            Some(Sel::Over(j)) => {
                let o = self.reel.overlays[j as int];
                if o.solo {
                    EditorView { reel: unsoloed(self.reel), ..e }.says(o.name@ + " unsoloed."@)
                } else {
                    e.put_over(j as int, OverlayItem { solo: true, ..o }).says(o.name@ + " soloed."@)
                }.sought(self.playhead as int)
            },
            Some(Sel::Aud(k)) => {
                let a = self.reel.audios[k as int];
                if a.solo {
                    EditorView { reel: unsoloed(self.reel), ..e }.says(a.name@ + " unsoloed."@)
                } else {
                    e.put_aud(k as int, AudioItem { solo: true, ..a }).says(a.name@ + " soloed — only soloed beds play."@)
                }
            },
            _ => self.says("Select a clip, cutaway or bed to solo."@),
        }
    }
}

impl Clip {
    fn with_volume(&self, v: u32) -> (r: Clip)
        ensures
            r == (Clip { volume: v, ..*self }),
    {
        let mut c: Clip = self.clone();
        c.volume = v;
        c
    }

    fn with_enabled(&self, on: bool) -> (r: Clip)
        ensures
            r == (Clip { enabled: on, ..*self }),
    {
        let mut c: Clip = self.clone();
        c.enabled = on;
        c
    }

    fn with_solo(&self, on: bool) -> (r: Clip)
        ensures
            r == (Clip { solo: on, ..*self }),
    {
        let mut c: Clip = self.clone();
        c.solo = on;
        c
    }
}

impl OverlayItem {
    fn with_enabled(&self, on: bool) -> (r: OverlayItem)
        ensures
            r == (OverlayItem { enabled: on, ..*self }),
    {
        let mut o: OverlayItem = self.clone();
        o.enabled = on;
        o
    }

    fn with_solo(&self, on: bool) -> (r: OverlayItem)
        ensures
            r == (OverlayItem { solo: on, ..*self }),
    {
        let mut o: OverlayItem = self.clone();
        o.solo = on;
        o
    }
}

impl AudioItem {
    fn with_volume(&self, v: u32) -> (r: AudioItem)
        ensures
            r == (AudioItem { volume: v, vol_end: None, ..*self }),
    {
        let mut a: AudioItem = self.clone();
        a.volume = v;
        a.vol_end = None;
        a
    }

    fn with_enabled(&self, on: bool) -> (r: AudioItem)
        ensures
            r == (AudioItem { enabled: on, ..*self }),
    {
        let mut a: AudioItem = self.clone();
        a.enabled = on;
        a
    }

    fn with_solo(&self, on: bool) -> (r: AudioItem)
        ensures
            r == (AudioItem { solo: on, ..*self }),
    {
        let mut a: AudioItem = self.clone();
        a.solo = on;
        a
    }
}

impl Editor {
    pub(crate) fn set_main(&mut self, i: usize, c: Clip)
        requires
            old(self)@.wf(),
            i < old(self).reel.clips.len(),
            c.wf(),
        ensures
            final(self)@ == old(self)@.put_main(i as int, c),
            final(self)@.wf(),
    {
        let ghost was = self@;
        self.reel.clips[i] = c;
        proof {
            crate::model::lemma_sound(was.reel.clips, i as int, c);
        }
        assert(self.reel.clips@ =~= was.reel.clips.update(i as int, c));
    }

    pub(crate) fn set_over(&mut self, i: usize, o: OverlayItem)
        requires
            old(self)@.wf(),
            i < old(self).reel.overlays.len(),
            o.wf(),
        ensures
            final(self)@ == old(self)@.put_over(i as int, o),
            final(self)@.wf(),
    {
        let ghost was = self@;
        self.reel.overlays[i] = o;
        proof {
            crate::model::lemma_overlays_ok(was.reel.overlays, i as int, o);
        }
        assert(self.reel.overlays@ =~= was.reel.overlays.update(i as int, o));
    }

    pub(crate) fn set_aud(&mut self, i: usize, a: AudioItem)
        requires
            old(self)@.wf(),
            i < old(self).reel.audios.len(),
            a.wf(),
        ensures
            final(self)@ == old(self)@.put_aud(i as int, a),
            final(self)@.wf(),
    {
        let ghost was = self@;
        self.reel.audios[i] = a;
        proof {
            crate::model::lemma_audios_ok(was.reel.audios, i as int, a);
        }
        assert(self.reel.audios@ =~= was.reel.audios.update(i as int, a));
    }

    pub(crate) fn set_title(&mut self, i: usize, t: TitleItem)
        requires
            old(self)@.wf(),
            i < old(self).reel.titles.len(),
            t@.wf(),
        ensures
            final(self)@ == old(self)@.put_title(i as int, t@),
            final(self)@.wf(),
    {
        let ghost was = self@;
        self.reel.titles[i] = t;
        proof {
            crate::model::lemma_titles_ok(was.reel.titles, i as int, t@);
        }
        assert(cards(self.reel.titles@) =~= was.reel.titles.update(i as int, t@));
    }

    pub(crate) fn set_adjust(&mut self, i: usize, a: AdjustmentItem)
        requires
            old(self)@.wf(),
            i < old(self).reel.adjustments.len(),
            a.wf(),
        ensures
            final(self)@ == old(self)@.put_adjust(i as int, a),
            final(self)@.wf(),
    {
        let ghost was = self@;
        self.reel.adjustments[i] = a;
        proof {
            crate::model::lemma_adjustments_ok(was.reel.adjustments, i as int, a);
        }
        assert(self.reel.adjustments@ =~= was.reel.adjustments.update(i as int, a));
    }

    /// Mute the selected clip or bed, or unmute it.
    pub fn mute_sel(&mut self)
        requires
            old(self)@.wf(),
        ensures
            final(self)@ == old(self)@.muted(),
            final(self)@.wf(),
    {
        let ghost was = self@;
        match self.selected {
            Some(Sel::Main(i)) => {
                proof {
                    crate::model::lemma_sound_at(was.reel.clips, i as int);
                }
                self.push_undo("");
                let c: Clip = self.reel.clips[i].clone();
                let (to, word): (u32, &str) = if c.volume <= 1 { (1000, " unmuted.") } else { (0, " muted.") };
                if !c.has_audio {
                    self.status = cat2(c.name.as_str(), " has no audio to mute.");
                    return;
                }
                self.set_main(i, c.with_volume(to));
                self.status = cat2(c.name.as_str(), word);
            },
            Some(Sel::Aud(k)) => {
                proof {
                    crate::model::lemma_audios_ok_at(was.reel.audios, k as int);
                }
                self.push_undo("");
                let a: AudioItem = self.reel.audios[k].clone();
                let (to, word): (u32, &str) = if a.volume <= 1 { (1000, " unmuted.") } else { (0, " muted.") };
                self.set_aud(k, a.with_volume(to));
                self.status = cat2(a.name.as_str(), word);
            },
            _ => {
                self.status = "Select a V1 clip or A-lane bed to mute.".to_owned();
            },
        }
    }

    /// Switch the selected item off, or on again: it stays on the timeline, but
    /// is neither seen nor heard.
    pub fn toggle_disable_sel(&mut self)
        requires
            old(self)@.wf(),
        ensures
            final(self)@ == old(self)@.disable_toggled(),
            final(self)@.wf(),
    {
        let ghost was = self@;
        let t: Time = self.playhead;
        match self.selected {
            Some(Sel::Main(i)) => {
                proof {
                    crate::model::lemma_sound_at(was.reel.clips, i as int);
                }
                self.push_undo("");
                let c: Clip = self.reel.clips[i].clone();
                self.set_main(i, c.with_enabled(!c.enabled));
                self.status = cat2(
                    c.name.as_str(),
                    if c.enabled {
                        " disabled — dimmed on the timeline, invisible and silent."
                    } else {
                        " enabled — back in preview and export."
                    },
                );
                self.seek_to(t);
            },
            Some(Sel::Over(j)) => {
                proof {
                    crate::model::lemma_overlays_ok_at(was.reel.overlays, j as int);
                }
                self.push_undo("");
                let o: OverlayItem = self.reel.overlays[j].clone();
                self.set_over(j, o.with_enabled(!o.enabled));
                self.status = cat2(
                    o.name.as_str(),
                    if o.enabled { " disabled — cutaway hidden." } else { " enabled." },
                );
                self.seek_to(t);
            },
            Some(Sel::Aud(k)) => {
                proof {
                    crate::model::lemma_audios_ok_at(was.reel.audios, k as int);
                }
                self.push_undo("");
                let a: AudioItem = self.reel.audios[k].clone();
                self.set_aud(k, a.with_enabled(!a.enabled));
                self.status = cat2(a.name.as_str(), if a.enabled { " disabled — silent." } else { " enabled." });
            },
            Some(Sel::Title(k)) => {
                proof {
                    crate::model::lemma_titles_ok_at(was.reel.titles, k as int);
                }
                self.push_undo("");
                let mut card: TitleItem = self.reel.titles[k].clone();
                let on: bool = card.enabled;
                card.enabled = !on;
                self.set_title(k, card);
                self.status = if on {
                    "Title disabled — not composited.".to_owned()
                } else {
                    "Title enabled.".to_owned()
                };
                self.seek_to(t);
            },
            Some(Sel::Adjust(k)) => {
                proof {
                    crate::model::lemma_adjustments_ok_at(was.reel.adjustments, k as int);
                }
                self.push_undo("");
                let mut a: AdjustmentItem = self.reel.adjustments[k].clone();
                let on: bool = a.enabled;
                a.enabled = !on;
                self.set_adjust(k, a);
                self.status = if on {
                    "Adjustment layer disabled — its look drops out.".to_owned()
                } else {
                    "Adjustment layer enabled.".to_owned()
                };
                self.seek_to(t);
            },
            None => {
                self.status = "Select a clip, cutaway, bed, title or FX layer to disable.".to_owned();
            },
        }
    }

    fn unsolo_all(&mut self)
        requires
            old(self)@.wf(),
        ensures
            final(self)@ == (EditorView { reel: unsoloed(old(self)@.reel), ..old(self)@ }),
            final(self)@.wf(),
    {
        proof {
            reveal(unsoloed);
        }
        self.reel.unsolo();
    }

    /// Solo the selected item; a second press on the same item clears every solo.
    pub fn toggle_solo_sel(&mut self)
        requires
            old(self)@.wf(),
        ensures
            final(self)@ == old(self)@.solo_toggled(),
            final(self)@.wf(),
    {
        let ghost was = self@;
        let t: Time = self.playhead;
        match self.selected {
            Some(Sel::Main(i)) => {
                proof {
                    crate::model::lemma_sound_at(was.reel.clips, i as int);
                }
                self.push_undo("");
                let c: Clip = self.reel.clips[i].clone();
                if c.solo {
                    self.unsolo_all();
                    self.status = cat2(c.name.as_str(), " unsoloed.");
                } else {
                    self.set_main(i, c.with_solo(true));
                    self.status = cat2(c.name.as_str(), " soloed — other audio silent; non-soloed clips in B&W.");
                }
                self.seek_to(t);
            },
            Some(Sel::Over(j)) => {
                proof {
                    crate::model::lemma_overlays_ok_at(was.reel.overlays, j as int);
                }
                self.push_undo("");
                let o: OverlayItem = self.reel.overlays[j].clone();
                if o.solo {
                    self.unsolo_all();
                    self.status = cat2(o.name.as_str(), " unsoloed.");
                } else {
                    self.set_over(j, o.with_solo(true));
                    self.status = cat2(o.name.as_str(), " soloed.");
                }
                self.seek_to(t);
            },
            Some(Sel::Aud(k)) => {
                proof {
                    crate::model::lemma_audios_ok_at(was.reel.audios, k as int);
                }
                self.push_undo("");
                let a: AudioItem = self.reel.audios[k].clone();
                if a.solo {
                    self.unsolo_all();
                    self.status = cat2(a.name.as_str(), " unsoloed.");
                } else {
                    self.set_aud(k, a.with_solo(true));
                    self.status = cat2(a.name.as_str(), " soloed — only soloed beds play.");
                }
            },
            _ => {
                self.status = "Select a clip, cutaway or bed to solo.".to_owned();
            },
        }
    }
}

/// Law: whatever else is soloed, a second press on an item leaves nothing soloed.
pub proof fn law_second_press_clears_solo(e: EditorView)
    requires
        e.wf(),
        match e.selected {
            Some(Sel::Main(i)) => e.reel.clips[i as int].solo,
            Some(Sel::Over(j)) => e.reel.overlays[j as int].solo,
            Some(Sel::Aud(k)) => e.reel.audios[k as int].solo,
            _ => false,
        },
    ensures
        !e.solo_toggled().any_solo_flag(),
{
    reveal(unsoloed);
}

/// Law: mute takes the sound of the selected clip or bed away and, pressed again,
/// brings it back at full level; it touches no other item. A clip without sound is left
/// alone.
pub proof fn law_mute(e: EditorView)
    requires
        e.selected matches Some(s) ==> e.reel.has(s),
    ensures
        ({
            let f = e.muted();
            let a = e.reel;
            let b = f.reel;
            &&& e.selected matches Some(Sel::Main(i)) ==> {
                let c = a.clips[i as int];
                let d = b.clips[i as int];
                &&& one_edit(e, f)
                &&& b == (Reel { clips: b.clips, ..a })
                &&& same_but(a.clips, b.clips, i as int)
                &&& d == (Clip { volume: d.volume, ..c })
                &&& !c.has_audio ==> d == c
                &&& c.has_audio && c.volume > 1 ==> d.volume == 0 && f.muted().reel.clips[i as int].volume == 1000
                &&& c.has_audio && c.volume <= 1 ==> d.volume == 1000
            }
            &&& e.selected matches Some(Sel::Aud(k)) ==> {
                let c = a.audios[k as int];
                let d = b.audios[k as int];
                &&& one_edit(e, f)
                &&& b == (Reel { audios: b.audios, ..a })
                &&& same_but(a.audios, b.audios, k as int)
                &&& d == (AudioItem { volume: d.volume, vol_end: None, ..c })
                &&& c.volume > 1 ==> d.volume == 0 && f.muted().reel.audios[k as int].volume == 1000
                &&& c.volume <= 1 ==> d.volume == 1000
            }
            &&& !(e.selected matches Some(Sel::Main(_))) && !(e.selected matches Some(Sel::Aud(_))) ==> b == a && f.undo
                == e.undo
        }),
{
    reveal(EditorView::pushed);
    reveal_strlit("");
}

/// Law: disabling turns the selected item off and, pressed again, on; nothing else
/// about it changes, and no other item.
pub proof fn law_disable(e: EditorView)
    requires
        e.selected matches Some(s) ==> e.reel.has(s),
        !crate::editor::picture_phase(e.phase),
    ensures
        ({
            let f = e.disable_toggled();
            let a = e.reel;
            let b = f.reel;
            &&& e.selected is None ==> b == a && f.undo == e.undo
            &&& e.selected is Some ==> one_edit(e, f) && f.disable_toggled().reel == a
            &&& e.selected matches Some(Sel::Main(i)) ==> b == (Reel { clips: b.clips, ..a }) && same_but(
                a.clips,
                b.clips,
                i as int,
            ) && b.clips[i as int].enabled != a.clips[i as int].enabled
            &&& e.selected matches Some(Sel::Over(i)) ==> b == (Reel { overlays: b.overlays, ..a }) && same_but(
                a.overlays,
                b.overlays,
                i as int,
            ) && b.overlays[i as int].enabled != a.overlays[i as int].enabled
            &&& e.selected matches Some(Sel::Aud(i)) ==> b == (Reel { audios: b.audios, ..a }) && same_but(
                a.audios,
                b.audios,
                i as int,
            ) && b.audios[i as int].enabled != a.audios[i as int].enabled
            &&& e.selected matches Some(Sel::Title(i)) ==> b == (Reel { titles: b.titles, ..a }) && same_but(
                a.titles,
                b.titles,
                i as int,
            ) && b.titles[i as int].enabled != a.titles[i as int].enabled
            &&& e.selected matches Some(Sel::Adjust(i)) ==> b == (Reel { adjustments: b.adjustments, ..a }) && same_but(
                a.adjustments,
                b.adjustments,
                i as int,
            ) && b.adjustments[i as int].enabled != a.adjustments[i as int].enabled
        }),
{
    reveal(EditorView::pushed);
    reveal_strlit("");
    let a = e.reel;
    let g = e.disable_toggled().disable_toggled().reel;
    assert(g.clips =~= a.clips);
    assert(g.overlays =~= a.overlays);
    assert(g.audios =~= a.audios);
    assert(g.titles =~= a.titles);
    assert(g.adjustments =~= a.adjustments);
}

/// Law: soloing an item turns its solo on and leaves every other item as it is;
/// pressing it on a soloed item takes solo off everything.
pub proof fn law_solo(e: EditorView)
    requires
        e.selected matches Some(s) ==> e.reel.has(s),
    ensures
        ({
            let f = e.solo_toggled();
            let a = e.reel;
            let b = f.reel;
            &&& e.selected matches Some(Sel::Main(i)) ==> one_edit(e, f) && if a.clips[i as int].solo {
                nothing_soloed(b)
            } else {
                &&& same_but(a.clips, b.clips, i as int)
                &&& b.clips[i as int] == (Clip { solo: true, ..a.clips[i as int] })
                &&& b == (Reel { clips: b.clips, ..a })
            }
            &&& e.selected matches Some(Sel::Over(i)) ==> one_edit(e, f) && if a.overlays[i as int].solo {
                nothing_soloed(b)
            } else {
                &&& same_but(a.overlays, b.overlays, i as int)
                &&& b.overlays[i as int] == (OverlayItem { solo: true, ..a.overlays[i as int] })
                &&& b == (Reel { overlays: b.overlays, ..a })
            }
            &&& e.selected matches Some(Sel::Aud(i)) ==> one_edit(e, f) && if a.audios[i as int].solo {
                nothing_soloed(b)
            } else {
                &&& same_but(a.audios, b.audios, i as int)
                &&& b.audios[i as int] == (AudioItem { solo: true, ..a.audios[i as int] })
                &&& b == (Reel { audios: b.audios, ..a })
            }
            &&& e.selected is None || e.selected->0 is Title || e.selected->0 is Adjust ==> b == a && f.undo == e.undo
        }),
{
    reveal(EditorView::pushed);
    reveal(unsoloed);
    reveal_strlit("");
}

/// No clip, cutaway or bed is soloed.
pub open spec fn nothing_soloed(r: Reel) -> bool {
    &&& forall|i: int| 0 <= i < r.clips.len() ==> !(#[trigger] r.clips[i]).solo
    &&& forall|i: int| 0 <= i < r.overlays.len() ==> !(#[trigger] r.overlays[i]).solo
    &&& forall|i: int| 0 <= i < r.audios.len() ==> !(#[trigger] r.audios[i]).solo
}

} // verus!
