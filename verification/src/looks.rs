//! The look of the selected item: effect, grade, transform.

use crate::editor::{one_edit, same_but, ClipboardItem, ClipboardView, Editor, EditorView};
use crate::keyframes::Animated;
use crate::model::{AdjustmentItem, Clip, Look, OverlayItem, Reel, Sel, Transform};
use crate::text::same_text;
use crate::edges::{drag_source, dragged};
use crate::time::{
    between, greater, hold_between, in_source, on_axis, upper, Time, MIN_PIECE, SRC_MAX,
};
use crate::track::{run_length, run_of, run_time, start, start_of};
use vstd::prelude::*;

verus! {

/// How far from its end an item is still shown when its look changes.
pub const LAST_LOOK: Time = 3_000;

/// The effect that a name stands for: none for `None`.
pub open spec fn named_effect(name: String) -> Option<String> {
    if name@ == "None"@ { None } else { Some(name) }
}

fn effect_named(name: String) -> (r: Option<String>)
    ensures
        r == named_effect(name),
{
    if same_text(name.as_str(), "None") { None } else { Some(name) }
}

impl EditorView {
    /// The stretch of the reel the selected picture runs over.
    pub open spec fn sel_span(self) -> Option<(int, int)> {
        match self.selected {
            Some(Sel::Main(i)) => {
                let a = start(self.reel.clips, i as int);
                Some((a, a + run_time(self.reel.clips[i as int])))
            },
            Some(Sel::Over(j)) => {
                let o = self.reel.overlays[j as int];
                Some((o.at as int, o.at + run_of(o.in_s, o.out_s, o.speed)))
            },
            _ => None,
        }
    }

    /// With the monitor showing the selected item: at the playhead where that lies
    /// in it, or else at the nearer end.
    pub open spec fn looks(self) -> EditorView {
        let t = match self.sel_span() {
            Some((a, b)) => between(self.playhead as int, a, upper(b - LAST_LOOK, a)),
            None => self.playhead as int,
        };
        EditorView { stale: true, shown_at: t as Time, ..self }
    }

    /// The look of the selected picture or layer.
    pub open spec fn sel_look(self) -> Option<Look> {
        match self.selected {
            Some(Sel::Main(i)) => Some(self.reel.clips[i as int].look),
            Some(Sel::Over(j)) => Some(self.reel.overlays[j as int].look),
            _ => None,
        }
    }

    /// With another look on the selected picture.
    pub open spec fn with_sel_look(self, look: Look) -> EditorView {
        match self.selected {
            Some(Sel::Main(i)) => self.put_main(i as int, Clip { look, ..self.reel.clips[i as int] }),
            Some(Sel::Over(j)) => self.put_over(j as int, OverlayItem { look, ..self.reel.overlays[j as int] }),
            _ => self,
        }
    }

    /// With another grade on the selected picture or layer.
    pub open spec fn graded(self, grade: u32) -> EditorView {
        match self.selected {
            Some(Sel::Adjust(k)) => self.put_adjust(
                k as int,
                AdjustmentItem { grade, ..self.reel.adjustments[k as int] },
            ).looks(),
            _ => match self.sel_look() {
                Some(l) => self.with_sel_look(Look { grade, ..l }).looks(),
                None => self,
            },
        }
    }

    /// With another transform on the selected picture.
    pub open spec fn transformed(self, transform: Transform) -> EditorView {
        match self.sel_look() {
            Some(l) => self.with_sel_look(Look { transform, ..l }).looks(),
            None => self,
        }
    }

    /// After an effect was put on the selected picture or layer.
    pub open spec fn effect_applied(self, effect: Option<String>) -> EditorView {
        let e = self.pushed(""@);
        match self.selected {
            Some(Sel::Adjust(k)) => e.put_adjust(
                k as int,
                AdjustmentItem { effect, ..self.reel.adjustments[k as int] },
            ).looks(),
            _ => match self.sel_look() {
                Some(l) => e.with_sel_look(Look { effect, ..l }).looks(),
                None => e.says("Select a V1 clip, V2 overlay or FX layer to apply an effect."@),
            },
        }
    }

    /// After the effect of the selected picture or layer was made stronger or weaker.
    pub open spec fn amount_set(self, amount: u32) -> EditorView {
        let e = self.pushed("fx-amount"@);
        match self.selected {
            Some(Sel::Adjust(k)) => e.put_adjust(
                k as int,
                AdjustmentItem { effect_amount: amount, ..self.reel.adjustments[k as int] },
            ).looks(),
            _ => match self.sel_look() {
                Some(l) => e.with_sel_look(Look { effect_amount: amount, ..l }).looks(),
                None => e,
            },
        }
    }

    /// After the look on the clipboard was put on the selected picture.
    pub open spec fn look_pasted(self) -> EditorView {
        match self.clipboard {
            None => self.says("Copy a clip or cutaway first (Ctrl+C), then paste its look."@),
            Some(item) => match clipboard_look(item) {
                None => self.says(
                    "The clipboard holds audio or a title — copy a clip or cutaway to paste a look."@,
                ),
                Some(look) => if self.sel_look() is Some {
                    self.pushed(""@).with_sel_look(look).sought(self.playhead as int).says(
                        "Pasted look — transform, grade and effect."@,
                    )
                } else {
                    self.pushed(""@).says("Select a V1 clip or V2 cutaway to paste the look onto."@)
                },
            },
        }
    }

    /// After the look of the selected picture or layer went back to plain.
    pub open spec fn look_reset(self) -> EditorView {
        let e = self.pushed(""@);
        match self.selected {
            Some(Sel::Adjust(k)) => e.put_adjust(
                k as int,
                AdjustmentItem {
                    grade: 0,
                    effect: None,
                    effect_amount: 1000,
                    ..self.reel.adjustments[k as int]
                },
            ).sought(self.playhead as int).says("Reset look to default."@),
            _ => if self.sel_look() is Some {
                e.with_sel_look(Look::plain()).sought(self.playhead as int).says("Reset look to default."@)
            } else {
                e.says("Select a clip, cutaway or FX layer to reset its look."@)
            },
        }
    }

    /// After a slow push was put on the selected clip, or taken off.
    pub open spec fn ken_burns(self, on: bool) -> EditorView {
        match self.selected {
            Some(Sel::Main(i)) => {
                let c = self.reel.clips[i as int];
                let scale = if on {
                    Animated::sweep(1000, 1250, upper(c.out_s - c.in_s, MIN_PIECE as int) as Time)
                } else {
                    Animated::Const(1000)
                };
                self.pushed("ken-burns"@).put_main(
                    i as int,
                    Clip { look: Look { transform: Transform { scale, ..c.look.transform }, ..c.look }, ..c },
                ).sought(self.playhead as int).says(
                    if on {
                        "Ken Burns zoom added — a slow push over the whole clip. Scrub to see it."@
                    } else {
                        "Ken Burns zoom removed."@
                    },
                )
            },
            _ => self,
        }
    }
}

/// The look that a copied item carries; none for a bed or a title.
pub open spec fn clipboard_look(item: ClipboardView) -> Option<Look> {
    match item {
        ClipboardView::Main(c) => Some(c.look),
        ClipboardView::Over(o) => Some(o.look),
        _ => None,
    }
}

/// Law: pasting a look and then resetting it leaves media and timing alone: only
/// the look differs, and it ends plain.
pub proof fn law_paste_then_reset(e: EditorView, look: Look)
    requires
        e.wf(),
    ensures
        ({
            let p = e.with_sel_look(look).reel;
            let q = e.with_sel_look(look).with_sel_look(Look::plain()).reel;
            match e.selected {
                Some(Sel::Main(i)) => {
                    let c = e.reel.clips[i as int];
                    &&& p == (Reel { clips: e.reel.clips.update(i as int, Clip { look, ..c }), ..e.reel })
                    &&& q == (Reel {
                        clips: e.reel.clips.update(i as int, Clip { look: Look::plain(), ..c }),
                        ..e.reel
                    })
                },
                Some(Sel::Over(j)) => {
                    let o = e.reel.overlays[j as int];
                    &&& p == (Reel { overlays: e.reel.overlays.update(j as int, OverlayItem { look, ..o }), ..e.reel })
                    &&& q == (Reel {
                        overlays: e.reel.overlays.update(j as int, OverlayItem { look: Look::plain(), ..o }),
                        ..e.reel
                    })
                },
                _ => p == e.reel && q == e.reel,
            }
        }),
{
    match e.selected {
        Some(Sel::Main(i)) => {
            let c = e.reel.clips[i as int];
            assert(e.reel.clips.update(i as int, Clip { look, ..c }).update(
                i as int,
                Clip { look: Look::plain(), ..c },
            ) =~= e.reel.clips.update(i as int, Clip { look: Look::plain(), ..c }));
        },
        Some(Sel::Over(j)) => {
            let o = e.reel.overlays[j as int];
            assert(e.reel.overlays.update(j as int, OverlayItem { look, ..o }).update(
                j as int,
                OverlayItem { look: Look::plain(), ..o },
            ) =~= e.reel.overlays.update(j as int, OverlayItem { look: Look::plain(), ..o }));
        },
        _ => {},
    }
}

/// The mirroring that a choice stands for: across, down.
pub open spec fn mirror_of(choice: Seq<char>) -> (bool, bool) {
    (choice == "Across"@ || choice == "Both"@, choice == "Down"@ || choice == "Both"@)
}

/// The choice that a mirroring stands for.
pub open spec fn mirror_name(flip_h: bool, flip_v: bool) -> Seq<char> {
    if flip_h && flip_v {
        "Both"@
    } else if flip_h {
        "Across"@
    } else if flip_v {
        "Down"@
    } else {
        "None"@
    }
}

/// Law: a mirroring survives being shown as a choice and chosen again.
pub proof fn law_mirror_round_trip(flip_h: bool, flip_v: bool)
    ensures
        mirror_of(mirror_name(flip_h, flip_v)) == (flip_h, flip_v),
{
    reveal_strlit("Both");
    reveal_strlit("Across");
    reveal_strlit("Down");
    reveal_strlit("None");
    assert("Both"@.len() == 4 && "Across"@.len() == 6 && "Down"@.len() == 4 && "None"@.len() == 4);
    assert("Both"@[0] == 'B' && "Down"@[0] == 'D' && "None"@[0] == 'N');
}

/// The choice shown for a mirroring.
pub fn mirror_label(t: &Transform) -> (r: &'static str)
    ensures
        r@ == mirror_name(t.flip_h, t.flip_v),
{
    if t.flip_h && t.flip_v {
        "Both"
    } else if t.flip_h {
        "Across"
    } else if t.flip_v {
        "Down"
    } else {
        "None"
    }
}

/// A transform with the chosen mirroring.
pub fn mirrored(t: Transform, choice: &str) -> (r: Transform)
    ensures
        r == (Transform { flip_h: mirror_of(choice@).0, flip_v: mirror_of(choice@).1, ..t }),
{
    let both: bool = same_text(choice, "Both");
    let mut r: Transform = t;
    r.flip_h = both || same_text(choice, "Across");
    r.flip_v = both || same_text(choice, "Down");
    r
}

impl Clip {
    fn looking(&self, look: Look) -> (r: Clip)
        ensures
            r == (Clip { look, ..*self }),
    {
        let mut c: Clip = self.clone();
        c.look = look;
        c
    }
}

impl OverlayItem {
    fn looking(&self, look: Look) -> (r: OverlayItem)
        ensures
            r == (OverlayItem { look, ..*self }),
    {
        let mut o: OverlayItem = self.clone();
        o.look = look;
        o
    }
}

impl Editor {
    /// Show the selected item on the monitor, without moving the playhead.
    pub fn refresh_sel_monitor(&mut self)
        requires
            old(self)@.wf(),
        ensures
            final(self)@ == old(self)@.looks(),
            final(self)@.wf(),
    {
        let t: Time = self.playhead;
        let at: Time = match self.selected {
            Some(Sel::Main(i)) => {
                proof {
                    crate::model::lemma_sound_at(self@.reel.clips, i as int);
                }
                let a: Time = start_of(&self.reel.clips, i);
                let b: Time = a + self.reel.clips[i].trimmed();
                hold_between(t, a, greater(b - LAST_LOOK, a))
            },
            Some(Sel::Over(j)) => {
                proof {
                    crate::model::lemma_overlays_ok_at(self@.reel.overlays, j as int);
                }
                let a: Time = self.reel.overlays[j].at;
                let b: Time = a + run_length(
                    self.reel.overlays[j].in_s,
                    self.reel.overlays[j].out_s,
                    self.reel.overlays[j].speed,
                );
                hold_between(t, a, greater(b - LAST_LOOK, a))
            },
            _ => t,
        };
        self.stale = true;
        self.shown_at = at;
    }

    /// The look of the selected picture.
    pub fn selected_look(&self) -> (r: Option<Look>)
        requires
            self@.wf(),
        ensures
            r == self@.sel_look(),
    {
        match self.selected {
            Some(Sel::Main(i)) => Some(self.reel.clips[i].look.clone()),
            Some(Sel::Over(j)) => Some(self.reel.overlays[j].look.clone()),
            _ => None,
        }
    }

    fn set_look(&mut self, look: Look)
        requires
            old(self)@.wf(),
        ensures
            final(self)@ == old(self)@.with_sel_look(look),
            final(self)@.wf(),
    {
        match self.selected {
            Some(Sel::Main(i)) => {
                proof {
                    crate::model::lemma_sound_at(self@.reel.clips, i as int);
                }
                let c: Clip = self.reel.clips[i].looking(look);
                self.set_main(i, c);
            },
            Some(Sel::Over(j)) => {
                proof {
                    crate::model::lemma_overlays_ok_at(self@.reel.overlays, j as int);
                }
                let o: OverlayItem = self.reel.overlays[j].looking(look);
                self.set_over(j, o);
            },
            _ => {},
        }
    }

    /// The grade of the selected picture or layer.
    pub fn selected_grade(&self) -> (r: Option<u32>)
        requires
            self@.wf(),
        ensures
            r == match self@.selected {
                Some(Sel::Adjust(k)) => Some(self@.reel.adjustments[k as int].grade),
                _ => match self@.sel_look() {
                    Some(l) => Some(l.grade),
                    None => None,
                },
            },
    {
        match self.selected {
            Some(Sel::Main(i)) => Some(self.reel.clips[i].look.grade),
            Some(Sel::Over(j)) => Some(self.reel.overlays[j].look.grade),
            Some(Sel::Adjust(k)) => Some(self.reel.adjustments[k].grade),
            _ => None,
        }
    }

    pub fn set_selected_grade(&mut self, grade: u32)
        requires
            old(self)@.wf(),
        ensures
            final(self)@ == old(self)@.graded(grade),
            final(self)@.wf(),
    {
        match self.selected {
            Some(Sel::Adjust(k)) => {
                proof {
                    crate::model::lemma_adjustments_ok_at(self@.reel.adjustments, k as int);
                }
                let mut a: AdjustmentItem = self.reel.adjustments[k].clone();
                a.grade = grade;
                self.set_adjust(k, a);
                self.refresh_sel_monitor();
            },
            _ => {
                if let Some(l) = self.selected_look() {
                    let mut l: Look = l;
                    l.grade = grade;
                    self.set_look(l);
                    self.refresh_sel_monitor();
                }
            },
        }
    }

    /// The transform of the selected picture.
    pub fn selected_xf(&self) -> (r: Option<Transform>)
        requires
            self@.wf(),
        ensures
            r == match self@.sel_look() {
                Some(l) => Some(l.transform),
                None => None,
            },
    {
        match self.selected {
            Some(Sel::Main(i)) => Some(self.reel.clips[i].look.transform.clone()),
            Some(Sel::Over(j)) => Some(self.reel.overlays[j].look.transform.clone()),
            _ => None,
        }
    }

    pub fn set_selected_xf(&mut self, t: Transform)
        requires
            old(self)@.wf(),
        ensures
            final(self)@ == old(self)@.transformed(t),
            final(self)@.wf(),
    {
        if let Some(l) = self.selected_look() {
            let mut l: Look = l;
            l.transform = t;
            self.set_look(l);
            self.refresh_sel_monitor();
        }
    }

    /// Put an effect on the selected picture or layer.
    pub fn apply_effect(&mut self, name: String)
        requires
            old(self)@.wf(),
        ensures
            final(self)@ == old(self)@.effect_applied(named_effect(name)),
            final(self)@.wf(),
    {
        let look: Option<Look> = self.selected_look();
        let effect: Option<String> = effect_named(name);
        self.push_undo("");
        match self.selected {
            Some(Sel::Adjust(k)) => {
                proof {
                    crate::model::lemma_adjustments_ok_at(self@.reel.adjustments, k as int);
                }
                let mut a: AdjustmentItem = self.reel.adjustments[k].clone();
                a.effect = effect;
                self.set_adjust(k, a);
                self.refresh_sel_monitor();
            },
            _ => match look {
                Some(l) => {
                    let mut l: Look = l;
                    l.effect = effect;
                    self.set_look(l);
                    self.refresh_sel_monitor();
                },
                None => {
                    self.status = "Select a V1 clip, V2 overlay or FX layer to apply an effect.".to_owned();
                },
            },
        }
    }

    /// Set how strong the effect of the selected picture or layer is.
    pub fn set_effect_amount(&mut self, amount: u32)
        requires
            old(self)@.wf(),
        ensures
            final(self)@ == old(self)@.amount_set(amount),
            final(self)@.wf(),
    {
        let look: Option<Look> = self.selected_look();
        self.push_undo("fx-amount");
        match self.selected {
            Some(Sel::Adjust(k)) => {
                proof {
                    crate::model::lemma_adjustments_ok_at(self@.reel.adjustments, k as int);
                }
                let mut a: AdjustmentItem = self.reel.adjustments[k].clone();
                a.effect_amount = amount;
                self.set_adjust(k, a);
                self.refresh_sel_monitor();
            },
            _ => {
                if let Some(l) = look {
                    let mut l: Look = l;
                    l.effect_amount = amount;
                    self.set_look(l);
                    self.refresh_sel_monitor();
                }
            },
        }
    }

    fn clipboard_look(&self) -> (r: Option<Look>)
        ensures
            r == match self@.clipboard {
                Some(item) => clipboard_look(item),
                None => None,
            },
    {
        match &self.clipboard {
            Some(ClipboardItem::Main(c)) => Some(c.look.clone()),
            Some(ClipboardItem::Over(o)) => Some(o.look.clone()),
            _ => None,
        }
    }

    /// Put the look of the copied item on the selected picture.
    pub fn paste_attrs(&mut self)
        requires
            old(self)@.wf(),
        ensures
            final(self)@ == old(self)@.look_pasted(),
            final(self)@.wf(),
    {
        if self.clipboard.is_none() {
            self.status = "Copy a clip or cutaway first (Ctrl+C), then paste its look.".to_owned();
            return;
        }
        let t: Time = self.playhead;
        let fits: bool = matches!(self.selected, Some(Sel::Main(_)) | Some(Sel::Over(_)));
        match self.clipboard_look() {
            None => {
                self.status = "The clipboard holds audio or a title — copy a clip or cutaway to paste a look.".to_owned();
            },
            Some(look) => {
                self.push_undo("");
                if fits {
                    self.set_look(look);
                    self.seek_to(t);
                    self.status = "Pasted look — transform, grade and effect.".to_owned();
                } else {
                    self.status = "Select a V1 clip or V2 cutaway to paste the look onto.".to_owned();
                }
            },
        }
    }

    /// Strip the added look of the selected picture or layer.
    pub fn reset_attrs(&mut self)
        requires
            old(self)@.wf(),
        ensures
            final(self)@ == old(self)@.look_reset(),
            final(self)@.wf(),
    {
        let t: Time = self.playhead;
        self.push_undo("");
        match self.selected {
            Some(Sel::Adjust(k)) => {
                proof {
                    crate::model::lemma_adjustments_ok_at(self@.reel.adjustments, k as int);
                }
                let mut a: AdjustmentItem = self.reel.adjustments[k].clone();
                a.grade = 0;
                a.effect = None;
                a.effect_amount = 1000;
                self.set_adjust(k, a);
                self.seek_to(t);
                self.status = "Reset look to default.".to_owned();
            },
            Some(Sel::Main(_)) | Some(Sel::Over(_)) => {
                self.set_look(Look::default());
                self.seek_to(t);
                self.status = "Reset look to default.".to_owned();
            },
            _ => {
                self.status = "Select a clip, cutaway or FX layer to reset its look.".to_owned();
            },
        }
    }

    /// Put a slow push on the selected clip, or take it off.
    pub fn set_ken_burns(&mut self, on: bool)
        requires
            old(self)@.wf(),
        ensures
            final(self)@ == old(self)@.ken_burns(on),
            final(self)@.wf(),
    {
        let t: Time = self.playhead;
        let i: usize = match self.selected {
            Some(Sel::Main(i)) => i,
            _ => {
                return;
            },
        };
        proof {
            crate::model::lemma_sound_at(self@.reel.clips, i as int);
        }
        let c: Clip = self.reel.clips[i].pushed_in(on);
        self.push_undo("ken-burns");
        self.set_main(i, c);
        self.seek_to(t);
        self.status = if on {
            "Ken Burns zoom added — a slow push over the whole clip. Scrub to see it.".to_owned()
        } else {
            "Ken Burns zoom removed.".to_owned()
        };
    }
}

impl Clip {
    fn pushed_in(&self, on: bool) -> (r: Clip)
        requires
            self.wf(),
        ensures
            r.wf(),
            r == (Clip {
                look: Look {
                    transform: Transform {
                        scale: if on {
                            Animated::sweep(1000, 1250, upper(self.out_s - self.in_s, MIN_PIECE as int) as Time)
                        } else {
                            Animated::Const(1000)
                        },
                        ..self.look.transform
                    },
                    ..self.look
                },
                ..*self
            }),
    {
        let mut c: Clip = self.clone();
        let mut l: Look = c.look.clone();
        l.transform.scale = if on {
            Animated::new_sweep(1000, 1250, greater(c.out_s - c.in_s, MIN_PIECE))
        } else {
            Animated::Const(1000)
        };
        c.look = l;
        c
    }
}

/// The shortest stretch that keys are set in.
pub const KEY_SPAN: Time = 150_000;

/// A key at `t` on the reel, counted in the source of an item that starts at `start`.
pub open spec fn key_place(t: int, start: int, in_s: Time, out_s: Time, speed: u32) -> int {
    between(dragged(t - start, speed), 0, upper(out_s - in_s, KEY_SPAN as int))
}

impl EditorView {
    /// Where a key of the selected picture goes that is set at the playhead.
    pub open spec fn key_time(self) -> Option<int> {
        match self.selected {
            Some(Sel::Main(i)) => {
                let c = self.reel.clips[i as int];
                Some(key_place(self.playhead as int, start(self.reel.clips, i as int), c.in_s, c.out_s, c.speed))
            },
            Some(Sel::Over(j)) => {
                let o = self.reel.overlays[j as int];
                Some(key_place(self.playhead as int, o.at as int, o.in_s, o.out_s, o.speed))
            },
            _ => None,
        }
    }

    /// After the selected picture was aligned: one step, where a picture is selected.
    pub open spec fn aligned(self, t: Transform) -> EditorView {
        match self.sel_look() {
            Some(_) => self.pushed("align"@).transformed(t),
            None => self,
        }
    }
}

fn key_at(t: Time, from: Time, in_s: Time, out_s: Time, speed: u32) -> (r: Time)
    requires
        on_axis(t),
        on_axis(from),
        in_source(in_s),
        in_source(out_s),
    ensures
        r == key_place(t as int, from as int, in_s, out_s, speed),
        0 <= r <= SRC_MAX,
{
    hold_between(drag_source(t - from, speed), 0, greater(out_s - in_s, KEY_SPAN))
}

impl Editor {
    /// Where a key of the selected picture goes that is set at the playhead, in its
    /// kept source.
    pub fn sel_key_time(&self) -> (r: Option<Time>)
        requires
            self@.wf(),
        ensures
            match self@.key_time() {
                Some(t) => r == Some(t as Time) && in_source(t as Time),
                None => r is None,
            },
    {
        match self.selected {
            Some(Sel::Main(i)) => {
                let n: usize = self.reel.clips.len();
                proof {
                    crate::model::lemma_sound_at(self@.reel.clips, i as int);
                    crate::track::lemma_start_axis(self@.reel.clips, i as int);
                }
                let c: &Clip = &self.reel.clips[i];
                Some(key_at(self.playhead, start_of(&self.reel.clips, i), c.in_s, c.out_s, c.speed))
            },
            Some(Sel::Over(j)) => {
                proof {
                    crate::model::lemma_overlays_ok_at(self@.reel.overlays, j as int);
                }
                let o: &OverlayItem = &self.reel.overlays[j];
                Some(key_at(self.playhead, o.at, o.in_s, o.out_s, o.speed))
            },
            _ => None,
        }
    }

    /// Put the selected picture where aligning it takes it.
    pub fn align_sel(&mut self, t: Transform)
        requires
            old(self)@.wf(),
        ensures
            final(self)@ == old(self)@.aligned(t),
            final(self)@.wf(),
    {
        if self.selected_xf().is_none() {
            return;
        }
        self.push_undo("align");
        self.set_selected_xf(t);
    }
}

/// Only the look of the selected clip or cutaway differs, and it is `look`.
pub open spec fn look_becomes(e: EditorView, f: EditorView, look: Look) -> bool {
    match e.selected {
        Some(Sel::Main(i)) => {
            &&& same_but(e.reel.clips, f.reel.clips, i as int)
            &&& f.reel.clips[i as int] == (Clip { look, ..e.reel.clips[i as int] })
            &&& f.reel == (Reel { clips: f.reel.clips, ..e.reel })
        },
        Some(Sel::Over(j)) => {
            &&& same_but(e.reel.overlays, f.reel.overlays, j as int)
            &&& f.reel.overlays[j as int] == (OverlayItem { look, ..e.reel.overlays[j as int] })
            &&& f.reel == (Reel { overlays: f.reel.overlays, ..e.reel })
        },
        _ => f.reel == e.reel,
    }
}

/// The look of the selected clip or cutaway.
pub open spec fn look_there(e: EditorView) -> Look {
    match e.selected {
        Some(Sel::Main(i)) => e.reel.clips[i as int].look,
        Some(Sel::Over(j)) => e.reel.overlays[j as int].look,
        _ => Look::plain(),
    }
}

/// Law: a grade, a placement, an effect or its amount goes onto the selected clip or
/// cutaway and leaves the rest of its look, and every other item, as it is.
pub proof fn law_look_edits(e: EditorView, grade: u32, transform: Transform, effect: Option<String>, amount: u32)
    requires
        e.selected matches Some(s) ==> e.reel.has(s),
        !(e.selected matches Some(Sel::Adjust(_))),
        e.undo_tag.len() == 0,
    ensures
        ({
            let l = look_there(e);
            &&& look_becomes(e, e.graded(grade), Look { grade, ..l })
            &&& look_becomes(e, e.transformed(transform), Look { transform, ..l })
            &&& look_becomes(e, e.aligned(transform), Look { transform, ..l })
            &&& look_becomes(e, e.effect_applied(effect), Look { effect, ..l })
            &&& look_becomes(e, e.amount_set(amount), Look { effect_amount: amount, ..l })
            &&& one_edit(e, e.effect_applied(effect))
            &&& one_edit(e, e.amount_set(amount))
            &&& e.graded(grade).undo == e.undo && e.transformed(transform).undo == e.undo
        }),
{
    reveal_strlit("");
    crate::editor::lemma_pushed_alone(e, ""@);
    crate::editor::lemma_pushed_alone(e, "fx-amount"@);
    crate::editor::lemma_pushed_alone(e, "align"@);
}

/// Law: on a selected layer the same edits change the layer, and its placement never.
pub proof fn law_layer_look_edits(e: EditorView, k: usize, grade: u32, transform: Transform, effect: Option<String>, amount: u32)
    requires
        e.selected == Some(Sel::Adjust(k)),
        k < e.reel.adjustments.len(),
        e.undo_tag.len() == 0,
    ensures
        ({
            let a = e.reel.adjustments[k as int];
            let g = e.graded(grade).reel;
            let x = e.effect_applied(effect).reel;
            let m = e.amount_set(amount).reel;
            let r = e.look_reset().reel;
            &&& e.transformed(transform) == e
            &&& g == (Reel { adjustments: g.adjustments, ..e.reel }) && same_but(e.reel.adjustments, g.adjustments, k as int)
            &&& g.adjustments[k as int] == (AdjustmentItem { grade, ..a })
            &&& x == (Reel { adjustments: x.adjustments, ..e.reel }) && same_but(e.reel.adjustments, x.adjustments, k as int)
            &&& x.adjustments[k as int] == (AdjustmentItem { effect, ..a })
            &&& m == (Reel { adjustments: m.adjustments, ..e.reel }) && same_but(e.reel.adjustments, m.adjustments, k as int)
            &&& m.adjustments[k as int] == (AdjustmentItem { effect_amount: amount, ..a })
            &&& r == (Reel { adjustments: r.adjustments, ..e.reel }) && same_but(e.reel.adjustments, r.adjustments, k as int)
            &&& r.adjustments[k as int] == (AdjustmentItem { grade: 0, effect: None, effect_amount: 1000, ..a })
        }),
{
    reveal_strlit("");
    crate::editor::lemma_pushed_alone(e, ""@);
    crate::editor::lemma_pushed_alone(e, "fx-amount"@);
}

/// Law: pasting a look puts the whole look of the copied clip or cutaway onto the
/// selected one; a reset makes it plain again. Both leave everything else, and both can
/// be undone.
pub proof fn law_look_paste_and_reset(e: EditorView)
    requires
        e.selected matches Some(Sel::Main(_)) || e.selected matches Some(Sel::Over(_)),
        e.reel.has(e.selected->0),
        !crate::editor::picture_phase(e.phase),
    ensures
        e.clipboard matches Some(ClipboardView::Main(c)) ==> look_becomes(e, e.look_pasted(), c.look) && one_edit(
            e,
            e.look_pasted(),
        ),
        e.clipboard matches Some(ClipboardView::Over(o)) ==> look_becomes(e, e.look_pasted(), o.look) && one_edit(
            e,
            e.look_pasted(),
        ),
        e.clipboard is None || e.clipboard->0 is Aud || e.clipboard->0 is Title ==> e.look_pasted().reel == e.reel
            && e.look_pasted().undo == e.undo,
        look_becomes(e, e.look_reset(), Look { effect: None, effect_amount: 1000, transform: Transform::identity(), grade: 0 }),
        one_edit(e, e.look_reset()),
{
    reveal_strlit("");
    crate::editor::lemma_pushed_alone(e, ""@);
}

/// Law: the slow zoom grows the selected clip's picture by a quarter over its whole
/// source; taken off, the picture is at its size again. Nothing else about any clip
/// changes.
pub proof fn law_ken_burns(e: EditorView, i: usize, on: bool)
    requires
        e.selected == Some(Sel::Main(i)),
        i < e.reel.clips.len(),
        e.undo_tag.len() == 0,
    ensures
        ({
            let f = e.ken_burns(on);
            let c = e.reel.clips[i as int];
            let d = f.reel.clips[i as int];
            &&& one_edit(e, f)
            &&& f.reel == (Reel { clips: f.reel.clips, ..e.reel })
            &&& same_but(e.reel.clips, f.reel.clips, i as int)
            &&& d == (Clip { look: d.look, ..c })
            &&& d.look == (Look { transform: d.look.transform, ..c.look })
            &&& d.look.transform == (Transform { scale: d.look.transform.scale, ..c.look.transform })
            &&& !on ==> d.look.transform.scale == Animated::Const(1000)
            &&& on && c.out_s - c.in_s >= MIN_PIECE ==> d.look.transform.scale == Animated::sweep(
                1000,
                1250,
                (c.out_s - c.in_s) as Time,
            )
        }),
{
    crate::editor::lemma_pushed_alone(e, "ken-burns"@);
}

/// Law: the monitor looks at the playhead, or, where the playhead is off the selected
/// item, at the item's nearest end.
pub proof fn law_look_stays_on_the_item(e: EditorView, a: int, b: int)
    requires
        e.sel_span() == Some((a, b)),
        0 <= a,
        a + 3_000 <= b <= crate::time::AXIS_END,
    ensures
        e.looks() == (EditorView { stale: true, shown_at: e.looks().shown_at, ..e }),
        a <= e.looks().shown_at < b,
        a <= e.playhead <= b - 3_000 ==> e.looks().shown_at == e.playhead,
        e.playhead < a ==> e.looks().shown_at == a,
        e.playhead > b - 3_000 ==> e.looks().shown_at == b - 3_000,
{
}

/// Law: the selected item is on the reel from its start for as long as it runs.
pub proof fn law_selected_span(e: EditorView)
    ensures
        e.selected matches Some(Sel::Main(i)) ==> e.sel_span() == Some(
            (start(e.reel.clips, i as int), start(e.reel.clips, i as int) + run_time(e.reel.clips[i as int])),
        ),
        e.selected matches Some(Sel::Over(j)) ==> e.sel_span() == Some(
            (
                e.reel.overlays[j as int].at as int,
                e.reel.overlays[j as int].at + run_of(
                    e.reel.overlays[j as int].in_s,
                    e.reel.overlays[j as int].out_s,
                    e.reel.overlays[j as int].speed,
                ),
            ),
        ),
        e.selected is None ==> e.looks().shown_at == e.playhead,
{
}

/// Law: a key goes to the source position the playhead shows, counted from the in
/// point, and stays on the item.
pub proof fn law_key_place(t: int, start: int, in_s: Time, out_s: Time)
    requires
        in_source(in_s),
        in_source(out_s),
        out_s - in_s >= MIN_PIECE,
    ensures
        0 <= key_place(t, start, in_s, out_s, 1000) <= out_s - in_s,
        0 <= t - start <= out_s - in_s ==> key_place(t, start, in_s, out_s, 1000) == t - start,
        t < start ==> key_place(t, start, in_s, out_s, 1000) == 0,
        t - start > out_s - in_s ==> key_place(t, start, in_s, out_s, 1000) == out_s - in_s,
{
    let d = between(t - start, -crate::track::LONGEST_RUN, crate::track::LONGEST_RUN as int);
    assert(crate::edges::scaled(d, 1000, 1000) == d);
}

} // verus!
