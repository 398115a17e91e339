//! The workspace around the timeline: the floating panel, the steps of the work,
//! menus and tracks. Pixels are counted in thousandths.

use crate::editor::{Editor, EditorView};
use crate::model::{Clip, OverlayItem, Phase, Reel, Sel, Snapshot};
use crate::shelf::{Layout, Panel};
use crate::text::{cat3, same_text};
use crate::track::shown;
use vstd::prelude::*;

verus! {

/// The lesser of two lengths.
pub open spec fn short_of(a: int, b: int) -> int {
    if a <= b { a } else { b }
}

/// The greater of two lengths.
pub open spec fn long_of(a: int, b: int) -> int {
    if a >= b { a } else { b }
}

/// No window is larger than this.
pub const VIEW_END: i32 = 0x4000_0000;

/// Where the panel floats at first: on the right, under the chrome, as large as the
/// window allows. Left, top, width and height.
pub open spec fn default_geometry(vw: int, vh: int) -> (int, int, int, int) {
    let w = long_of(short_of(380_000, vw - 24_000), 280_000);
    let h = long_of(short_of(short_of(vh * 72 / 100, 760_000), vh - 24_000), 220_000);
    (long_of(vw - w - 18_000, 8_000), long_of(short_of(72_000, vh - h - 8_000), 8_000), w, h)
}

fn least(a: i64, b: i64) -> (r: i64)
    ensures
        r == short_of(a as int, b as int),
{
    if a <= b { a } else { b }
}

fn most(a: i64, b: i64) -> (r: i64)
    ensures
        r == long_of(a as int, b as int),
{
    if a >= b { a } else { b }
}

pub fn float_default_geom(vw: i32, vh: i32) -> (r: (i32, i32, i32, i32))
    requires
        0 <= vw <= VIEW_END,
        0 <= vh <= VIEW_END,
    ensures
        default_geometry(vw as int, vh as int) == (r.0 as int, r.1 as int, r.2 as int, r.3 as int),
{
    let vw: i64 = vw as i64;
    let vh: i64 = vh as i64;
    let w: i64 = most(least(380_000, vw - 24_000), 280_000);
    let h: i64 = most(least(least(vh * 72 / 100, 760_000), vh - 24_000), 220_000);
    let x: i64 = most(vw - w - 18_000, 8_000);
    let y: i64 = most(least(72_000, vh - h - 8_000), 8_000);
    (x as i32, y as i32, w as i32, h as i32)
}

/// Law: in a window that has room for it, the floating panel lies inside.
pub proof fn law_panel_fits(vw: int, vh: int)
    requires
        vw >= 288_000,
        vh >= 228_000,
    ensures
        ({
            let (x, y, w, h) = default_geometry(vw, vh);
            &&& 0 <= x && x + w <= vw
            &&& 0 <= y && y + h <= vh
        }),
{
}

/// Where the panel is after its title bar was dragged from `from` to `to`: part of
/// it stays in the window.
pub open spec fn panel_dragged(origin: int, from: int, to: int, view: int) -> int {
    crate::time::between(origin + to - from, 0, long_of(view - 48_000, 0))
}

/// A panel that is being dragged: where the mouse took hold, and where it was.
#[derive(Clone, Copy, PartialEq, Eq, Structural, Debug)]
pub struct PanelGrab {
    pub mx: i32,
    pub my: i32,
    pub x: i32,
    pub y: i32,
}

impl Panel {
    /// The panel with a place and a size of its own.
    pub open spec fn pinned(self, vw: int, vh: int) -> Panel {
        if self.xy is Some && self.size is Some {
            self
        } else {
            let (x, y, w, h) = default_geometry(vw, vh);
            Panel { xy: Some((x as i32, y as i32)), size: Some((w as i32, h as i32)), ..self }
        }
    }

    /// The panel after a layout was put on.
    pub open spec fn laid_out(self, vw: int, vh: int) -> Panel {
        if !self.float {
            Panel { xy: None, size: None, ..self }
        } else if self.xy is None {
            self.pinned(vw, vh)
        } else {
            self
        }
    }

    /// Give the panel a place and a size, where it has none.
    pub fn pin(&mut self, vw: i32, vh: i32)
        requires
            0 <= vw <= VIEW_END,
            0 <= vh <= VIEW_END,
        ensures
            *final(self) == old(self).pinned(vw as int, vh as int),
    {
        if self.xy.is_some() && self.size.is_some() {
            return;
        }
        let (x, y, w, h) = float_default_geom(vw, vh);
        self.xy = Some((x, y));
        self.size = Some((w, h));
    }

    /// The panel's title bar was taken hold of.
    pub fn grab(&mut self, mx: i32, my: i32, vw: i32, vh: i32) -> (r: PanelGrab)
        requires
            0 <= vw <= VIEW_END,
            0 <= vh <= VIEW_END,
        ensures
            *final(self) == old(self).pinned(vw as int, vh as int),
            Some((r.x, r.y)) == final(self).xy,
            r.mx == mx,
            r.my == my,
    {
        self.pin(vw, vh);
        match self.xy {
            Some((x, y)) => PanelGrab { mx, my, x, y },
            None => PanelGrab { mx, my, x: 0, y: 0 },
        }
    }

    /// The mouse moved with the panel in hand.
    pub fn drag(&mut self, g: PanelGrab, px: i32, py: i32, vw: i32, vh: i32)
        requires
            0 <= vw <= VIEW_END,
            0 <= vh <= VIEW_END,
        ensures
            *final(self) == (Panel {
                xy: Some(
                    (
                        panel_dragged(g.x as int, g.mx as int, px as int, vw as int) as i32,
                        panel_dragged(g.y as int, g.my as int, py as int, vh as int) as i32,
                    ),
                ),
                ..*old(self)
            }),
    {
        let right: i64 = most(vw as i64 - 48_000, 0);
        let bottom: i64 = most(vh as i64 - 48_000, 0);
        let x: i64 = most(least(g.x as i64 + px as i64 - g.mx as i64, right), 0);
        let y: i64 = most(least(g.y as i64 + py as i64 - g.my as i64, bottom), 0);
        self.xy = Some((x as i32, y as i32));
    }
}

impl Editor {
    /// Put a layout on. A floating panel without a place gets one; a docked one
    /// gives its place up.
    pub fn apply_layout(&mut self, l: &Layout, panel: &mut Panel, vw: i32, vh: i32)
        requires
            old(self)@.wf(),
            0 <= vw <= VIEW_END,
            0 <= vh <= VIEW_END,
        ensures
            *final(panel) == l.panel.laid_out(vw as int, vh as int),
            final(self)@ == old(self)@.says("Layout \""@ + l.name@ + "\" applied."@),
            final(self)@.wf(),
    {
        *panel = l.panel;
        if panel.float {
            if panel.xy.is_none() {
                panel.pin(vw, vh);
            }
        } else {
            panel.xy = None;
            panel.size = None;
        }
        self.status = cat3("Layout \"", l.name.as_str(), "\" applied.");
    }

    /// The window was made full screen, or was not any more.
    pub fn fullscreen_set(&mut self, on: bool)
        requires
            old(self)@.wf(),
        ensures
            final(self)@ == old(self)@.says(
                if on { "Fullscreen — F11 or the View menu to exit."@ } else { "Windowed."@ },
            ),
            final(self)@.wf(),
    {
        self.status = if on {
            "Fullscreen — F11 or the View menu to exit.".to_owned()
        } else {
            "Windowed.".to_owned()
        };
    }
}

/// A view of the monitor that is switched on and off.
#[derive(Clone, Copy, PartialEq, Eq, Structural, Debug)]
pub enum Guide {
    SafeAreas,
    Handles,
}

pub open spec fn guide_text(g: Guide, on: bool) -> Seq<char> {
    match g {
        Guide::SafeAreas => if on {
            "Safe areas on — keep text out of the shaded bands."@
        } else {
            "Safe areas off."@
        },
        Guide::Handles => if on {
            "Transform handles on — drag the picture, a corner to scale, the knob to rotate."@
        } else {
            "Transform handles off."@
        },
    }
}

impl Editor {
    /// Switch a guide; whether it is on now.
    pub fn toggle_guide(&mut self, g: Guide, on: bool) -> (r: bool)
        requires
            old(self)@.wf(),
        ensures
            r == !on,
            final(self)@ == old(self)@.says(guide_text(g, !on)),
            final(self)@.wf(),
    {
        let now: bool = !on;
        self.status = match g {
            Guide::SafeAreas => if now {
                "Safe areas on — keep text out of the shaded bands.".to_owned()
            } else {
                "Safe areas off.".to_owned()
            },
            Guide::Handles => if now {
                "Transform handles on — drag the picture, a corner to scale, the knob to rotate.".to_owned()
            } else {
                "Transform handles off.".to_owned()
            },
        };
        now
    }
}

/// The look of a menu row.
pub open spec fn row_class(disabled: bool, danger: bool) -> Seq<char> {
    if disabled {
        "mor-menu-item mor-menu-action disabled"@
    } else if danger {
        "mor-menu-item mor-menu-action mr-danger"@
    } else {
        "mor-menu-item mor-menu-action"@
    }
}

pub fn menu_row_class(disabled: bool, danger: bool) -> (r: &'static str)
    ensures
        r@ == row_class(disabled, danger),
{
    match (disabled, danger) {
        (true, _) => "mor-menu-item mor-menu-action disabled",
        (false, true) => "mor-menu-item mor-menu-action mr-danger",
        (false, false) => "mor-menu-item mor-menu-action",
    }
}

/// The track a menu row moves an item to: one up or down, between the lowest and
/// the highest. None where the row is not offered.
pub fn next_track(track: u8, up: bool, lowest: u8, highest: u8) -> (r: Option<u8>)
    ensures
        r == stepped_track(track, up, lowest, highest),
{
    if up {
        if track < highest { Some(track + 1) } else { None }
    } else if track > lowest {
        Some(track - 1)
    } else {
        None
    }
}

/// Whether any clip is one whose look was worked on.
pub open spec fn any_styled(s: Seq<Clip>) -> bool {
    exists|k: int| 0 <= k < s.len() && styled(#[trigger] s[k])
}

pub open spec fn styled(c: Clip) -> bool {
    c.look.effect is Some || c.look.transform.scale is Curve
}

/// Whether any clip has a colour behind it.
pub open spec fn any_backed(s: Seq<Clip>) -> bool {
    exists|k: int| 0 <= k < s.len() && (#[trigger] s[k]).look.transform.bg != 0
}

/// Whether an effect is one of the keyers.
pub open spec fn is_keyer(effect: Option<String>, keyers: Seq<String>) -> bool {
    effect matches Some(e) && exists|k: int| 0 <= k < keyers.len() && (#[trigger] keyers[k])@ == e@
}

pub open spec fn any_keyed(r: Reel, keyers: Seq<String>) -> bool {
    ||| exists|k: int| 0 <= k < r.clips.len() && is_keyer((#[trigger] r.clips[k]).look.effect, keyers)
    ||| exists|k: int| 0 <= k < r.overlays.len() && keyed(#[trigger] r.overlays[k], keyers)
}

pub open spec fn keyed(o: OverlayItem, keyers: Seq<String>) -> bool {
    is_keyer(o.look.effect, keyers) || o.blend@.len() > 0
}

/// Whether a step of the work shows as done.
pub open spec fn step_done(r: Reel, phase: Phase, keyers: Seq<String>) -> bool {
    match phase {
        Phase::Add => r.clips.len() > 0,
        Phase::Style => any_styled(r.clips),
        Phase::Effects => any_keyed(r, keyers),
        Phase::Background => any_backed(r.clips),
        Phase::Text => r.titles.len() > 0,
        Phase::Audio => r.audios.len() > 0,
        _ => false,
    }
}

fn keyer(effect: &Option<String>, keyers: &Vec<String>) -> (r: bool)
    ensures
        r == is_keyer(*effect, keyers@),
{
    match effect {
        None => false,
        Some(e) => {
            let mut k: usize = 0;
            while k < keyers.len()
                invariant
                    k <= keyers.len(),
                    *effect == Some(*e),
                    forall|j: int| 0 <= j < k ==> (#[trigger] keyers@[j])@ != e@,
                decreases keyers.len() - k,
            {
                if same_text(keyers[k].as_str(), e.as_str()) {
                    assert(keyers@[k as int]@ == e@);
                    return true;
                }
                k += 1;
            }
            false
        },
    }
}

impl Snapshot {
    fn has_styled(&self) -> (r: bool)
        ensures
            r == any_styled(self@.clips),
    {
        let mut k: usize = 0;
        while k < self.clips.len()
            invariant
                k <= self.clips.len(),
                forall|j: int| 0 <= j < k ==> !styled(#[trigger] self.clips@[j]),
            decreases self.clips.len() - k,
        {
            let c: &Clip = &self.clips[k];
            if c.look.effect.is_some() || c.look.transform.scale.is_animated() {
                assert(styled(self.clips@[k as int]));
                return true;
            }
            k += 1;
        }
        false
    }

    fn has_backed(&self) -> (r: bool)
        ensures
            r == any_backed(self@.clips),
    {
        let mut k: usize = 0;
        while k < self.clips.len()
            invariant
                k <= self.clips.len(),
                forall|j: int| 0 <= j < k ==> (#[trigger] self.clips@[j]).look.transform.bg == 0,
            decreases self.clips.len() - k,
        {
            if self.clips[k].look.transform.bg != 0 {
                assert(self.clips@[k as int].look.transform.bg != 0);
                return true;
            }
            k += 1;
        }
        false
    }

    fn has_keyed(&self, keyers: &Vec<String>) -> (r: bool)
        ensures
            r == any_keyed(self@, keyers@),
    {
        let mut k: usize = 0;
        while k < self.clips.len()
            invariant
                k <= self.clips.len(),
                forall|j: int| 0 <= j < k ==> !is_keyer((#[trigger] self.clips@[j]).look.effect, keyers@),
            decreases self.clips.len() - k,
        {
            if keyer(&self.clips[k].look.effect, keyers) {
                assert(is_keyer(self@.clips[k as int].look.effect, keyers@));
                return true;
            }
            k += 1;
        }
        let mut k: usize = 0;
        while k < self.overlays.len()
            invariant
                k <= self.overlays.len(),
                forall|j: int| 0 <= j < k ==> !keyed(#[trigger] self.overlays@[j], keyers@),
            decreases self.overlays.len() - k,
        {
            if keyer(&self.overlays[k].look.effect, keyers) || !self.overlays[k].blend.as_str().is_empty() {
                assert(keyed(self@.overlays[k as int], keyers@));
                return true;
            }
            k += 1;
        }
        false
    }

    /// Whether a step of the work shows as done.
    pub fn step_done(&self, phase: Phase, keyers: &Vec<String>) -> (r: bool)
        ensures
            r == step_done(self@, phase, keyers@),
    {
        match phase {
            Phase::Add => self.clips.len() > 0,
            Phase::Style => self.has_styled(),
            Phase::Effects => self.has_keyed(keyers),
            Phase::Background => self.has_backed(),
            Phase::Text => self.titles.len() > 0,
            Phase::Audio => self.audios.len() > 0,
            _ => false,
        }
    }
}

/// The steps that work on a selected picture.
pub open spec fn needs_picture(phase: Phase) -> bool {
    phase is Cut || phase is Style || phase is Effects
}

impl EditorView {
    /// After a step of the work was picked. One that works on a picture takes the
    /// clip under the playhead where nothing is selected.
    pub open spec fn step_picked(self, phase: Phase) -> EditorView {
        EditorView {
            phase,
            selected: if needs_picture(phase) && self.selected is None && self.reel.clips.len() > 0 {
                Some(Sel::Main(shown(self.reel.clips, self.playhead as int) as usize))
            } else {
                self.selected
            },
            ..self
        }
    }
}

impl Editor {
    /// Pick a step of the work.
    pub fn pick_step(&mut self, phase: Phase)
        requires
            old(self)@.wf(),
        ensures
            final(self)@ == old(self)@.step_picked(phase),
            final(self)@.wf(),
    {
        let n: usize = self.reel.clips.len();
        let needs: bool = matches!(phase, Phase::Cut | Phase::Style | Phase::Effects);
        if needs && self.selected.is_none() && n > 0 {
            proof {
                crate::track::law_shown(self@.reel.clips, self.playhead as int);
            }
            let (i, _) = crate::track::clip_at(&self.reel.clips, self.playhead);
            self.selected = Some(Sel::Main(i));
        }
        self.phase = phase;
    }
}

/// The step a selection belongs to. A picture may be styled, keyed or backed as well
/// as cut, so browsing pictures keeps to the step at hand where it is one of these; a
/// layer is graded in Style; with nothing selected the step stays.
pub open spec fn phase_of(selected: Option<Sel>, current: Phase) -> Phase {
    match selected {
        Some(Sel::Main(_)) | Some(Sel::Over(_)) => if current is Style || current is Effects || current is Background {
            current
        } else {
            Phase::Cut
        },
        Some(Sel::Title(_)) => Phase::Text,
        Some(Sel::Aud(_)) => Phase::Audio,
        Some(Sel::Adjust(_)) => Phase::Style,
        None => current,
    }
}

/// The step that a selection takes the workspace to.
pub fn phase_for_selection(selected: Option<Sel>, current: Phase) -> (r: Phase)
    ensures
        r == phase_of(selected, current),
{
    match selected {
        Some(Sel::Main(_)) | Some(Sel::Over(_)) => match current {
            Phase::Style | Phase::Effects | Phase::Background => current,
            _ => Phase::Cut,
        },
        Some(Sel::Title(_)) => Phase::Text,
        Some(Sel::Aud(_)) => Phase::Audio,
        Some(Sel::Adjust(_)) => Phase::Style,
        None => current,
    }
}

impl Editor {
    /// The selection changed: the workspace follows it.
    pub fn follow_selection(&mut self)
        requires
            old(self)@.wf(),
        ensures
            final(self)@ == (EditorView {
                phase: phase_of(old(self)@.selected, old(self)@.phase),
                ..old(self)@
            }),
            final(self)@.wf(),
    {
        self.phase = phase_for_selection(self.selected, self.phase);
    }
}

/// Law: selection and step do not fight: following the selection a second time
/// changes nothing, and a step that was picked for a picture stays.
pub proof fn law_the_step_settles(e: EditorView, phase: Phase)
    ensures
        phase_of(e.selected, phase_of(e.selected, phase)) == phase_of(e.selected, phase),
        needs_picture(phase) && (e.selected is None || e.selected->0 is Main || e.selected->0 is Over) ==> phase_of(
            e.step_picked(phase).selected,
            phase,
        ) == phase,
{
}

/// Law: a panel that is dragged follows the mouse and keeps forty-eight pixels in view;
/// one that was laid out keeps its place, and a docked one has none.
pub proof fn law_panel_follows(origin: int, from: int, to: int, view: int, p: Panel, vw: int, vh: int)
    requires
        view >= 48_000,
    ensures
        0 <= origin + (to - from) <= view - 48_000 ==> panel_dragged(origin, from, to, view) - origin == to - from,
        origin + (to - from) < 0 ==> panel_dragged(origin, from, to, view) == 0,
        origin + (to - from) > view - 48_000 ==> panel_dragged(origin, from, to, view) == view - 48_000,
        p.xy is Some && p.size is Some ==> p.pinned(vw, vh) == p,
        p.pinned(vw, vh).xy is Some && p.pinned(vw, vh).size is Some && p.pinned(vw, vh).float == p.float,
        !p.float ==> p.laid_out(vw, vh).xy is None && p.laid_out(vw, vh).size is None,
        p.float ==> p.laid_out(vw, vh).xy is Some,
        p.float && p.xy is Some ==> p.laid_out(vw, vh) == p,
        vw >= 406_000 && vh >= 1_056_000 ==> default_geometry(vw, vh) == (vw - 398_000, 72_000int, 380_000int, 760_000int),
{
}

/// Law: the steps of the rail are done when the reel has what they make: clips, a style
/// or a zoom, a key or a blend, a background, titles, beds.
pub proof fn law_steps_done(r: Reel, keyers: Seq<String>)
    ensures
        step_done(r, Phase::Add, keyers) <==> r.clips.len() > 0,
        step_done(r, Phase::Text, keyers) <==> r.titles.len() > 0,
        step_done(r, Phase::Audio, keyers) <==> r.audios.len() > 0,
        forall|k: int|
            0 <= k < r.clips.len() && (#[trigger] r.clips[k]).look.effect is Some ==> step_done(r, Phase::Style, keyers),
        forall|k: int|
            0 <= k < r.clips.len() && (#[trigger] r.clips[k]).look.transform.bg != 0 ==> step_done(
                r,
                Phase::Background,
                keyers,
            ),
        forall|k: int|
            0 <= k < r.overlays.len() && (#[trigger] r.overlays[k]).blend@.len() > 0 ==> step_done(r, Phase::Effects, keyers),
        r.clips.len() == 0 ==> !step_done(r, Phase::Style, keyers) && !step_done(r, Phase::Background, keyers),
        r.clips.len() == 0 && r.overlays.len() == 0 ==> !step_done(r, Phase::Effects, keyers),
        !step_done(r, Phase::Cut, keyers),
{
    assert forall|k: int| 0 <= k < r.clips.len() && (#[trigger] r.clips[k]).look.effect is Some implies step_done(
        r,
        Phase::Style,
        keyers,
    ) by {
        assert(styled(r.clips[k]));
    }
    assert forall|k: int| 0 <= k < r.overlays.len() && (#[trigger] r.overlays[k]).blend@.len() > 0 implies step_done(
        r,
        Phase::Effects,
        keyers,
    ) by {
        assert(keyed(r.overlays[k], keyers));
    }
}

/// Law: what is selected leads to the step that works on it: a title to text, a bed to
/// audio, a layer to style, a picture to the cut unless a picture step is open; picking
/// a step changes nothing on the reel.
pub proof fn law_selection_leads(s: Sel, current: Phase, e: EditorView, phase: Phase)
    ensures
        s is Title ==> phase_of(Some(s), current) == Phase::Text,
        s is Aud ==> phase_of(Some(s), current) == Phase::Audio,
        s is Adjust ==> phase_of(Some(s), current) == Phase::Style,
        (s is Main || s is Over) && (current is Style || current is Effects || current is Background) ==> phase_of(
            Some(s),
            current,
        ) == current,
        (s is Main || s is Over) && (current is Add || current is Text || current is Audio || current is Cut) ==> phase_of(
            Some(s),
            current,
        ) == Phase::Cut,
        phase_of(None, current) == current,
        e.step_picked(phase) == (EditorView { phase, selected: e.step_picked(phase).selected, ..e }),
        e.selected is Some ==> e.step_picked(phase).selected == e.selected,
        e.selected is None && e.reel.clips.len() > 0 && (phase is Cut || phase is Style || phase is Effects)
            ==> e.step_picked(phase).selected == Some(Sel::Main(shown(e.reel.clips, e.playhead as int) as usize)),
        e.selected is None && (phase is Text || phase is Audio || phase is Add) ==> e.step_picked(phase).selected is None,
{
}

/// The track above or below, where there is one.
pub open spec fn stepped_track(track: u8, up: bool, lowest: u8, highest: u8) -> Option<u8> {
    if up {
        if track < highest { Some((track + 1) as u8) } else { None }
    } else if track > lowest {
        Some((track - 1) as u8)
    } else {
        None
    }
}

/// Law: an item goes one track up or down, never past the highest or the lowest, and up
/// and down undo each other.
pub proof fn law_track_steps(track: u8, lowest: u8, highest: u8)
    requires
        lowest <= track <= highest,
    ensures
        stepped_track(track, true, lowest, highest) matches Some(t) ==> t - track == 1 && t <= highest && stepped_track(
            t,
            false,
            lowest,
            highest,
        ) == Some(track),
        stepped_track(track, false, lowest, highest) matches Some(t) ==> track - t == 1 && t >= lowest && stepped_track(
            t,
            true,
            lowest,
            highest,
        ) == Some(track),
        stepped_track(track, true, lowest, highest) is None <==> track == highest,
        stepped_track(track, false, lowest, highest) is None <==> track == lowest,
{
}

} // verus!
