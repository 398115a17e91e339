//! What the inspector changes on clips, cutaways and adjustment layers, and what
//! the mixer and the backdrop panel change.

use crate::drags::{tag, tagged};
use crate::editor::{one_edit, same_but, Editor, EditorView};
use crate::keyframes::Animated;
use crate::model::{AdjustmentItem, Bus, Clip, Look, OverlayItem, Reel, Transform};
use crate::monitor::{is_source_frame, MonitorPlan};
use crate::text::cat3;
use crate::time::{greater, in_source, lesser, lower, on_axis, upper, Time, MIN_PIECE};
use crate::track::{lemma_start_axis, total, total_of};
use vstd::prelude::*;

verus! {

/// The slowest speed the inspector sets, in thousandths.
pub const SLOWEST: u32 = 50;

/// A change the inspector makes to a clip.
pub enum ClipEdit {
    Framing(String),
    /// Another effect, or none.
    Effect(Option<String>),
    Speed(u32),
    Reverse,
    Volume(u32),
    Denoise(u32),
    Treat(Option<String>),
    /// How the clip before blends in; none is a cut.
    Transition(Option<String>),
    TransitionLength(Time),
}

/// What follows a change.
#[derive(Clone, Copy, PartialEq, Eq, Structural, Debug)]
pub enum After {
    Nothing,
    /// Draw the monitor again at the playhead.
    Seek,
    /// The same, with the playhead kept on the reel.
    SeekOnReel,
    /// Show the selected item.
    Look,
}

impl ClipEdit {
    pub open spec fn wf(&self) -> bool {
        *self matches ClipEdit::TransitionLength(t) ==> in_source(t)
    }

    /// The clip after the change.
    pub open spec fn applied(&self, c: Clip) -> Clip {
        match *self {
            ClipEdit::Framing(framing) => Clip { framing, ..c },
            ClipEdit::Effect(effect) => Clip { look: Look { effect, ..c.look }, ..c },
            ClipEdit::Speed(v) => Clip { speed: upper(v as int, SLOWEST as int) as u32, ..c },
            ClipEdit::Reverse => Clip { reverse: !c.reverse, ..c },
            ClipEdit::Volume(volume) => Clip { volume, ..c },
            ClipEdit::Denoise(denoise) => Clip { denoise, ..c },
            ClipEdit::Treat(treat) => Clip { treat, ..c },
            ClipEdit::Transition(transition) => Clip { transition, ..c },
            ClipEdit::TransitionLength(trans_dur) => Clip { trans_dur, ..c },
        }
    }

    /// The tag of the undo step for clip `i`.
    pub open spec fn step(&self, i: usize) -> Seq<char> {
        match *self {
            ClipEdit::Framing(_) => "framing"@,
            ClipEdit::Effect(_) => "fx-pick"@,
            ClipEdit::Speed(_) => tagged("speed"@, i),
            ClipEdit::Reverse => tagged("rev"@, i),
            ClipEdit::Volume(_) => tagged("cvol"@, i),
            ClipEdit::Denoise(_) => tagged("cden"@, i),
            ClipEdit::Treat(_) => ""@,
            ClipEdit::Transition(_) => ""@,
            ClipEdit::TransitionLength(_) => tagged("tdur"@, i),
        }
    }

    /// Whether the clip's length on the reel may change.
    pub open spec fn retimes(&self) -> bool {
        *self is Speed || *self is Transition || *self is TransitionLength
    }

    pub open spec fn follow(&self) -> After {
        match *self {
            ClipEdit::Framing(_) | ClipEdit::Effect(_) => After::Look,
            ClipEdit::Reverse => After::Seek,
            ClipEdit::Transition(_) | ClipEdit::TransitionLength(_) => After::SeekOnReel,
            _ => After::Nothing,
        }
    }

    fn tag_for(&self, i: usize) -> (r: String)
        ensures
            r@ == self.step(i),
    {
        match self {
            ClipEdit::Framing(_) => "framing".to_owned(),
            ClipEdit::Effect(_) => "fx-pick".to_owned(),
            ClipEdit::Speed(_) => tag("speed", i),
            ClipEdit::Reverse => tag("rev", i),
            ClipEdit::Volume(_) => tag("cvol", i),
            ClipEdit::Denoise(_) => tag("cden", i),
            ClipEdit::Treat(_) => "".to_owned(),
            ClipEdit::Transition(_) => "".to_owned(),
            ClipEdit::TransitionLength(_) => tag("tdur", i),
        }
    }

    fn apply(self, c: &Clip) -> (r: Clip)
        requires
            c.wf(),
            self.wf(),
        ensures
            r == self.applied(*c),
            r.wf(),
    {
        let mut c: Clip = c.clone();
        match self {
            ClipEdit::Framing(framing) => {
                c.framing = framing;
            },
            ClipEdit::Effect(effect) => {
                c.look.effect = effect;
            },
            ClipEdit::Speed(v) => {
                c.speed = if v > SLOWEST { v } else { SLOWEST };
            },
            ClipEdit::Reverse => {
                c.reverse = !c.reverse;
            },
            ClipEdit::Volume(volume) => {
                c.volume = volume;
            },
            ClipEdit::Denoise(denoise) => {
                c.denoise = denoise;
            },
            ClipEdit::Treat(treat) => {
                c.treat = treat;
            },
            ClipEdit::Transition(transition) => {
                c.transition = transition;
            },
            ClipEdit::TransitionLength(trans_dur) => {
                c.trans_dur = trans_dur;
            },
        }
        c
    }

    fn follows(&self) -> (r: After)
        ensures
            r == self.follow(),
    {
        match self {
            ClipEdit::Framing(_) | ClipEdit::Effect(_) => After::Look,
            ClipEdit::Reverse => After::Seek,
            ClipEdit::Transition(_) | ClipEdit::TransitionLength(_) => After::SeekOnReel,
            _ => After::Nothing,
        }
    }
}

/// A change the inspector makes to a cutaway.
pub enum OverlayEdit {
    Track(u8),
    At(Time),
    In(Time),
    Out(Time),
    Framing(String),
    Effect(Option<String>),
    Speed(u32),
    Reverse,
}

/// An in-point no later than a tenth of a second before the out-point.
pub open spec fn in_point(v: int, out_s: int) -> int {
    upper(lower(v, out_s - MIN_PIECE), 0)
}

/// An out-point a tenth of a second behind the in-point, or where the source ends.
pub open spec fn out_point(v: int, in_s: int, duration: int) -> int {
    lower(upper(v, in_s + MIN_PIECE), duration)
}

/// The track a cutaway goes to when `n` is asked for.
pub open spec fn overlay_track_for(n: u8, v_lanes: u8) -> int {
    lower(upper(n as int, 2), 1 + v_lanes)
}

impl OverlayEdit {
    pub open spec fn wf(&self) -> bool {
        match *self {
            OverlayEdit::At(t) => on_axis(t),
            OverlayEdit::In(t) | OverlayEdit::Out(t) => in_source(t),
            _ => true,
        }
    }

    pub open spec fn applied(&self, o: OverlayItem, v_lanes: u8) -> OverlayItem {
        match *self {
            OverlayEdit::Track(n) => OverlayItem { track: overlay_track_for(n, v_lanes) as u8, ..o },
            OverlayEdit::At(at) => OverlayItem { at, ..o },
            OverlayEdit::In(v) => OverlayItem { in_s: in_point(v as int, o.out_s as int) as Time, ..o },
            OverlayEdit::Out(v) => OverlayItem {
                out_s: out_point(v as int, o.in_s as int, o.duration as int) as Time,
                ..o
            },
            OverlayEdit::Framing(framing) => OverlayItem { framing, ..o },
            OverlayEdit::Effect(effect) => OverlayItem { look: Look { effect, ..o.look }, ..o },
            OverlayEdit::Speed(v) => OverlayItem { speed: upper(v as int, SLOWEST as int) as u32, ..o },
            OverlayEdit::Reverse => OverlayItem { reverse: !o.reverse, ..o },
        }
    }

    /// The tag of the undo step for cutaway `j`.
    pub open spec fn step(&self, j: usize) -> Seq<char> {
        match *self {
            OverlayEdit::Track(_) => ""@,
            OverlayEdit::At(_) => tagged("opos"@, j),
            OverlayEdit::In(_) => tagged("oin"@, j),
            OverlayEdit::Out(_) => tagged("oout"@, j),
            OverlayEdit::Framing(_) => "framing"@,
            OverlayEdit::Effect(_) => "fx-pick"@,
            OverlayEdit::Speed(_) => tagged("ospeed"@, j),
            OverlayEdit::Reverse => tagged("orev"@, j),
        }
    }

    pub open spec fn follow(&self) -> After {
        match *self {
            OverlayEdit::Track(_) | OverlayEdit::Reverse => After::Seek,
            OverlayEdit::Framing(_) | OverlayEdit::Effect(_) => After::Look,
            _ => After::Nothing,
        }
    }

    /// The source position that the monitor is to show after the change made `o`: the
    /// point that was moved.
    pub open spec fn peeked(&self, o: OverlayItem) -> Option<Time> {
        match *self {
            OverlayEdit::In(_) => Some(o.in_s),
            OverlayEdit::Out(_) => Some(o.out_s),
            _ => None,
        }
    }

    fn tag_for(&self, j: usize) -> (r: String)
        ensures
            r@ == self.step(j),
    {
        match self {
            OverlayEdit::Track(_) => "".to_owned(),
            OverlayEdit::At(_) => tag("opos", j),
            OverlayEdit::In(_) => tag("oin", j),
            OverlayEdit::Out(_) => tag("oout", j),
            OverlayEdit::Framing(_) => "framing".to_owned(),
            OverlayEdit::Effect(_) => "fx-pick".to_owned(),
            OverlayEdit::Speed(_) => tag("ospeed", j),
            OverlayEdit::Reverse => tag("orev", j),
        }
    }

    fn follows(&self) -> (r: After)
        ensures
            r == self.follow(),
    {
        match self {
            OverlayEdit::Track(_) | OverlayEdit::Reverse => After::Seek,
            OverlayEdit::Framing(_) | OverlayEdit::Effect(_) => After::Look,
            _ => After::Nothing,
        }
    }

    fn apply(self, o: &OverlayItem, v_lanes: u8) -> (r: OverlayItem)
        requires
            o.wf(),
            self.wf(),
        ensures
            r == self.applied(*o, v_lanes),
            r.wf(),
    {
        let mut o: OverlayItem = o.clone();
        match self {
            OverlayEdit::Track(n) => {
                let n: u16 = if n > 2 { n as u16 } else { 2 };
                let top: u16 = 1 + v_lanes as u16;
                o.track = if n > top { top as u8 } else { n as u8 };
            },
            OverlayEdit::At(at) => {
                o.at = at;
            },
            OverlayEdit::In(v) => {
                o.in_s = greater(lesser(v, o.out_s - MIN_PIECE), 0);
            },
            OverlayEdit::Out(v) => {
                o.out_s = lesser(greater(v, o.in_s + MIN_PIECE), o.duration);
            },
            OverlayEdit::Framing(framing) => {
                o.framing = framing;
            },
            OverlayEdit::Effect(effect) => {
                o.look.effect = effect;
            },
            OverlayEdit::Speed(v) => {
                o.speed = if v > SLOWEST { v } else { SLOWEST };
            },
            OverlayEdit::Reverse => {
                o.reverse = !o.reverse;
            },
        }
        o
    }
}

/// A change the inspector makes to an adjustment layer.
#[derive(Clone, Copy, PartialEq, Eq, Structural, Debug)]
pub enum LayerEdit {
    StartAtPlayhead,
    WholeReel,
}

/// A change of one strip of the mixer.
#[derive(Clone, Copy, PartialEq, Eq, Structural, Debug)]
pub enum StripEdit {
    Mute,
    Solo,
    Gain(u32),
}

pub open spec fn strip_edited(b: Bus, edit: StripEdit) -> Bus {
    match edit {
        StripEdit::Mute => Bus { mute: !b.mute, ..b },
        StripEdit::Solo => Bus { solo: !b.solo, ..b },
        StripEdit::Gain(gain) => Bus { gain, ..b },
    }
}

/// How a picture is laid out in the frame.
#[derive(Clone, Copy, PartialEq, Eq, Structural, Debug)]
pub enum Band {
    Fill,
    High,
    Centre,
    Low,
}

/// The height of a landscape band, in thousandths of the frame.
pub const BAND_HEIGHT: i32 = 340;

/// How far a band sits off the middle.
pub const BAND_OFFSET: i32 = 220;

/// A transform in a band layout: full width, upright, a strip high unless it fills.
pub open spec fn banded(t: Transform, band: Band) -> Transform {
    Transform {
        x: 0,
        y: match band {
            Band::High => (-BAND_OFFSET) as i32,
            Band::Low => BAND_OFFSET,
            _ => 0,
        },
        scale: Animated::Const(1000),
        scale_x: 1000,
        scale_y: if band is Fill { 1000 } else { BAND_HEIGHT },
        rotation: 0,
        cover: !(band is Fill),
        ..t
    }
}

pub open spec fn band_text(band: Band) -> Seq<char> {
    match band {
        Band::Fill => "Filling the frame."@,
        Band::High => "Band set — pick a Background (Bg) for the surround, then add Text below."@,
        Band::Centre => "Band set — pick a Background (Bg) for the surround, then add Text above or below."@,
        Band::Low => "Band set — pick a Background (Bg) for the surround, then add Text above."@,
    }
}

/// Clips with another colour behind them.
pub open spec fn backed(clips: Seq<Clip>, bg: u8) -> Seq<Clip> {
    Seq::new(
        clips.len(),
        |k: int| Clip { look: Look { transform: Transform { bg, ..clips[k].look.transform }, ..clips[k].look }, ..clips[k] },
    )
}

impl EditorView {
    pub open spec fn followed(self, after: After) -> EditorView {
        match after {
            After::Nothing => self,
            After::Seek => self.reseeks(),
            After::SeekOnReel => self.sought(lower(self.playhead as int, total(self.reel.clips))),
            After::Look => self.looks(),
        }
    }

    /// After the inspector changed clip `i`. Where the clip's length changes, the
    /// other lanes ride along.
    pub open spec fn clip_edited(self, i: usize, edit: ClipEdit) -> EditorView {
        let e = self.pushed(edit.step(i));
        let c = edit.applied(self.reel.clips[i as int]);
        (if edit.retimes() { e.with_clip(i as int, c) } else { e.put_main(i as int, c) }).followed(edit.follow())
    }

    /// After the inspector changed cutaway `j`.
    pub open spec fn overlay_edited(self, j: usize, edit: OverlayEdit) -> EditorView {
        self.pushed(edit.step(j)).put_over(
            j as int,
            edit.applied(self.reel.overlays[j as int], self.reel.v_lanes),
        ).followed(edit.follow())
    }

    /// After the inspector changed layer `k`.
    pub open spec fn layer_edited(self, k: usize, edit: LayerEdit) -> EditorView {
        let a = self.reel.adjustments[k as int];
        self.pushed(""@).put_adjust(
            k as int,
            match edit {
                LayerEdit::StartAtPlayhead => AdjustmentItem { at: self.playhead, ..a },
                LayerEdit::WholeReel => AdjustmentItem {
                    at: 0,
                    dur: upper(total(self.reel.clips), MIN_PIECE as int) as Time,
                    ..a
                },
            },
        ).reseeks()
    }

    /// After strip `i` of the mixer was changed.
    pub open spec fn strip_set(self, i: usize, edit: StripEdit) -> EditorView {
        let e = self.pushed(
            match edit {
                StripEdit::Gain(_) => tagged("mixg"@, i),
                _ => ""@,
            },
        );
        let m = self.reel.mixer;
        EditorView {
            reel: Reel {
                mixer: crate::model::MixerView { tracks: m.tracks.update(i as int, strip_edited(m.tracks[i as int], edit)), ..m },
                ..self.reel
            },
            ..e
        }
    }

    pub open spec fn master_set(self, gain: u32) -> EditorView {
        EditorView {
            reel: Reel { mixer: crate::model::MixerView { master: gain, ..self.reel.mixer }, ..self.reel },
            ..self.pushed("mixmaster"@)
        }
    }

    /// After a colour was picked to go behind every clip.
    pub open spec fn backdropped(self, bg: u8, label: Seq<char>) -> EditorView {
        if self.reel.clips.len() == 0 {
            self
        } else {
            EditorView {
                reel: Reel { clips: backed(self.reel.clips, bg), ..self.reel },
                ..self.pushed("bg"@)
            }.reseeks().says("Background: "@ + label + " — shows behind a banded clip."@)
        }
    }

    /// After the selected picture was laid out in a band.
    pub open spec fn band_set(self, band: Band) -> EditorView {
        let t = match self.sel_look() {
            Some(l) => l.transform,
            None => Transform::identity(),
        };
        self.pushed("band"@).transformed(banded(t, band)).says(band_text(band))
    }
}

impl Editor {
    pub(crate) fn follow_up(&mut self, after: After)
        requires
            old(self)@.wf(),
        ensures
            final(self)@ == old(self)@.followed(after),
            final(self)@.wf(),
    {
        match after {
            After::Nothing => {},
            After::Seek => {
                self.seek_to(self.playhead);
            },
            After::SeekOnReel => {
                let n: usize = self.reel.clips.len();
                proof {
                    lemma_start_axis(self@.reel.clips, n as int);
                }
                let end: Time = total_of(&self.reel.clips);
                self.seek_to(lesser(self.playhead, end));
            },
            After::Look => {
                self.refresh_sel_monitor();
            },
        }
    }

    /// Change clip `i`.
    pub fn edit_clip(&mut self, i: usize, edit: ClipEdit)
        requires
            old(self)@.wf(),
            i < old(self).reel.clips.len(),
            edit.wf(),
        ensures
            final(self)@ == old(self)@.clip_edited(i, edit),
            final(self)@.wf(),
    {
        let t: String = edit.tag_for(i);
        let after: After = edit.follows();
        let retimes: bool = matches!(
            edit,
            ClipEdit::Speed(_) | ClipEdit::Transition(_) | ClipEdit::TransitionLength(_)
        );
        self.push_undo(t.as_str());
        proof {
            crate::model::lemma_sound_at(self@.reel.clips, i as int);
        }
        let c: Clip = edit.apply(&self.reel.clips[i]);
        if retimes {
            self.put_clip(i, c);
        } else {
            self.set_main(i, c);
        }
        self.follow_up(after);
    }

    /// Change cutaway `j`; where a point of it was moved, the plan that shows its frame.
    pub fn edit_overlay(&mut self, j: usize, edit: OverlayEdit) -> (r: Option<MonitorPlan>)
        requires
            old(self)@.wf(),
            j < old(self).reel.overlays.len(),
            edit.wf(),
        ensures
            final(self)@ == old(self)@.overlay_edited(j, edit),
            final(self)@.wf(),
            ({
                let o = edit.applied(old(self)@.reel.overlays[j as int], old(self)@.reel.v_lanes);
                match edit.peeked(o) {
                    Some(at) => r matches Some(p) && is_source_frame(p, o, at),
                    None => r is None,
                }
            }),
    {
        let t: String = edit.tag_for(j);
        let peek_in: bool = matches!(edit, OverlayEdit::In(_));
        let peek_out: bool = matches!(edit, OverlayEdit::Out(_));
        let after: After = edit.follows();
        self.push_undo(t.as_str());
        proof {
            crate::model::lemma_overlays_ok_at(self@.reel.overlays, j as int);
        }
        let o: OverlayItem = edit.apply(&self.reel.overlays[j], self.reel.v_lanes);
        let plan: Option<MonitorPlan> = if peek_in {
            Some(o.source_frame(o.in_s))
        } else if peek_out {
            Some(o.source_frame(o.out_s))
        } else {
            None
        };
        self.set_over(j, o);
        self.follow_up(after);
        plan
    }

    /// Change layer `k`.
    pub fn edit_layer(&mut self, k: usize, edit: LayerEdit)
        requires
            old(self)@.wf(),
            k < old(self).reel.adjustments.len(),
        ensures
            final(self)@ == old(self)@.layer_edited(k, edit),
            final(self)@.wf(),
    {
        self.push_undo("");
        let n: usize = self.reel.clips.len();
        proof {
            crate::model::lemma_adjustments_ok_at(self@.reel.adjustments, k as int);
            lemma_start_axis(self@.reel.clips, n as int);
        }
        let mut a: AdjustmentItem = self.reel.adjustments[k].clone();
        match edit {
            LayerEdit::StartAtPlayhead => {
                a.at = self.playhead;
            },
            LayerEdit::WholeReel => {
                a.at = 0;
                a.dur = greater(total_of(&self.reel.clips), MIN_PIECE);
            },
        }
        self.set_adjust(k, a);
        self.seek_to(self.playhead);
    }

    /// Change strip `i` of the mixer.
    pub fn edit_strip(&mut self, i: usize, edit: StripEdit)
        requires
            old(self)@.wf(),
            i < old(self).reel.mixer.tracks.len(),
        ensures
            final(self)@ == old(self)@.strip_set(i, edit),
            final(self)@.wf(),
    {
        let ghost was = self@;
        let t: String = match edit {
            StripEdit::Gain(_) => tag("mixg", i),
            _ => "".to_owned(),
        };
        self.push_undo(t.as_str());
        let mut b: Bus = self.reel.mixer.tracks[i];
        match edit {
            StripEdit::Mute => {
                b.mute = !b.mute;
            },
            StripEdit::Solo => {
                b.solo = !b.solo;
            },
            StripEdit::Gain(gain) => {
                b.gain = gain;
            },
        }
        self.reel.mixer.tracks[i] = b;
        assert(self.reel.mixer.tracks@ =~= was.reel.mixer.tracks.update(i as int, b));
    }

    /// Set the level of the whole mix.
    pub fn set_master(&mut self, gain: u32)
        requires
            old(self)@.wf(),
        ensures
            final(self)@ == old(self)@.master_set(gain),
            final(self)@.wf(),
    {
        self.push_undo("mixmaster");
        self.reel.mixer.master = gain;
    }

    /// Put a colour behind every clip.
    pub fn set_background(&mut self, bg: u8, label: &str)
        requires
            old(self)@.wf(),
        ensures
            final(self)@ == old(self)@.backdropped(bg, label@),
            final(self)@.wf(),
    {
        if self.reel.clips.len() == 0 {
            return;
        }
        self.push_undo("bg");
        self.back_clips(bg);
        self.seek_to(self.playhead);
        self.status = cat3("Background: ", label, " — shows behind a banded clip.");
    }

    fn back_clips(&mut self, bg: u8)
        requires
            old(self)@.wf(),
        ensures
            final(self)@ == (EditorView {
                reel: Reel { clips: backed(old(self)@.reel.clips, bg), ..old(self)@.reel },
                ..old(self)@
            }),
            final(self)@.wf(),
    {
        let ghost was = self@;
        let ghost to = backed(was.reel.clips, bg);
        let n: usize = self.reel.clips.len();
        let mut k: usize = 0;
        while k < n
            invariant
                k <= n,
                n == was.reel.clips.len(),
                was.wf(),
                to == backed(was.reel.clips, bg),
                self@ == (EditorView { reel: Reel { clips: self.reel.clips@, ..was.reel }, ..was }),
                self.reel.clips.len() == n,
                self@.wf(),
                forall|j: int| 0 <= j < k ==> #[trigger] self.reel.clips@[j] == to[j],
                forall|j: int| k <= j < n ==> #[trigger] self.reel.clips@[j] == was.reel.clips[j],
            decreases n - k,
        {
            proof {
                crate::model::lemma_sound_at(self@.reel.clips, k as int);
            }
            let mut c: Clip = self.reel.clips[k].clone();
            c.look.transform.bg = bg;
            assert(c == to[k as int]);
            self.set_main(k, c);
            k += 1;
        }
        assert(self.reel.clips@ =~= to);
    }

    /// Lay the selected picture out in a band.
    pub fn set_band(&mut self, band: Band)
        requires
            old(self)@.wf(),
        ensures
            final(self)@ == old(self)@.band_set(band),
            final(self)@.wf(),
    {
        self.push_undo("band");
        let mut t: Transform = match self.selected_xf() {
            Some(t) => t,
            None => Transform::default(),
        };
        let fill: bool = matches!(band, Band::Fill);
        t.scale = Animated::Const(1000);
        t.scale_x = 1000;
        t.scale_y = if fill { 1000 } else { BAND_HEIGHT };
        t.x = 0;
        t.y = match band {
            Band::High => -BAND_OFFSET,
            Band::Low => BAND_OFFSET,
            _ => 0,
        };
        t.rotation = 0;
        t.cover = !fill;
        self.set_selected_xf(t);
        self.status = match band {
            Band::Fill => "Filling the frame.".to_owned(),
            Band::High => "Band set — pick a Background (Bg) for the surround, then add Text below.".to_owned(),
            Band::Centre => "Band set — pick a Background (Bg) for the surround, then add Text above or below.".to_owned(),
            Band::Low => "Band set — pick a Background (Bg) for the surround, then add Text above.".to_owned(),
        };
    }

    /// The mouse was released: the next drag of the same control is a step of its own.
    pub fn end_interaction(&mut self)
        requires
            old(self)@.wf(),
        ensures
            final(self)@ == (EditorView { undo_tag: ""@, ..old(self)@ }),
            final(self)@.wf(),
    {
        self.undo_tag = "".to_owned();
    }
}

/// Law: whatever point the inspector asks for, what is left of a source is inside
/// of it; and where the source is long enough, it keeps a tenth of a second.
pub proof fn law_points_stay_apart(v: int, in_s: int, out_s: int, duration: int)
    requires
        0 <= v <= duration,
        0 <= in_s <= out_s <= duration,
    ensures
        0 <= in_point(v, out_s) <= duration,
        0 <= out_point(v, in_s, duration) <= duration,
        out_s >= MIN_PIECE ==> out_s - in_point(v, out_s) >= MIN_PIECE,
        in_s + MIN_PIECE <= duration ==> out_point(v, in_s, duration) - in_s >= MIN_PIECE,
{
}

/// Law: reversing a clip or a cutaway twice leaves it as it was.
pub proof fn law_reverse_twice(c: Clip, o: OverlayItem, v_lanes: u8)
    ensures
        ClipEdit::Reverse.applied(ClipEdit::Reverse.applied(c)) == c,
        OverlayEdit::Reverse.applied(OverlayEdit::Reverse.applied(o, v_lanes), v_lanes) == o,
{
}

/// Law: a control of a clip or a cutaway that is dragged is one step to undo, and
/// undoing it brings back the reel before the first change.
pub proof fn law_picture_drag_is_one_step(
    e: EditorView,
    i: usize,
    c1: ClipEdit,
    c2: ClipEdit,
    o1: OverlayEdit,
    o2: OverlayEdit,
)
    ensures
        e.undo_tag != c1.step(i) && c1.step(i).len() > 0 && c2.step(i) == c1.step(i) ==> {
            &&& e.clip_edited(i, c1).undo.last() == e.reel
            &&& e.clip_edited(i, c1).clip_edited(i, c2).undo == e.clip_edited(i, c1).undo
        },
        e.undo_tag != o1.step(i) && o1.step(i).len() > 0 && o2.step(i) == o1.step(i) ==> {
            &&& e.overlay_edited(i, o1).undo.last() == e.reel
            &&& e.overlay_edited(i, o1).overlay_edited(i, o2).undo == e.overlay_edited(i, o1).undo
        },
{
    reveal(EditorView::pushed);
}

/// Law: an edit of a clip sets what it names and nothing else; a speed is never under a
/// twentieth.
pub proof fn law_clip_edits(c: Clip, text: String, choice: Option<String>, v: u32, t: Time)
    ensures
        ({
            let a = ClipEdit::Framing(text).applied(c);
            a.framing == text && a == (Clip { framing: a.framing, ..c })
        }),
        ({
            let a = ClipEdit::Effect(choice).applied(c);
            &&& a.look.effect == choice && a == (Clip { look: a.look, ..c })
            &&& a.look == (Look { effect: a.look.effect, ..c.look })
        }),
        ({
            let a = ClipEdit::Speed(v).applied(c);
            &&& a == (Clip { speed: a.speed, ..c })
            &&& 20 * v >= 1000 ==> a.speed == v
            &&& 20 * v < 1000 ==> 20 * a.speed == 1000
        }),
        ({
            let a = ClipEdit::Reverse.applied(c);
            a.reverse != c.reverse && a == (Clip { reverse: a.reverse, ..c })
        }),
        ({
            let a = ClipEdit::Volume(v).applied(c);
            a.volume == v && a == (Clip { volume: a.volume, ..c })
        }),
        ({
            let a = ClipEdit::Denoise(v).applied(c);
            a.denoise == v && a == (Clip { denoise: a.denoise, ..c })
        }),
        ({
            let a = ClipEdit::Treat(choice).applied(c);
            a.treat == choice && a == (Clip { treat: a.treat, ..c })
        }),
        ({
            let a = ClipEdit::Transition(choice).applied(c);
            a.transition == choice && a == (Clip { transition: a.transition, ..c })
        }),
        ({
            let a = ClipEdit::TransitionLength(t).applied(c);
            a.trans_dur == t && a == (Clip { trans_dur: a.trans_dur, ..c })
        }),
{
}

/// Law: an edit in the inspector changes the clip it is about and no other; where it
/// changes how long the clip is, what rides on the track follows with the magnet.
pub proof fn law_clip_edit_touches_one(e: EditorView, i: usize, edit: ClipEdit)
    requires
        i < e.reel.clips.len(),
        e.undo_tag.len() == 0,
    ensures
        ({
            let f = e.clip_edited(i, edit);
            &&& one_edit(e, f)
            &&& same_but(e.reel.clips, f.reel.clips, i as int)
            &&& f.reel.clips[i as int] == edit.applied(e.reel.clips[i as int])
            &&& crate::trims::other_lanes_stay(e, f)
            &&& !(edit is Speed) && !(edit is Transition) && !(edit is TransitionLength) ==> f.reel == (Reel {
                clips: f.reel.clips,
                ..e.reel
            })
        }),
{
    crate::editor::lemma_pushed_alone(e, edit.step(i));
    let clips = e.reel.clips.update(i as int, edit.applied(e.reel.clips[i as int]));
    crate::magnet::lemma_carried(
        Reel { clips, ..e.reel },
        crate::track::spans_of(e.reel.clips),
        crate::trims::starts_by(clips, crate::trims::in_place(clips.len())),
    );
}

/// Law: an edit that retimes a clip takes along, with the magnet, what stands on it and
/// behind it.
pub proof fn law_retiming_carries_riders(e: EditorView, i: usize, edit: ClipEdit, k: int)
    requires
        e.magnet,
        e.reel.wf(),
        crate::trims::reel_track(e.reel.clips),
        i < e.reel.clips.len(),
        edit.wf(),
        edit is Speed || edit is Transition || edit is TransitionLength,
        0 <= k < e.reel.clips.len(),
    ensures
        crate::trims::rides_along(e, e.clip_edited(i, edit), k, k),
{
    reveal(EditorView::pushed);
    reveal(crate::model::sound);
    assert(e.reel.clips[i as int].wf());
    let clips = e.reel.clips.update(i as int, edit.applied(e.reel.clips[i as int]));
    let starts = crate::trims::starts_by(clips, crate::trims::in_place(clips.len()));
    assert(crate::model::sound(clips));
    crate::trims::law_riders(e.pushed(edit.step(i)), clips, starts, k, k);
    crate::magnet::lemma_carried(Reel { clips, ..e.reel }, crate::track::spans_of(e.reel.clips), starts);
}

/// Law: an edit of a cutaway sets what it names and nothing else. Its track is one that
/// exists, from V2 up; its in and out points stay a tenth of a second apart.
pub proof fn law_cutaway_edits(o: OverlayItem, lanes: u8, text: String, choice: Option<String>, v: u32, n: u8, t: Time)
    requires
        o.wf(),
        o.in_s + MIN_PIECE <= o.out_s <= o.duration,
        1 <= lanes < 255,
    ensures
        ({
            let a = OverlayEdit::Track(n).applied(o, lanes);
            &&& a == (OverlayItem { track: a.track, ..o })
            &&& 2 <= n <= 1 + lanes ==> a.track == n
            &&& n < 2 ==> a.track == 2
            &&& n > 1 + lanes ==> a.track == 1 + lanes
        }),
        OverlayEdit::At(t).applied(o, lanes) == (OverlayItem { at: t, ..o }),
        ({
            let a = OverlayEdit::In(t).applied(o, lanes);
            &&& a == (OverlayItem { in_s: a.in_s, ..o })
            &&& 0 <= t <= o.out_s - MIN_PIECE ==> a.in_s == t
            &&& t > o.out_s - MIN_PIECE ==> o.out_s - a.in_s == MIN_PIECE
        }),
        ({
            let a = OverlayEdit::Out(t).applied(o, lanes);
            &&& a == (OverlayItem { out_s: a.out_s, ..o })
            &&& o.in_s + MIN_PIECE <= t <= o.duration ==> a.out_s == t
            &&& t < o.in_s + MIN_PIECE ==> a.out_s - o.in_s == MIN_PIECE
            &&& t > o.duration ==> a.out_s == o.duration
        }),
        OverlayEdit::Framing(text).applied(o, lanes) == (OverlayItem { framing: text, ..o }),
        ({
            let a = OverlayEdit::Effect(choice).applied(o, lanes);
            &&& a == (OverlayItem { look: a.look, ..o })
            &&& a.look == (Look { effect: choice, ..o.look })
        }),
        ({
            let a = OverlayEdit::Speed(v).applied(o, lanes);
            &&& a == (OverlayItem { speed: a.speed, ..o })
            &&& 20 * v >= 1000 ==> a.speed == v
            &&& 20 * v < 1000 ==> 20 * a.speed == 1000
        }),
        OverlayEdit::Reverse.applied(o, lanes) == (OverlayItem { reverse: !o.reverse, ..o }),
{
}

/// Law: an edit of a cutaway touches that cutaway and nothing else.
pub proof fn law_cutaway_edit_touches_one(e: EditorView, j: usize, edit: OverlayEdit)
    requires
        j < e.reel.overlays.len(),
        e.undo_tag.len() == 0,
    ensures
        ({
            let f = e.overlay_edited(j, edit);
            &&& one_edit(e, f)
            &&& f.reel == (Reel { overlays: f.reel.overlays, ..e.reel })
            &&& same_but(e.reel.overlays, f.reel.overlays, j as int)
            &&& f.reel.overlays[j as int] == edit.applied(e.reel.overlays[j as int], e.reel.v_lanes)
            &&& f.playhead == e.playhead || crate::track::total(e.reel.clips) < e.playhead
        }),
        edit matches OverlayEdit::In(_) ==> edit.peeked(e.reel.overlays[j as int]) == Some(e.reel.overlays[j as int].in_s),
        edit matches OverlayEdit::Out(_) ==> edit.peeked(e.reel.overlays[j as int]) == Some(
            e.reel.overlays[j as int].out_s,
        ),
{
    crate::editor::lemma_pushed_alone(e, edit.step(j));
}

/// Law: a layer can be made to start at the playhead, or to cover the whole reel; its
/// look stays.
pub proof fn law_layer_edits(e: EditorView, k: usize)
    requires
        k < e.reel.adjustments.len(),
        crate::trims::reel_track(e.reel.clips),
    ensures
        ({
            let a = e.reel.adjustments[k as int];
            let p = e.layer_edited(k, LayerEdit::StartAtPlayhead);
            let w = e.layer_edited(k, LayerEdit::WholeReel);
            let b = w.reel.adjustments[k as int];
            &&& one_edit(e, p) && one_edit(e, w)
            &&& p.reel == (Reel { adjustments: p.reel.adjustments, ..e.reel })
            &&& w.reel == (Reel { adjustments: w.reel.adjustments, ..e.reel })
            &&& same_but(e.reel.adjustments, p.reel.adjustments, k as int)
            &&& same_but(e.reel.adjustments, w.reel.adjustments, k as int)
            &&& p.reel.adjustments[k as int] == (AdjustmentItem { at: e.playhead, ..a })
            &&& b == (AdjustmentItem { at: 0, dur: b.dur, ..a })
            &&& total(e.reel.clips) >= MIN_PIECE ==> b.dur == total(e.reel.clips)
            &&& total(e.reel.clips) < MIN_PIECE ==> b.dur == MIN_PIECE
        }),
{
    reveal_strlit("");
    crate::editor::lemma_pushed_alone(e, ""@);
    lemma_start_axis(e.reel.clips, e.reel.clips.len() as int);
}

/// Law: the buttons and the fader of a strip change that strip alone; mute and solo go
/// back on a second press. The master changes no strip.
pub proof fn law_strip_edits(e: EditorView, i: usize, gain: u32)
    requires
        i < e.reel.mixer.tracks.len(),
        e.undo_tag.len() == 0,
    ensures
        ({
            let was = e.reel.mixer.tracks[i as int];
            let m = e.strip_set(i, StripEdit::Mute);
            let s = e.strip_set(i, StripEdit::Solo);
            let g = e.strip_set(i, StripEdit::Gain(gain));
            let o = e.master_set(gain);
            &&& one_edit(e, m) && one_edit(e, s) && one_edit(e, g) && one_edit(e, o)
            &&& m.reel == (Reel { mixer: m.reel.mixer, ..e.reel }) && s.reel == (Reel { mixer: s.reel.mixer, ..e.reel })
            &&& g.reel == (Reel { mixer: g.reel.mixer, ..e.reel }) && o.reel == (Reel { mixer: o.reel.mixer, ..e.reel })
            &&& same_but(e.reel.mixer.tracks, m.reel.mixer.tracks, i as int) && m.reel.mixer.master == e.reel.mixer.master
            &&& same_but(e.reel.mixer.tracks, s.reel.mixer.tracks, i as int) && s.reel.mixer.master == e.reel.mixer.master
            &&& same_but(e.reel.mixer.tracks, g.reel.mixer.tracks, i as int) && g.reel.mixer.master == e.reel.mixer.master
            &&& m.reel.mixer.tracks[i as int].mute != was.mute && m.reel.mixer.tracks[i as int] == (Bus {
                mute: !was.mute,
                ..was
            })
            &&& s.reel.mixer.tracks[i as int].solo != was.solo && s.reel.mixer.tracks[i as int] == (Bus {
                solo: !was.solo,
                ..was
            })
            &&& g.reel.mixer.tracks[i as int] == (Bus { gain, ..was })
            &&& o.reel.mixer.master == gain && o.reel.mixer.tracks == e.reel.mixer.tracks
            &&& m.strip_set(i, StripEdit::Mute).reel.mixer.tracks == e.reel.mixer.tracks
            &&& s.strip_set(i, StripEdit::Solo).reel.mixer.tracks == e.reel.mixer.tracks
        }),
{
    reveal_strlit("");
    crate::editor::lemma_pushed_alone(e, ""@);
    crate::editor::lemma_pushed_alone(e, tagged("mixg"@, i));
    crate::editor::lemma_pushed_alone(e, "mixmaster"@);
    reveal(EditorView::pushed);
    let m = e.strip_set(i, StripEdit::Mute).strip_set(i, StripEdit::Mute).reel.mixer.tracks;
    let s = e.strip_set(i, StripEdit::Solo).strip_set(i, StripEdit::Solo).reel.mixer.tracks;
    assert(m =~= e.reel.mixer.tracks);
    assert(s =~= e.reel.mixer.tracks);
}

/// Law: a background goes behind every clip of the main track and changes nothing else
/// about any of them.
pub proof fn law_background(e: EditorView, bg: u8, label: Seq<char>)
    requires
        e.undo_tag.len() == 0,
    ensures
        ({
            let f = e.backdropped(bg, label);
            &&& e.reel.clips.len() == 0 ==> f == e
            &&& e.reel.clips.len() > 0 ==> one_edit(e, f)
            &&& f.reel == (Reel { clips: f.reel.clips, ..e.reel })
            &&& f.reel.clips.len() == e.reel.clips.len()
            &&& forall|k: int|
                0 <= k < e.reel.clips.len() ==> {
                    let d = #[trigger] f.reel.clips[k];
                    &&& d == (Clip { look: d.look, ..e.reel.clips[k] })
                    &&& d.look == (Look { transform: d.look.transform, ..e.reel.clips[k].look })
                    &&& d.look.transform == (Transform { bg, ..e.reel.clips[k].look.transform })
                }
        }),
{
    crate::editor::lemma_pushed_alone(e, "bg"@);
}

/// Law: a band is a third of the frame high and as wide, above, in or below the middle;
/// filling the frame undoes it. Mirroring, opacity and the background stay.
pub proof fn law_band(t: Transform)
    ensures
        ({
            let (f, h, c, l) = (banded(t, Band::Fill), banded(t, Band::High), banded(t, Band::Centre), banded(t, Band::Low));
            &&& !f.cover && f.scale_y == 1000 && f.y == 0
            &&& h.cover && c.cover && l.cover
            &&& h.scale_y == c.scale_y && c.scale_y == l.scale_y && 0 < c.scale_y && 2 * c.scale_y < 1000
            &&& h.y < 0 && c.y == 0 && l.y == -h.y
            &&& f.scale_x == 1000 && h.scale_x == 1000 && c.scale_x == 1000 && l.scale_x == 1000
            &&& f.x == 0 && h.x == 0 && c.x == 0 && l.x == 0 && f.rotation == 0 && h.rotation == 0
            &&& banded(h, Band::Fill) == f && banded(l, Band::Fill) == f
            &&& (h.flip_h, h.flip_v, h.opacity, h.bg) == (t.flip_h, t.flip_v, t.opacity, t.bg)
            &&& c.scale_y == 340 && l.y == 220
        }),
{
}

} // verus!
