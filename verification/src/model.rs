//! What is on the timeline: clips, overlays, audio beds, title cards and
//! adjustment layers, the mixer, and the snapshot that holds them all.

use crate::keyframes::Animated;
use crate::time::{in_source, on_axis, Time};
use vstd::prelude::*;

verus! {

/// Which item is selected, by lane and index.
#[derive(Clone, Copy, PartialEq, Eq, Structural, Debug)]
pub enum Sel {
    /// A clip on V1.
    Main(usize),
    /// A cutaway on V2 and up.
    Over(usize),
    /// A bed on an audio lane.
    Aud(usize),
    /// A card on a text lane.
    Title(usize),
    /// An adjustment layer.
    Adjust(usize),
}

/// The editing step the workspace is arranged for.
#[derive(Clone, Copy, PartialEq, Eq, Structural, Debug)]
pub enum Phase {
    Add,
    Cut,
    Style,
    Effects,
    Background,
    Text,
    Audio,
    Export,
}

/// Where and how a picture sits in the frame. Fractions are thousandths,
/// rotation is thousandths of a degree. The size and the opacity can follow a curve.
#[derive(PartialEq, Eq, Debug)]
pub struct Transform {
    pub x: i32,
    pub y: i32,
    pub scale: Animated,
    pub scale_x: i32,
    pub scale_y: i32,
    pub rotation: i32,
    pub anchor_x: i32,
    pub anchor_y: i32,
    pub opacity: Animated,
    pub flip_h: bool,
    pub flip_v: bool,
    pub cover: bool,
    /// The colour behind the picture, by its place in the palette; zero is black.
    pub bg: u8,
}

impl Transform {
    /// The picture as it comes: full frame, upright, opaque.
    pub open spec fn identity() -> Transform {
        Transform {
            x: 0,
            y: 0,
            scale: Animated::Const(1000),
            scale_x: 1000,
            scale_y: 1000,
            rotation: 0,
            anchor_x: 0,
            anchor_y: 0,
            opacity: Animated::Const(1000),
            flip_h: false,
            flip_v: false,
            cover: false,
            bg: 0,
        }
    }
}

impl Clone for Transform {
    fn clone(&self) -> (r: Self)
        ensures
            r == *self,
    {
        Transform {
            x: self.x,
            y: self.y,
            scale: self.scale.clone(),
            scale_x: self.scale_x,
            scale_y: self.scale_y,
            rotation: self.rotation,
            anchor_x: self.anchor_x,
            anchor_y: self.anchor_y,
            opacity: self.opacity.clone(),
            flip_h: self.flip_h,
            flip_v: self.flip_v,
            cover: self.cover,
            bg: self.bg,
        }
    }
}

impl Default for Transform {
    fn default() -> (r: Self)
        ensures
            r == Transform::identity(),
    {
        Transform {
            x: 0,
            y: 0,
            scale: Animated::Const(1000),
            scale_x: 1000,
            scale_y: 1000,
            rotation: 0,
            anchor_x: 0,
            anchor_y: 0,
            opacity: Animated::Const(1000),
            flip_h: false,
            flip_v: false,
            cover: false,
            bg: 0,
        }
    }
}

/// The added look of a picture: what "paste look" carries from one item to another.
pub struct Look {
    /// The effect by name, or none.
    pub effect: Option<String>,
    /// How strong the effect is, in thousandths.
    pub effect_amount: u32,
    pub transform: Transform,
    /// The colour grade, by its number in the project; zero is neutral.
    pub grade: u32,
}

impl Look {
    /// No effect, identity transform, neutral grade.
    pub open spec fn plain() -> Look {
        Look { effect: None, effect_amount: 1000, transform: Transform::identity(), grade: 0 }
    }
}

impl Clone for Look {
    fn clone(&self) -> (r: Self)
        ensures
            r == *self,
    {
        Look {
            effect: self.effect.clone(),
            effect_amount: self.effect_amount,
            transform: self.transform.clone(),
            grade: self.grade,
        }
    }
}

impl Default for Look {
    fn default() -> (r: Self)
        ensures
            r == Look::plain(),
    {
        Look { effect: None, effect_amount: 1000, transform: Transform::default(), grade: 0 }
    }
}

/// A clip on the main track. Positions are in its source.
pub struct Clip {
    pub path: String,
    pub name: String,
    pub duration: Time,
    pub in_s: Time,
    pub out_s: Time,
    pub has_audio: bool,
    pub look: Look,
    pub framing: String,
    /// How many thousandths of a source second pass in a second of reel.
    pub speed: u32,
    pub reverse: bool,
    /// Gain in thousandths.
    pub volume: u32,
    pub denoise: u32,
    pub treat: Option<String>,
    /// How the clip before blends into this one; none is a hard cut.
    pub transition: Option<String>,
    pub trans_dur: Time,
    pub thumb: String,
    pub wave: String,
    pub proxy: String,
    /// The group the clip belongs to; zero is none.
    pub group: u64,
    pub enabled: bool,
    pub solo: bool,
}

impl Clip {
    pub open spec fn wf(&self) -> bool {
        &&& in_source(self.duration)
        &&& in_source(self.in_s)
        &&& in_source(self.out_s)
        &&& in_source(self.trans_dur)
    }
}

impl Clone for Clip {
    fn clone(&self) -> (r: Self)
        ensures
            r == *self,
    {
        Clip {
            path: self.path.clone(),
            name: self.name.clone(),
            duration: self.duration,
            in_s: self.in_s,
            out_s: self.out_s,
            has_audio: self.has_audio,
            look: self.look.clone(),
            framing: self.framing.clone(),
            speed: self.speed,
            reverse: self.reverse,
            volume: self.volume,
            denoise: self.denoise,
            treat: self.treat.clone(),
            transition: self.transition.clone(),
            trans_dur: self.trans_dur,
            thumb: self.thumb.clone(),
            wave: self.wave.clone(),
            proxy: self.proxy.clone(),
            group: self.group,
            enabled: self.enabled,
            solo: self.solo,
        }
    }
}

/// A cutaway over the main track, free on the time axis.
pub struct OverlayItem {
    pub path: String,
    pub name: String,
    pub duration: Time,
    pub in_s: Time,
    pub out_s: Time,
    pub at: Time,
    pub look: Look,
    pub framing: String,
    pub speed: u32,
    pub reverse: bool,
    pub blend: String,
    /// The track: two is V2, the lowest.
    pub track: u8,
    pub proxy: String,
    pub group: u64,
    pub enabled: bool,
    pub solo: bool,
}

impl OverlayItem {
    pub open spec fn wf(&self) -> bool {
        &&& in_source(self.duration)
        &&& in_source(self.in_s)
        &&& in_source(self.out_s)
        &&& on_axis(self.at)
    }
}

impl Clone for OverlayItem {
    fn clone(&self) -> (r: Self)
        ensures
            r == *self,
    {
        OverlayItem {
            path: self.path.clone(),
            name: self.name.clone(),
            duration: self.duration,
            in_s: self.in_s,
            out_s: self.out_s,
            at: self.at,
            look: self.look.clone(),
            framing: self.framing.clone(),
            speed: self.speed,
            reverse: self.reverse,
            blend: self.blend.clone(),
            track: self.track,
            proxy: self.proxy.clone(),
            group: self.group,
            enabled: self.enabled,
            solo: self.solo,
        }
    }
}

/// How an audio bed is cleaned and shaped, all in thousandths but for the
/// noise floor, which is in decibels.
#[derive(Clone, Copy, PartialEq, Eq, Structural, Debug)]
pub struct Shaping {
    pub duck: u32,
    pub denoise: u32,
    pub noise_floor: i32,
    pub track_noise: bool,
    pub compress: u32,
    pub gate: u32,
    pub declick: u32,
}

/// A bed under the main track.
pub struct AudioItem {
    pub path: String,
    pub name: String,
    pub duration: Time,
    pub in_s: Time,
    pub out_s: Time,
    pub at: Time,
    pub volume: u32,
    /// The gain at the tail; none holds the gain flat.
    pub vol_end: Option<u32>,
    pub fade_in: Time,
    pub fade_out: Time,
    pub shaping: Shaping,
    pub treat: Option<String>,
    /// The bus: one is A1.
    pub lane: u8,
    pub wave: String,
    pub group: u64,
    pub enabled: bool,
    pub solo: bool,
}

impl AudioItem {
    pub open spec fn wf(&self) -> bool {
        &&& in_source(self.duration)
        &&& in_source(self.in_s)
        &&& in_source(self.out_s)
        &&& on_axis(self.at)
        &&& in_source(self.fade_in)
        &&& in_source(self.fade_out)
    }
}

impl Clone for AudioItem {
    fn clone(&self) -> (r: Self)
        ensures
            r == *self,
    {
        AudioItem {
            path: self.path.clone(),
            name: self.name.clone(),
            duration: self.duration,
            in_s: self.in_s,
            out_s: self.out_s,
            at: self.at,
            volume: self.volume,
            vol_end: self.vol_end,
            fade_in: self.fade_in,
            fade_out: self.fade_out,
            shaping: self.shaping,
            treat: self.treat.clone(),
            lane: self.lane,
            wave: self.wave.clone(),
            group: self.group,
            enabled: self.enabled,
            solo: self.solo,
        }
    }
}

/// The look of a title card: everything but its words, its place and its time.
pub struct TitleStyle {
    pub font: String,
    pub font_size: u32,
    pub color: String,
    /// The named seat on the frame.
    pub pos: String,
    /// A free seat, in thousandths of the frame height, which beats the named one.
    pub y_frac: Option<u32>,
    pub align: String,
    pub anim: Option<String>,
    pub reveal: bool,
    pub karaoke: bool,
    pub karaoke_color: String,
    pub boxed: bool,
    pub box_opacity: u32,
    pub outline: u32,
    pub outline_color: String,
    pub bevel: String,
    pub bevel_size: u32,
    pub soften: u32,
    pub depth: u32,
    pub angle: u32,
    pub altitude: u32,
    pub hi_opacity: u32,
    pub sh_opacity: u32,
}

impl Clone for TitleStyle {
    fn clone(&self) -> (r: Self)
        ensures
            r == *self,
    {
        TitleStyle {
            font: self.font.clone(),
            font_size: self.font_size,
            color: self.color.clone(),
            pos: self.pos.clone(),
            y_frac: self.y_frac,
            align: self.align.clone(),
            anim: self.anim.clone(),
            reveal: self.reveal,
            karaoke: self.karaoke,
            karaoke_color: self.karaoke_color.clone(),
            boxed: self.boxed,
            box_opacity: self.box_opacity,
            outline: self.outline,
            outline_color: self.outline_color.clone(),
            bevel: self.bevel.clone(),
            bevel_size: self.bevel_size,
            soften: self.soften,
            depth: self.depth,
            angle: self.angle,
            altitude: self.altitude,
            hi_opacity: self.hi_opacity,
            sh_opacity: self.sh_opacity,
        }
    }
}

/// How a shape card lies on the frame, in thousandths of it: how far off the middle,
/// how wide and how high.
#[derive(Clone, Copy, PartialEq, Eq, Structural, Debug)]
pub struct Shape {
    pub across: i32,
    pub width: u32,
    pub height: u32,
}

/// A card on a text lane.
pub struct TitleItem {
    pub text: String,
    /// `Text`, or the name of a shape.
    pub kind: String,
    pub at: Time,
    pub dur: Time,
    pub style: TitleStyle,
    pub shape: Shape,
    pub caption: bool,
    pub group: u64,
    /// The track: one is T1, the lowest.
    pub track: u8,
    pub enabled: bool,
    /// The rendered cards, one for each step of the title; empty until rendered.
    pub pngs: Vec<String>,
}

/// A title card as a value.
#[verifier::ext_equal]
pub struct TitleView {
    pub text: String,
    pub kind: String,
    pub at: Time,
    pub dur: Time,
    pub style: TitleStyle,
    pub shape: Shape,
    pub caption: bool,
    pub group: u64,
    pub track: u8,
    pub enabled: bool,
    pub pngs: Seq<String>,
}

impl TitleView {
    pub open spec fn wf(&self) -> bool {
        &&& on_axis(self.at)
        &&& on_axis(self.dur)
    }
}

impl View for TitleItem {
    type V = TitleView;

    open spec fn view(&self) -> TitleView {
        TitleView {
            text: self.text,
            kind: self.kind,
            at: self.at,
            dur: self.dur,
            style: self.style,
            shape: self.shape,
            caption: self.caption,
            group: self.group,
            track: self.track,
            enabled: self.enabled,
            pngs: self.pngs@,
        }
    }
}

impl Clone for TitleItem {
    fn clone(&self) -> (r: Self)
        ensures
            r@ == self@,
    {
        let pngs: Vec<String> = self.pngs.clone();
        assert(pngs@ =~= self.pngs@);
        TitleItem {
            text: self.text.clone(),
            kind: self.kind.clone(),
            at: self.at,
            dur: self.dur,
            style: self.style.clone(),
            shape: self.shape,
            caption: self.caption,
            group: self.group,
            track: self.track,
            enabled: self.enabled,
            pngs,
        }
    }
}

/// The cards of a lane as values.
pub open spec fn cards(s: Seq<TitleItem>) -> Seq<TitleView> {
    Seq::new(s.len(), |i: int| s[i]@)
}

/// A grade and an effect over everything below, for a stretch of the reel.
pub struct AdjustmentItem {
    pub at: Time,
    pub dur: Time,
    pub effect: Option<String>,
    pub effect_amount: u32,
    pub grade: u32,
    pub group: u64,
    pub enabled: bool,
}

impl AdjustmentItem {
    pub open spec fn wf(&self) -> bool {
        &&& on_axis(self.at)
        &&& on_axis(self.dur)
    }

    /// A fresh layer: no effect yet, on, in no group.
    pub fn new(at: Time, dur: Time) -> (r: Self)
        ensures
            r == (AdjustmentItem {
                at,
                dur,
                effect: None,
                effect_amount: 1000,
                grade: 0,
                group: 0,
                enabled: true,
            }),
    {
        AdjustmentItem { at, dur, effect: None, effect_amount: 1000, grade: 0, group: 0, enabled: true }
    }
}

impl Clone for AdjustmentItem {
    fn clone(&self) -> (r: Self)
        ensures
            r == *self,
    {
        AdjustmentItem {
            at: self.at,
            dur: self.dur,
            effect: self.effect.clone(),
            effect_amount: self.effect_amount,
            grade: self.grade,
            group: self.group,
            enabled: self.enabled,
        }
    }
}

/// One strip of the mixer.
#[derive(Clone, Copy, PartialEq, Eq, Structural, Debug)]
pub struct Bus {
    /// Gain in thousandths.
    pub gain: u32,
    pub mute: bool,
    pub solo: bool,
}

/// The mixer: strip zero is V1's own sound, strip `n` is audio lane `n`.
pub struct Mixer {
    pub tracks: Vec<Bus>,
    pub master: u32,
}

/// The mixer as a value.
#[verifier::ext_equal]
pub struct MixerView {
    pub tracks: Seq<Bus>,
    pub master: u32,
}

impl View for Mixer {
    type V = MixerView;

    open spec fn view(&self) -> MixerView {
        MixerView { tracks: self.tracks@, master: self.master }
    }
}

impl Clone for Mixer {
    fn clone(&self) -> (r: Self)
        ensures
            r@ == self@,
    {
        let tracks: Vec<Bus> = self.tracks.clone();
        assert(tracks@ =~= self.tracks@);
        Mixer { tracks, master: self.master }
    }
}

/// Everything an edit can change, in one value: what the undo stack holds and
/// what a project file records.
pub struct Snapshot {
    pub clips: Vec<Clip>,
    pub overlays: Vec<OverlayItem>,
    pub audios: Vec<AudioItem>,
    pub titles: Vec<TitleItem>,
    pub adjustments: Vec<AdjustmentItem>,
    pub markers: Vec<Time>,
    pub mixer: Mixer,
    pub v_lanes: u8,
    pub t_lanes: u8,
    pub a_lanes: u8,
}

/// A snapshot as a value.
pub struct Reel {
    pub clips: Seq<Clip>,
    pub overlays: Seq<OverlayItem>,
    pub audios: Seq<AudioItem>,
    pub titles: Seq<TitleView>,
    pub adjustments: Seq<AdjustmentItem>,
    pub markers: Seq<Time>,
    pub mixer: MixerView,
    pub v_lanes: u8,
    pub t_lanes: u8,
    pub a_lanes: u8,
}

impl View for Snapshot {
    type V = Reel;

    open spec fn view(&self) -> Reel {
        Reel {
            clips: self.clips@,
            overlays: self.overlays@,
            audios: self.audios@,
            titles: cards(self.titles@),
            adjustments: self.adjustments@,
            markers: self.markers@,
            mixer: self.mixer@,
            v_lanes: self.v_lanes,
            t_lanes: self.t_lanes,
            a_lanes: self.a_lanes,
        }
    }
}

/// Every clip of a track is in range.
#[verifier::opaque]
pub open spec fn sound(clips: Seq<Clip>) -> bool {
    forall|i: int| 0 <= i < clips.len() ==> (#[trigger] clips[i]).wf()
}

#[verifier::opaque]
pub open spec fn overlays_ok(s: Seq<OverlayItem>) -> bool {
    forall|i: int| 0 <= i < s.len() ==> (#[trigger] s[i]).wf()
}

#[verifier::opaque]
pub open spec fn audios_ok(s: Seq<AudioItem>) -> bool {
    forall|i: int| 0 <= i < s.len() ==> (#[trigger] s[i]).wf()
}

#[verifier::opaque]
pub open spec fn titles_ok(s: Seq<TitleView>) -> bool {
    forall|i: int| 0 <= i < s.len() ==> (#[trigger] s[i]).wf()
}

#[verifier::opaque]
pub open spec fn adjustments_ok(s: Seq<AdjustmentItem>) -> bool {
    forall|i: int| 0 <= i < s.len() ==> (#[trigger] s[i]).wf()
}

#[verifier::opaque]
pub open spec fn markers_ok(s: Seq<Time>) -> bool {
    forall|i: int| 0 <= i < s.len() ==> on_axis(#[trigger] s[i])
}

pub proof fn lemma_sound_at(s: Seq<Clip>, i: int)
    requires
        sound(s),
        0 <= i < s.len(),
    ensures
        s[i].wf(),
{
    reveal(sound);
}

/// Putting an item in range in, anywhere, keeps a lane in range; so does taking one out.
pub proof fn lemma_sound(s: Seq<Clip>, i: int, x: Clip)
    requires
        sound(s),
    ensures
        0 <= i < s.len() && x.wf() ==> sound(s.update(i, x)),
        0 <= i <= s.len() && x.wf() ==> sound(s.insert(i, x)),
        x.wf() ==> sound(s.push(x)),
        0 <= i < s.len() ==> sound(s.remove(i)),
        0 <= i < s.len() ==> s[i].wf(),
{
    reveal(sound);
}

pub proof fn lemma_overlays_ok_at(s: Seq<OverlayItem>, i: int)
    requires
        overlays_ok(s),
        0 <= i < s.len(),
    ensures
        s[i].wf(),
{
    reveal(overlays_ok);
}

/// Putting an item in range in, anywhere, keeps a lane in range; so does taking one out.
pub proof fn lemma_overlays_ok(s: Seq<OverlayItem>, i: int, x: OverlayItem)
    requires
        overlays_ok(s),
    ensures
        0 <= i < s.len() && x.wf() ==> overlays_ok(s.update(i, x)),
        0 <= i <= s.len() && x.wf() ==> overlays_ok(s.insert(i, x)),
        x.wf() ==> overlays_ok(s.push(x)),
        0 <= i < s.len() ==> overlays_ok(s.remove(i)),
        0 <= i < s.len() ==> s[i].wf(),
{
    reveal(overlays_ok);
}

pub proof fn lemma_audios_ok_at(s: Seq<AudioItem>, i: int)
    requires
        audios_ok(s),
        0 <= i < s.len(),
    ensures
        s[i].wf(),
{
    reveal(audios_ok);
}

/// Putting an item in range in, anywhere, keeps a lane in range; so does taking one out.
pub proof fn lemma_audios_ok(s: Seq<AudioItem>, i: int, x: AudioItem)
    requires
        audios_ok(s),
    ensures
        0 <= i < s.len() && x.wf() ==> audios_ok(s.update(i, x)),
        0 <= i <= s.len() && x.wf() ==> audios_ok(s.insert(i, x)),
        x.wf() ==> audios_ok(s.push(x)),
        0 <= i < s.len() ==> audios_ok(s.remove(i)),
        0 <= i < s.len() ==> s[i].wf(),
{
    reveal(audios_ok);
}

pub proof fn lemma_titles_ok_at(s: Seq<TitleView>, i: int)
    requires
        titles_ok(s),
        0 <= i < s.len(),
    ensures
        s[i].wf(),
{
    reveal(titles_ok);
}

/// Putting an item in range in, anywhere, keeps a lane in range; so does taking one out.
pub proof fn lemma_titles_ok(s: Seq<TitleView>, i: int, x: TitleView)
    requires
        titles_ok(s),
    ensures
        0 <= i < s.len() && x.wf() ==> titles_ok(s.update(i, x)),
        0 <= i <= s.len() && x.wf() ==> titles_ok(s.insert(i, x)),
        x.wf() ==> titles_ok(s.push(x)),
        0 <= i < s.len() ==> titles_ok(s.remove(i)),
        0 <= i < s.len() ==> s[i].wf(),
{
    reveal(titles_ok);
}

pub proof fn lemma_adjustments_ok_at(s: Seq<AdjustmentItem>, i: int)
    requires
        adjustments_ok(s),
        0 <= i < s.len(),
    ensures
        s[i].wf(),
{
    reveal(adjustments_ok);
}

/// Putting an item in range in, anywhere, keeps a lane in range; so does taking one out.
pub proof fn lemma_adjustments_ok(s: Seq<AdjustmentItem>, i: int, x: AdjustmentItem)
    requires
        adjustments_ok(s),
    ensures
        0 <= i < s.len() && x.wf() ==> adjustments_ok(s.update(i, x)),
        0 <= i <= s.len() && x.wf() ==> adjustments_ok(s.insert(i, x)),
        x.wf() ==> adjustments_ok(s.push(x)),
        0 <= i < s.len() ==> adjustments_ok(s.remove(i)),
        0 <= i < s.len() ==> s[i].wf(),
{
    reveal(adjustments_ok);
}

pub proof fn lemma_markers_ok_at(s: Seq<Time>, i: int)
    requires
        markers_ok(s),
        0 <= i < s.len(),
    ensures
        on_axis(s[i]),
{
    reveal(markers_ok);
}

/// Putting an item in range in, anywhere, keeps a lane in range; so does taking one out.
pub proof fn lemma_markers_ok(s: Seq<Time>, i: int, x: Time)
    requires
        markers_ok(s),
    ensures
        0 <= i < s.len() && on_axis(x) ==> markers_ok(s.update(i, x)),
        0 <= i <= s.len() && on_axis(x) ==> markers_ok(s.insert(i, x)),
        on_axis(x) ==> markers_ok(s.push(x)),
        0 <= i < s.len() ==> markers_ok(s.remove(i)),
        0 <= i < s.len() ==> on_axis(s[i]),
{
    reveal(markers_ok);
}

impl Reel {
    /// Every time in the reel lies in its range.
    pub open spec fn wf(&self) -> bool {
        &&& sound(self.clips)
        &&& overlays_ok(self.overlays)
        &&& audios_ok(self.audios)
        &&& titles_ok(self.titles)
        &&& adjustments_ok(self.adjustments)
        &&& markers_ok(self.markers)
    }

    /// Whether a selection names an item that is there.
    pub open spec fn has(&self, s: Sel) -> bool {
        match s {
            Sel::Main(i) => i < self.clips.len(),
            Sel::Over(i) => i < self.overlays.len(),
            Sel::Aud(i) => i < self.audios.len(),
            Sel::Title(i) => i < self.titles.len(),
            Sel::Adjust(i) => i < self.adjustments.len(),
        }
    }
}

impl Clone for Snapshot {
    fn clone(&self) -> (r: Self)
        ensures
            r@ == self@,
    {
        let clips: Vec<Clip> = self.clips.clone();
        assert(clips@ =~= self.clips@);
        let overlays: Vec<OverlayItem> = self.overlays.clone();
        assert(overlays@ =~= self.overlays@);
        let audios: Vec<AudioItem> = self.audios.clone();
        assert(audios@ =~= self.audios@);
        let titles: Vec<TitleItem> = self.titles.clone();
        assert(cards(titles@) =~= cards(self.titles@));
        let adjustments: Vec<AdjustmentItem> = self.adjustments.clone();
        assert(adjustments@ =~= self.adjustments@);
        let markers: Vec<Time> = self.markers.clone();
        assert(markers@ =~= self.markers@);
        Snapshot {
            clips,
            overlays,
            audios,
            titles,
            adjustments,
            markers,
            mixer: self.mixer.clone(),
            v_lanes: self.v_lanes,
            t_lanes: self.t_lanes,
            a_lanes: self.a_lanes,
        }
    }
}

} // verus!
