//! What the inspector changes on audio beds.

use crate::drags::{tag, tagged};
use crate::editor::{one_edit, same_but, Editor, EditorView};
use crate::inspect::{in_point, out_point};
use crate::model::{AudioItem, Reel, Shaping};
use crate::text::{cat2, cat3, cat5, decimal, digits};
use crate::time::{
    clock_text, fmt_t, greater, hundredths, hundredths_text, in_source, lesser, lower, on_axis, place, placed,
    upper, Time, FRAME, MIN_PIECE, SECOND,
};
use crate::track::kept;
use vstd::prelude::*;

verus! {

/// The least noise reduction and compression of a polished voice, in thousandths.
pub const POLISH: u32 = 350;

/// A change the inspector makes to a bed.
pub enum BedEdit {
    Lane(u8),
    Volume(u32),
    /// The gain at the tail.
    VolumeEnd(u32),
    Duck(u32),
    FadeIn(Time),
    FadeOut(Time),
    /// Half a second at both ends, as far as it fits.
    FadeBoth,
    NoFades,
    Treat(Option<String>),
    Denoise(u32),
    NoiseFloor(i32),
    TrackNoise(bool),
    Compress(u32),
    Gate(u32),
    Declick(u32),
    /// Voice treatment with light cleaning.
    Polish,
    At(Time),
    /// A frame earlier.
    Earlier,
    /// A frame later.
    Later,
    In(Time),
    Out(Time),
}

/// The longest fade a bed has room for at each end.
pub open spec fn fade_room(a: AudioItem) -> int {
    kept(a.in_s, a.out_s) * 49 / 100
}

/// The lane a bed goes to when `n` is asked for.
pub open spec fn bed_lane(n: u8, lanes: u8) -> int {
    lower(upper(n as int, 1), lanes as int)
}

impl BedEdit {
    pub open spec fn wf(&self) -> bool {
        match *self {
            BedEdit::At(t) => on_axis(t),
            BedEdit::In(t) | BedEdit::Out(t) | BedEdit::FadeIn(t) | BedEdit::FadeOut(t) => in_source(t),
            _ => true,
        }
    }

    /// Whether the change makes `r` of bed `a`.
    pub open spec fn makes(&self, a: AudioItem, lanes: u8, r: AudioItem) -> bool {
        match *self {
            BedEdit::Lane(n) => r == (AudioItem { lane: bed_lane(n, lanes) as u8, ..a }),
            BedEdit::Volume(volume) => r == (AudioItem { volume, ..a }),
            BedEdit::VolumeEnd(v) => r == (AudioItem { vol_end: Some(v), ..a }),
            BedEdit::Duck(duck) => r == (AudioItem { shaping: Shaping { duck, ..a.shaping }, ..a }),
            BedEdit::FadeIn(fade_in) => r == (AudioItem { fade_in, ..a }),
            BedEdit::FadeOut(fade_out) => r == (AudioItem { fade_out, ..a }),
            BedEdit::FadeBoth => {
                let v = lower(SECOND / 2, fade_room(a)) as Time;
                r == (AudioItem { fade_in: v, fade_out: v, ..a })
            },
            BedEdit::NoFades => r == (AudioItem { fade_in: 0, fade_out: 0, ..a }),
            BedEdit::Treat(treat) => r == (AudioItem { treat, ..a }),
            BedEdit::Denoise(denoise) => r == (AudioItem { shaping: Shaping { denoise, ..a.shaping }, ..a }),
            BedEdit::NoiseFloor(noise_floor) => r == (AudioItem {
                shaping: Shaping { noise_floor, ..a.shaping },
                ..a
            }),
            BedEdit::TrackNoise(track_noise) => r == (AudioItem {
                shaping: Shaping { track_noise, ..a.shaping },
                ..a
            }),
            BedEdit::Compress(compress) => r == (AudioItem { shaping: Shaping { compress, ..a.shaping }, ..a }),
            BedEdit::Gate(gate) => r == (AudioItem { shaping: Shaping { gate, ..a.shaping }, ..a }),
            BedEdit::Declick(declick) => r == (AudioItem { shaping: Shaping { declick, ..a.shaping }, ..a }),
            BedEdit::Polish => {
                &&& r.treat is Some
                &&& r.treat->0@ == "Voice enhance"@
                &&& r == (AudioItem {
                    treat: r.treat,
                    shaping: Shaping {
                        denoise: upper(a.shaping.denoise as int, POLISH as int) as u32,
                        compress: upper(a.shaping.compress as int, POLISH as int) as u32,
                        ..a.shaping
                    },
                    ..a
                })
            },
            BedEdit::At(at) => r == (AudioItem { at, ..a }),
            BedEdit::Earlier => r == (AudioItem { at: placed(a.at - FRAME) as Time, ..a }),
            BedEdit::Later => r == (AudioItem { at: placed(a.at + FRAME) as Time, ..a }),
            BedEdit::In(v) => r == (AudioItem { in_s: in_point(v as int, a.out_s as int) as Time, ..a }),
            BedEdit::Out(v) => r == (AudioItem {
                out_s: out_point(v as int, a.in_s as int, a.duration as int) as Time,
                ..a
            }),
        }
    }

    /// The tag of the undo step for bed `k`.
    pub open spec fn step(&self, k: usize) -> Seq<char> {
        match *self {
            BedEdit::Lane(_) => ""@,
            BedEdit::Volume(_) => tagged("avol"@, k),
            BedEdit::VolumeEnd(_) => tagged("avole"@, k),
            BedEdit::Duck(_) => tagged("aduck"@, k),
            BedEdit::FadeIn(_) => tagged("afin"@, k),
            BedEdit::FadeOut(_) => tagged("afout"@, k),
            BedEdit::FadeBoth => ""@,
            BedEdit::NoFades => ""@,
            BedEdit::Treat(_) => ""@,
            BedEdit::Denoise(_) => tagged("aden"@, k),
            BedEdit::NoiseFloor(_) => tagged("anf"@, k),
            BedEdit::TrackNoise(_) => tagged("atn"@, k),
            BedEdit::Compress(_) => tagged("acmp"@, k),
            BedEdit::Gate(_) => tagged("agate"@, k),
            BedEdit::Declick(_) => tagged("adeclk"@, k),
            BedEdit::Polish => ""@,
            BedEdit::At(_) => tagged("apos"@, k),
            BedEdit::Earlier => tagged("anud"@, k),
            BedEdit::Later => tagged("anud"@, k),
            BedEdit::In(_) => tagged("ain"@, k),
            BedEdit::Out(_) => tagged("aout"@, k),
        }
    }

    fn tag_for(&self, k: usize) -> (r: String)
        ensures
            r@ == self.step(k),
    {
        match self {
            BedEdit::Lane(_) => "".to_owned(),
            BedEdit::Volume(_) => tag("avol", k),
            BedEdit::VolumeEnd(_) => tag("avole", k),
            BedEdit::Duck(_) => tag("aduck", k),
            BedEdit::FadeIn(_) => tag("afin", k),
            BedEdit::FadeOut(_) => tag("afout", k),
            BedEdit::FadeBoth => "".to_owned(),
            BedEdit::NoFades => "".to_owned(),
            BedEdit::Treat(_) => "".to_owned(),
            BedEdit::Denoise(_) => tag("aden", k),
            BedEdit::NoiseFloor(_) => tag("anf", k),
            BedEdit::TrackNoise(_) => tag("atn", k),
            BedEdit::Compress(_) => tag("acmp", k),
            BedEdit::Gate(_) => tag("agate", k),
            BedEdit::Declick(_) => tag("adeclk", k),
            BedEdit::Polish => "".to_owned(),
            BedEdit::At(_) => tag("apos", k),
            BedEdit::Earlier => tag("anud", k),
            BedEdit::Later => tag("anud", k),
            BedEdit::In(_) => tag("ain", k),
            BedEdit::Out(_) => tag("aout", k),
        }
    }

    fn apply(self, a: &AudioItem, lanes: u8) -> (r: AudioItem)
        requires
            a.wf(),
            self.wf(),
        ensures
            self.makes(*a, lanes, r),
            r.wf(),
    {
        let mut a: AudioItem = a.clone();
        match self {
            BedEdit::Lane(n) => {
                let n: u8 = if n > 1 { n } else { 1 };
                a.lane = if n > lanes { lanes } else { n };
            },
            BedEdit::Volume(v) => {
                a.volume = v;
            },
            BedEdit::VolumeEnd(v) => {
                a.vol_end = Some(v);
            },
            BedEdit::Duck(v) => {
                a.shaping.duck = v;
            },
            BedEdit::FadeIn(v) => {
                a.fade_in = v;
            },
            BedEdit::FadeOut(v) => {
                a.fade_out = v;
            },
            BedEdit::FadeBoth => {
                let room: Time = greater(a.out_s - a.in_s, 0) * 49 / 100;
                let v: Time = lesser(SECOND / 2, room);
                a.fade_in = v;
                a.fade_out = v;
            },
            BedEdit::NoFades => {
                a.fade_in = 0;
                a.fade_out = 0;
            },
            BedEdit::Treat(treat) => {
                a.treat = treat;
            },
            BedEdit::Denoise(v) => {
                a.shaping.denoise = v;
            },
            BedEdit::NoiseFloor(v) => {
                a.shaping.noise_floor = v;
            },
            BedEdit::TrackNoise(on) => {
                a.shaping.track_noise = on;
            },
            BedEdit::Compress(v) => {
                a.shaping.compress = v;
            },
            BedEdit::Gate(v) => {
                a.shaping.gate = v;
            },
            BedEdit::Declick(v) => {
                a.shaping.declick = v;
            },
            BedEdit::Polish => {
                a.treat = Some("Voice enhance".to_owned());
                if a.shaping.denoise < POLISH {
                    a.shaping.denoise = POLISH;
                }
                if a.shaping.compress < POLISH {
                    a.shaping.compress = POLISH;
                }
            },
            BedEdit::At(at) => {
                a.at = at;
            },
            BedEdit::Earlier => {
                a.at = place(a.at - FRAME);
            },
            BedEdit::Later => {
                a.at = place(a.at + FRAME);
            },
            BedEdit::In(v) => {
                a.in_s = greater(lesser(v, a.out_s - MIN_PIECE), 0);
            },
            BedEdit::Out(v) => {
                a.out_s = lesser(greater(v, a.in_s + MIN_PIECE), a.duration);
            },
        }
        a
    }
}

/// The name of the lane a bed is on.
pub open spec fn lane_name(lane: u8) -> Seq<char> {
    "A"@ + digits(upper(lane as int, 1) as nat)
}

pub fn lane_tag(lane: u8) -> (r: String)
    ensures
        r@ == lane_name(lane),
{
    let n: String = decimal(if lane > 1 { lane as u128 } else { 1 });
    cat2("A", n.as_str())
}

/// Tenths with a sign, as text.
pub open spec fn loudness_text(tenths: int) -> Seq<char> {
    let a = if tenths < 0 { -tenths } else { tenths };
    (if tenths < 0 { "-"@ } else { ""@ }) + digits((a / 10) as nat) + "."@ + digits((a % 10) as nat)
}

fn loudness(tenths: i64) -> (r: String)
    requires
        -1_000_000 <= tenths <= 1_000_000,
    ensures
        r@ == loudness_text(tenths as int),
{
    let a: i64 = if tenths < 0 { -tenths } else { tenths };
    let whole: String = decimal((a / 10) as u128);
    let part: String = decimal((a % 10) as u128);
    let n: String = cat3(whole.as_str(), ".", part.as_str());
    let r: String = cat2(if tenths < 0 { "-" } else { "" }, n.as_str());
    proof {
        let w = digits((a / 10) as nat);
        let p = digits((a % 10) as nat);
        assert((if tenths < 0 { "-"@ } else { ""@ }) + (w + "."@ + p) =~= loudness_text(tenths as int));
    }
    r
}

impl EditorView {
    /// After a bed was put at the playhead from the inspector.
    pub open spec fn bed_synced(self, k: usize) -> EditorView {
        let a = self.reel.audios[k as int];
        self.pushed(""@).put_aud(k as int, AudioItem { at: self.playhead, ..a }).says(
            "Synced "@ + lane_name(a.lane) + " start to "@ + clock_text(self.playhead as int) + "."@,
        )
    }

    /// After the loudness of a bed was measured: it plays at `gain` throughout.
    pub open spec fn bed_normalized(self, k: usize, was: int, gain: u32) -> EditorView {
        (if k < self.reel.audios.len() {
            self.put_aud(k as int, AudioItem { volume: gain, vol_end: None, ..self.reel.audios[k as int] })
        } else {
            self
        }).says(
            "Normalized to −14 LUFS (was "@ + loudness_text(was) + "; gain "@ + hundredths_text(
                crate::time::nearest(gain as int, 10),
            ) + "×)."@,
        )
    }
}

impl AudioItem {
    fn at_gain(&self, gain: u32) -> (r: AudioItem)
        ensures
            r == (AudioItem { volume: gain, vol_end: None, ..*self }),
    {
        let mut a: AudioItem = self.clone();
        a.volume = gain;
        a.vol_end = None;
        a
    }

    fn put_at(&self, at: Time) -> (r: AudioItem)
        ensures
            r == (AudioItem { at, ..*self }),
    {
        let mut a: AudioItem = self.clone();
        a.at = at;
        a
    }
}

impl Editor {
    /// Change bed `k`.
    pub fn edit_bed(&mut self, k: usize, edit: BedEdit)
        requires
            old(self)@.wf(),
            k < old(self).reel.audios.len(),
            edit.wf(),
        ensures
            edits_bed(old(self)@, k, edit, final(self)@),
            final(self)@.wf(),
    {
        let ghost was = self@;
        let ghost change = edit;
        let t: String = edit.tag_for(k);
        self.push_undo(t.as_str());
        proof {
            crate::model::lemma_audios_ok_at(self@.reel.audios, k as int);
        }
        let a: AudioItem = edit.apply(&self.reel.audios[k], self.reel.a_lanes);
        let ghost ga = a;
        self.set_aud(k, a);
        assert(change.makes(was.reel.audios[k as int], was.reel.a_lanes, ga));
    }

    /// Put bed `k` at the playhead.
    pub fn sync_bed(&mut self, k: usize)
        requires
            old(self)@.wf(),
            k < old(self).reel.audios.len(),
        ensures
            final(self)@ == old(self)@.bed_synced(k),
            final(self)@.wf(),
    {
        self.push_undo("");
        proof {
            crate::model::lemma_audios_ok_at(self@.reel.audios, k as int);
        }
        let a: AudioItem = self.reel.audios[k].put_at(self.playhead);
        let lane: String = lane_tag(a.lane);
        self.set_aud(k, a);
        let t: String = fmt_t(self.playhead);
        self.status = cat5("Synced ", lane.as_str(), " start to ", t.as_str(), ".");
    }

    /// Begin to measure bed `k`; what to measure, where there is such a bed.
    pub fn begin_normalize(&mut self, k: usize) -> (r: Option<(String, Time, Time)>)
        requires
            old(self)@.wf(),
        ensures
            final(self)@.wf(),
            if k < old(self)@.reel.audios.len() {
                let a = old(self)@.reel.audios[k as int];
                &&& r == Some((a.path, a.in_s, a.out_s))
                &&& final(self)@ == old(self)@.pushed(""@).says("Measuring loudness…"@)
            } else {
                r is None && final(self)@ == old(self)@
            },
    {
        if k >= self.reel.audios.len() {
            return None;
        }
        self.push_undo("");
        self.status = "Measuring loudness…".to_owned();
        Some((self.reel.audios[k].path.clone(), self.reel.audios[k].in_s, self.reel.audios[k].out_s))
    }

    /// The loudness of bed `k` was measured, in tenths, and the gain that levels it
    /// found; or it could not be.
    pub fn land_loudness(&mut self, k: usize, measured: Result<(i64, u32), String>)
        requires
            old(self)@.wf(),
            measured matches Ok(m) ==> -1_000_000 <= m.0 <= 1_000_000,
        ensures
            final(self)@ == match measured {
                Ok((was, gain)) => old(self)@.bed_normalized(k, was as int, gain),
                Err(e) => old(self)@.says("Normalize failed: "@ + e@),
            },
            final(self)@.wf(),
    {
        match measured {
            Err(e) => {
                self.status = cat2("Normalize failed: ", e.as_str());
            },
            Ok((was, gain)) => {
                if k < self.reel.audios.len() {
                    proof {
                        crate::model::lemma_audios_ok_at(self@.reel.audios, k as int);
                    }
                    let a: AudioItem = self.reel.audios[k].at_gain(gain);
                    self.set_aud(k, a);
                }
                let before: String = loudness(was);
                let now: String = hundredths((gain as u128 + 5) / 10);
                self.status = cat5("Normalized to −14 LUFS (was ", before.as_str(), "; gain ", now.as_str(), "×).");
            },
        }
    }
}

/// Law: half a second at both ends never makes the fades meet.
pub proof fn law_fade_both_fits(a: AudioItem, lanes: u8, r: AudioItem)
    requires
        a.wf(),
        BedEdit::FadeBoth.makes(a, lanes, r),
    ensures
        0 <= r.fade_in,
        r.fade_in + r.fade_out <= kept(a.in_s, a.out_s),
{
}

/// Law: a control of a bed that is dragged is one step to undo.
pub proof fn law_bed_drag_is_one_step(e: EditorView, k: usize, first: BedEdit, later: BedEdit, a: AudioItem, b: AudioItem)
    requires
        e.undo_tag != first.step(k),
        first.step(k).len() > 0,
        later.step(k) == first.step(k),
    ensures
        ({
            let once = e.pushed(first.step(k)).put_aud(k as int, a);
            let twice = once.pushed(later.step(k)).put_aud(k as int, b);
            &&& once.undo.last() == e.reel
            &&& twice.undo == once.undo
        }),
{
    reveal(EditorView::pushed);
}

/// Law: an edit of a bed sets what it names and nothing else. Its lane is one that
/// exists; in and out points stay a tenth of a second apart; a step is a frame.
pub proof fn law_bed_edits(a: AudioItem, lanes: u8, n: u8, v: u32, t: Time, w: i32, b: bool, choice: Option<String>, r: AudioItem)
    requires
        a.wf(),
        a.in_s + MIN_PIECE <= a.out_s <= a.duration,
        lanes >= 1,
    ensures
        BedEdit::Lane(n).makes(a, lanes, r) ==> {
            &&& r == (AudioItem { lane: r.lane, ..a })
            &&& 1 <= n <= lanes ==> r.lane == n
            &&& n < 1 ==> r.lane == 1
            &&& n > lanes ==> r.lane == lanes
        },
        BedEdit::Volume(v).makes(a, lanes, r) ==> r == (AudioItem { volume: v, ..a }),
        BedEdit::VolumeEnd(v).makes(a, lanes, r) ==> r == (AudioItem { vol_end: Some(v), ..a }),
        BedEdit::FadeIn(t).makes(a, lanes, r) ==> r == (AudioItem { fade_in: t, ..a }),
        BedEdit::FadeOut(t).makes(a, lanes, r) ==> r == (AudioItem { fade_out: t, ..a }),
        BedEdit::FadeBoth.makes(a, lanes, r) ==> {
            &&& r == (AudioItem { fade_in: r.fade_in, fade_out: r.fade_in, ..a })
            &&& 2 * r.fade_in <= SECOND
            &&& 98 * (a.out_s - a.in_s) >= 100 * SECOND ==> 2 * r.fade_in == SECOND
        },
        BedEdit::NoFades.makes(a, lanes, r) ==> r == (AudioItem { fade_in: 0, fade_out: 0, ..a }),
        BedEdit::Treat(choice).makes(a, lanes, r) ==> r == (AudioItem { treat: choice, ..a }),
        BedEdit::At(t).makes(a, lanes, r) ==> r == (AudioItem { at: t, ..a }),
        BedEdit::Earlier.makes(a, lanes, r) ==> {
            &&& r == (AudioItem { at: r.at, ..a })
            &&& a.at >= FRAME ==> a.at - r.at == FRAME
            &&& a.at < FRAME ==> r.at == 0
        },
        BedEdit::Later.makes(a, lanes, r) ==> {
            &&& r == (AudioItem { at: r.at, ..a })
            &&& a.at + FRAME <= crate::time::AXIS_END ==> r.at - a.at == FRAME
        },
        BedEdit::In(t).makes(a, lanes, r) ==> {
            &&& r == (AudioItem { in_s: r.in_s, ..a })
            &&& 0 <= t <= a.out_s - MIN_PIECE ==> r.in_s == t
            &&& t > a.out_s - MIN_PIECE ==> a.out_s - r.in_s == MIN_PIECE
        },
        BedEdit::Out(t).makes(a, lanes, r) ==> {
            &&& r == (AudioItem { out_s: r.out_s, ..a })
            &&& a.in_s + MIN_PIECE <= t <= a.duration ==> r.out_s == t
            &&& t < a.in_s + MIN_PIECE ==> r.out_s - a.in_s == MIN_PIECE
            &&& t > a.duration ==> r.out_s == a.duration
        },
{
}

/// Law: an edit of a bed's sound sets what it names and nothing else; polishing
/// enhances the voice and cleans it no less than it was.
pub proof fn law_bed_shaping(a: AudioItem, lanes: u8, v: u32, w: i32, b: bool, r: AudioItem)
    ensures
        BedEdit::Duck(v).makes(a, lanes, r) ==> r == (AudioItem { shaping: Shaping { duck: v, ..a.shaping }, ..a }),
        BedEdit::Denoise(v).makes(a, lanes, r) ==> r == (AudioItem { shaping: Shaping { denoise: v, ..a.shaping }, ..a }),
        BedEdit::NoiseFloor(w).makes(a, lanes, r) ==> r == (AudioItem {
            shaping: Shaping { noise_floor: w, ..a.shaping },
            ..a
        }),
        BedEdit::TrackNoise(b).makes(a, lanes, r) ==> r == (AudioItem {
            shaping: Shaping { track_noise: b, ..a.shaping },
            ..a
        }),
        BedEdit::Compress(v).makes(a, lanes, r) ==> r == (AudioItem { shaping: Shaping { compress: v, ..a.shaping }, ..a }),
        BedEdit::Gate(v).makes(a, lanes, r) ==> r == (AudioItem { shaping: Shaping { gate: v, ..a.shaping }, ..a }),
        BedEdit::Declick(v).makes(a, lanes, r) ==> r == (AudioItem { shaping: Shaping { declick: v, ..a.shaping }, ..a }),
        BedEdit::Polish.makes(a, lanes, r) ==> {
            let s = r.shaping;
            &&& r == (AudioItem { treat: r.treat, shaping: s, ..a })
            &&& s == (Shaping { denoise: s.denoise, compress: s.compress, ..a.shaping })
            &&& s.denoise >= a.shaping.denoise && s.compress >= a.shaping.compress
            &&& s.denoise >= 350 && s.compress >= 350
            &&& s.denoise == 350 || s.denoise == a.shaping.denoise
            &&& s.compress == 350 || s.compress == a.shaping.compress
            &&& r.treat matches Some(name) && name@ == "Voice enhance"@
        },
{
}

/// Law: syncing puts the bed's start at the playhead; a measured gain becomes its level,
/// flat. Neither touches another bed or lane.
pub proof fn law_sync_and_normalize(e: EditorView, k: usize, was: int, gain: u32)
    requires
        k < e.reel.audios.len(),
    ensures
        ({
            let s = e.bed_synced(k);
            let n = e.bed_normalized(k, was, gain);
            let a = e.reel.audios[k as int];
            &&& one_edit(e, s)
            &&& s.reel == (Reel { audios: s.reel.audios, ..e.reel }) && same_but(e.reel.audios, s.reel.audios, k as int)
            &&& s.reel.audios[k as int] == (AudioItem { at: e.playhead, ..a })
            &&& n.undo == e.undo
            &&& n.reel == (Reel { audios: n.reel.audios, ..e.reel }) && same_but(e.reel.audios, n.reel.audios, k as int)
            &&& n.reel.audios[k as int] == (AudioItem { volume: gain, vol_end: None, ..a })
        }),
{
    reveal_strlit("");
    crate::editor::lemma_pushed_alone(e, ""@);
}

/// An edit of a bed was made.
pub open spec fn edits_bed(e: EditorView, k: usize, edit: BedEdit, f: EditorView) -> bool {
    exists|a: AudioItem| #[trigger]
        edit.makes(e.reel.audios[k as int], e.reel.a_lanes, a) && f == e.pushed(edit.step(k)).put_aud(k as int, a)
}

/// Law: an edit of a bed touches that bed and nothing else, and can be undone.
pub proof fn law_bed_edit_touches_one(e: EditorView, k: usize, edit: BedEdit, f: EditorView)
    requires
        edits_bed(e, k, edit, f),
        k < e.reel.audios.len(),
    ensures
        f.reel == (Reel { audios: f.reel.audios, ..e.reel }),
        same_but(e.reel.audios, f.reel.audios, k as int),
        edit.makes(e.reel.audios[k as int], e.reel.a_lanes, f.reel.audios[k as int]),
        e.undo_tag.len() == 0 ==> one_edit(e, f),
        f.playhead == e.playhead && f.selected == e.selected,
{
    reveal(EditorView::pushed);
}

} // verus!
