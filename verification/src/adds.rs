//! Bringing things onto the timeline: clips, cutaways, beds, titles, layers and
//! tracks.

use crate::editor::{one_edit, put_in, same_but, Editor, EditorView};
use crate::lanes::with_strips;
use crate::model::{
    cards, AdjustmentItem, AudioItem, Clip, Look, OverlayItem, Phase, Reel, Sel, Shaping,
    TitleItem, TitleStyle, TitleView,
};
use crate::paths::{base_name, file_name_of};
use crate::text::{cat2, cat3, cat4, cat5, decimal, digits, join, joined, texts};
use crate::time::{
    between, clock_text, fmt_t, greater, in_source, lesser, lower, on_axis, upper, Time, SECOND,
};
use crate::track::{run_length, run_of, total, total_of};
use vstd::prelude::*;

verus! {

/// A picture file that was probed: how long its source is, how much of it is used
/// at first, and whether it sounds.
pub struct Probed {
    pub path: String,
    pub duration: Time,
    pub out_s: Time,
    pub has_audio: bool,
}

impl Probed {
    pub open spec fn wf(&self) -> bool {
        in_source(self.duration) && in_source(self.out_s)
    }
}

/// A clip as it comes from a file.
pub open spec fn is_import(c: Clip, f: Probed, thumb: String) -> bool {
    &&& c.path == f.path
    &&& c.name@ == base_name(f.path@)
    &&& c.duration == f.duration
    &&& c.in_s == 0
    &&& c.out_s == f.out_s
    &&& c.has_audio == f.has_audio
    &&& c.look == Look::plain()
    &&& c.framing@ == "Crop"@
    &&& c.volume == 1000
    &&& c.thumb == thumb
    &&& crate::holds::is_plain(c)
    &&& c.wave@.len() == 0
    &&& c.proxy@.len() == 0
}

/// A cutaway as it comes from a file.
pub open spec fn is_cutaway(o: OverlayItem, f: Probed, at: Time, track: u8) -> bool {
    &&& o.path == f.path
    &&& o.name@ == base_name(f.path@)
    &&& o.duration == f.duration
    &&& o.in_s == 0
    &&& o.out_s == f.out_s
    &&& o.at == at
    &&& o.look == Look::plain()
    &&& o.framing@ == "Crop"@
    &&& o.speed == 1000
    &&& !o.reverse
    &&& o.blend@.len() == 0
    &&& o.track == track
    &&& o.proxy@.len() == 0
    &&& o.group == 0
    &&& o.enabled
    &&& !o.solo
}

/// A bed nobody has touched.
pub open spec fn is_fresh_bed(a: AudioItem) -> bool {
    &&& a.vol_end is None
    &&& a.shaping == no_shaping()
    &&& a.treat is None
    &&& a.enabled
    &&& !a.solo
}

/// No cleaning and no shaping.
pub open spec fn no_shaping() -> Shaping {
    Shaping { duck: 0, denoise: 0, noise_floor: (-50) as i32, track_noise: false, compress: 0, gate: 0, declick: 0 }
}

impl Default for Shaping {
    fn default() -> (r: Self)
        ensures
            r == no_shaping(),
    {
        Shaping { duck: 0, denoise: 0, noise_floor: -50, track_noise: false, compress: 0, gate: 0, declick: 0 }
    }
}

/// A bed as it comes from a file.
pub open spec fn is_bed(a: AudioItem, f: Probed, at: Time, lane: u8) -> bool {
    &&& a.path == f.path
    &&& a.name@ == base_name(f.path@)
    &&& a.duration == f.duration
    &&& a.in_s == 0
    &&& a.out_s == f.duration
    &&& a.at == at
    &&& a.volume == 1000
    &&& a.fade_in == 0
    &&& a.fade_out == 0
    &&& a.lane == lane
    &&& a.wave@.len() == 0
    &&& a.group == 0
    &&& is_fresh_bed(a)
}

/// The overlay track a cutaway goes to: V2 at least, and one that is shown.
pub open spec fn shown_track(track: u8, v_lanes: u8) -> u8 {
    lower(upper(track as int, 2), 1 + v_lanes) as u8
}

/// The lane counts that show a track.
pub open spec fn lanes_for(track: u8, v_lanes: u8, limit: u8) -> u8 {
    if track > 1 + v_lanes { between(track - 1, 1, limit as int) as u8 } else { v_lanes }
}

/// The audio lane a bed goes to: A1 at least, and no higher than the limit.
pub open spec fn bus_for(lane: u8, limit: u8) -> u8 {
    lower(upper(lane as int, 1), limit as int) as u8
}

/// Whether an overlay on a track covers `at`.
pub open spec fn track_busy(s: Seq<OverlayItem>, track: int, at: Time) -> bool {
    exists|i: int|
        0 <= i < s.len() && (#[trigger] s[i]).track == track && s[i].at <= at < s[i].at + run_of(
            s[i].in_s,
            s[i].out_s,
            s[i].speed,
        )
}

/// The lowest track from `t` on that is free at `at`; none when every shown one is taken.
pub open spec fn free_track(s: Seq<OverlayItem>, v_lanes: u8, at: Time, t: int) -> Option<int>
    decreases 2 + v_lanes - t,
{
    if t > 1 + v_lanes {
        None
    } else if !track_busy(s, t, at) {
        Some(t)
    } else {
        free_track(s, v_lanes, at, t + 1)
    }
}

impl EditorView {
    /// After clip `c` came in at a place, or at the end.
    pub open spec fn imported(self, c: Clip, at: Option<usize>) -> EditorView {
        let n = self.reel.clips.len();
        let i = match at {
            Some(k) => lower(k as int, n as int),
            None => n as int,
        };
        let clips = self.reel.clips.insert(i, c);
        let e = EditorView { reel: Reel { clips, ..self.reel }, ..self };
        if self.selected is None {
            e.selects(Some(Sel::Main(0))).sought(0)
        } else {
            e
        }
    }

    /// After cutaway `o` came in.
    pub open spec fn cutaway_added(self, o: OverlayItem) -> EditorView {
        EditorView {
            reel: Reel {
                v_lanes: lanes_for(o.track, self.reel.v_lanes, self.limits.video),
                overlays: self.reel.overlays.push(o),
                ..self.reel
            },
            stale: true,
            shown_at: o.at,
            ..self.pushed(""@)
        }.selects(Some(Sel::Over(self.reel.overlays.len() as usize))).says(
            "Overlay at "@ + clock_text(o.at as int) + " — V"@ + digits(o.track as nat) + " over V1 while it runs."@,
        )
    }

    /// After bed `a` came in.
    pub open spec fn bed_added(self, a: AudioItem) -> EditorView {
        EditorView {
            reel: Reel {
                a_lanes: crate::lanes::higher(self.reel.a_lanes, a.lane),
                mixer: with_strips(self.reel.mixer, a.lane),
                audios: self.reel.audios.push(a),
                ..self.reel
            },
            ..self.pushed(""@)
        }.selects(Some(Sel::Aud(self.reel.audios.len() as usize))).says(
            "Audio on A"@ + digits(a.lane as nat) + " at "@ + clock_text(a.at as int)
                + " — mixed under the main track."@,
        )
    }

    /// After a video track was added.
    pub open spec fn v_track_added(self) -> EditorView {
        let n = self.reel.v_lanes;
        if n >= self.limits.video {
            self.says("Already at max video tracks (V"@ + digits((1 + self.limits.video) as nat) + ")."@)
        } else {
            EditorView {
                reel: Reel { v_lanes: (n + 1) as u8, ..self.reel },
                ..self.pushed(""@)
            }.says("Added video track V"@ + digits((n + 2) as nat) + "."@)
        }
    }

    /// After a text track was added.
    pub open spec fn t_track_added(self) -> EditorView {
        let n = self.reel.t_lanes;
        if n >= self.limits.text {
            self.says("Already at max text tracks (T"@ + digits(self.limits.text as nat) + ")."@)
        } else {
            EditorView {
                reel: Reel { t_lanes: (n + 1) as u8, ..self.reel },
                ..self.pushed(""@)
            }.says("Added text track T"@ + digits((n + 1) as nat) + "."@)
        }
    }

    /// After an audio track was added.
    pub open spec fn a_track_added(self) -> EditorView {
        let n = self.reel.a_lanes;
        if n >= self.limits.audio {
            self.says("Already at max audio tracks (A"@ + digits(self.limits.audio as nat) + ")."@)
        } else {
            EditorView {
                reel: Reel {
                    a_lanes: (n + 1) as u8,
                    mixer: with_strips(self.reel.mixer, (n + 1) as u8),
                    ..self.reel
                },
                ..self.pushed(""@)
            }.says("Added audio track A"@ + digits((n + 1) as nat) + "."@)
        }
    }

    /// After an adjustment layer was added at the playhead: to the end of the
    /// reel, and a second at least.
    pub open spec fn layer_added(self) -> EditorView {
        let at = self.playhead;
        let a = AdjustmentItem {
            at,
            dur: upper(total(self.reel.clips) - at, SECOND as int) as Time,
            effect: None,
            effect_amount: 1000,
            grade: 0,
            group: 0,
            enabled: true,
        };
        EditorView {
            reel: Reel { adjustments: self.reel.adjustments.push(a), ..self.reel },
            ..self.pushed(""@)
        }.selects(Some(Sel::Adjust(self.reel.adjustments.len() as usize))).sought(at as int).says(
            "Adjustment layer added — grade or add an effect in the Style inspector."@,
        )
    }

    /// After card `base` was added at the playhead.
    pub open spec fn title_added(self, base: TitleView) -> EditorView {
        EditorView {
            reel: Reel {
                titles: self.reel.titles.push(TitleView { at: self.playhead, ..base }),
                ..self.reel
            },
            ..self.pushed(""@)
        }.selects(Some(Sel::Title(self.reel.titles.len() as usize))).says(
            "Text added at the playhead — edit it in the inspector."@,
        )
    }

    /// After a style was picked: it goes on the selected card, or comes in as a new
    /// card with the words `text`.
    pub open spec fn style_applied(self, name: Seq<char>, style: TitleView, text: String) -> EditorView {
        if self.reel.clips.len() == 0 {
            self.says("Add a clip before adding text."@)
        } else {
            match self.selected {
                Some(Sel::Title(k)) => self.pushed(""@).put_title(
                    k as int,
                    restyled(self.reel.titles[k as int], style.style),
                ).says("Applied \""@ + name + "\"."@),
                _ => EditorView {
                    reel: Reel {
                        titles: self.reel.titles.push(
                            TitleView { at: self.playhead, text, pngs: Seq::empty(), ..style },
                        ),
                        ..self.reel
                    },
                    phase: Phase::Text,
                    ..self.pushed(""@)
                }.selects(Some(Sel::Title(self.reel.titles.len() as usize))).says(
                    "Added \""@ + name + "\" at the playhead — type over it."@,
                ),
            }
        }
    }
}

/// A card in another style: its words, place, time and lane stay, and it has to be
/// rendered again.
pub open spec fn restyled(t: TitleView, style: TitleStyle) -> TitleView {
    TitleView { style, pngs: Seq::empty(), ..t }
}

/// Put a card in another style.
pub fn restyle(t: &TitleItem, style: &TitleStyle) -> (r: TitleItem)
    ensures
        r@ == restyled(t@, *style),
{
    let mut r: TitleItem = t.clone();
    r.style = style.clone();
    r.pngs = Vec::new();
    r
}

/// A named style.
pub struct TitlePreset {
    pub name: String,
    pub style: TitleItem,
}

/// What a batch import reports.
pub open spec fn import_text(ok: nat, clips: nat, failed: Seq<Seq<char>>) -> Seq<char> {
    if failed.len() == 0 {
        digits(ok) + " added — "@ + digits(clips) + " clip(s) on the timeline."@
    } else {
        digits(ok) + " added, "@ + digits(failed.len()) + " skipped: "@ + joined(failed, "; "@)
    }
}

impl Probed {
    fn clip(&self, thumb: String) -> (c: Clip)
        requires
            self.wf(),
        ensures
            is_import(c, *self, thumb),
            c.wf(),
    {
        proof {
            reveal_strlit("");
        }
        Clip {
            path: self.path.clone(),
            name: file_name_of(self.path.as_str()),
            duration: self.duration,
            in_s: 0,
            out_s: self.out_s,
            has_audio: self.has_audio,
            look: Look::default(),
            framing: "Crop".to_owned(),
            speed: 1000,
            reverse: false,
            volume: 1000,
            denoise: 0,
            treat: None,
            transition: None,
            trans_dur: 1_500_000,
            thumb,
            wave: "".to_owned(),
            proxy: "".to_owned(),
            group: 0,
            enabled: true,
            solo: false,
        }
    }

    fn cutaway(&self, at: Time, track: u8) -> (o: OverlayItem)
        requires
            self.wf(),
            on_axis(at),
        ensures
            is_cutaway(o, *self, at, track),
            o.wf(),
    {
        proof {
            reveal_strlit("");
        }
        OverlayItem {
            path: self.path.clone(),
            name: file_name_of(self.path.as_str()),
            duration: self.duration,
            in_s: 0,
            out_s: self.out_s,
            at,
            look: Look::default(),
            framing: "Crop".to_owned(),
            speed: 1000,
            reverse: false,
            blend: "".to_owned(),
            track,
            proxy: "".to_owned(),
            group: 0,
            enabled: true,
            solo: false,
        }
    }

    fn bed(&self, at: Time, lane: u8) -> (a: AudioItem)
        requires
            self.wf(),
            on_axis(at),
        ensures
            is_bed(a, *self, at, lane),
            a.wf(),
    {
        proof {
            reveal_strlit("");
        }
        AudioItem {
            path: self.path.clone(),
            name: file_name_of(self.path.as_str()),
            duration: self.duration,
            in_s: 0,
            out_s: self.duration,
            at,
            volume: 1000,
            vol_end: None,
            fade_in: 0,
            fade_out: 0,
            shaping: Shaping::default(),
            treat: None,
            lane,
            wave: "".to_owned(),
            group: 0,
            enabled: true,
            solo: false,
        }
    }
}

impl Editor {
    /// A batch import starts: one step to undo for all of it.
    pub fn begin_import(&mut self)
        requires
            old(self)@.wf(),
        ensures
            final(self)@ == old(self)@.pushed(""@),
            final(self)@.wf(),
    {
        self.push_undo("");
    }

    /// A file of an import was probed: its clip goes in at a place, or at the end.
    pub fn import_one_clip(&mut self, file: &Probed, thumb: String, insert_at: Option<usize>)
        requires
            old(self)@.wf(),
            file.wf(),
        ensures
            imports(old(self)@, *file, thumb, insert_at, final(self)@),
            final(self)@.wf(),
    {
        let ghost was = self@;
        let c: Clip = file.clip(thumb);
        let ghost gc = c;
        let n: usize = self.reel.clips.len();
        let i: usize = match insert_at {
            Some(k) => if k < n { k } else { n },
            None => n,
        };
        proof {
            crate::model::lemma_sound(was.reel.clips, i as int, c);
        }
        self.reel.clips.insert(i, c);
        if self.selected.is_none() {
            self.select_clip(0);
        }
        assert(is_import(gc, *file, thumb));
        assert(self@ == was.imported(gc, insert_at));
    }

    /// A batch import is over.
    pub fn end_import(&mut self, ok: usize, failed: &Vec<String>)
        requires
            old(self)@.wf(),
        ensures
            final(self)@ == old(self)@.says(
                import_text(ok as nat, old(self)@.reel.clips.len(), texts(failed@)),
            ),
            final(self)@.wf(),
    {
        self.status = if failed.len() == 0 {
            cat4(
                decimal(ok as u128).as_str(),
                " added — ",
                decimal(self.reel.clips.len() as u128).as_str(),
                " clip(s) on the timeline.",
            )
        } else {
            cat5(
                decimal(ok as u128).as_str(),
                " added, ",
                decimal(failed.len() as u128).as_str(),
                " skipped: ",
                join(failed, "; ").as_str(),
            )
        };
    }

    /// The track a cutaway that was aimed at `track` goes to.
    pub fn overlay_track(&self, track: u8) -> (r: u8)
        ensures
            r == shown_track(track, self@.reel.v_lanes),
    {
        let a: u16 = if track >= 2 { track as u16 } else { 2 };
        let b: u16 = 1 + self.reel.v_lanes as u16;
        if a <= b { a as u8 } else { b as u8 }
    }

    /// A cutaway was probed: it goes on its track at `at`, and shows.
    pub fn add_overlay_path(&mut self, file: &Probed, at: Time, track: u8)
        requires
            old(self)@.wf(),
            file.wf(),
            on_axis(at),
        ensures
            adds_cutaway(old(self)@, *file, at, track, final(self)@),
            final(self)@.wf(),
    {
        let ghost was = self@;
        let o: OverlayItem = file.cutaway(at, track);
        let ghost go = o;
        self.push_undo("");
        if track as u16 > 1 + self.reel.v_lanes as u16 {
            let up: u8 = if track - 1 >= 1 { track - 1 } else { 1 };
            self.reel.v_lanes = if up <= self.limits.video { up } else { self.limits.video };
        }
        proof {
            crate::model::lemma_overlays_ok(was.reel.overlays, 0, o);
        }
        let k: usize = self.reel.overlays.len();
        self.reel.overlays.push(o);
        self.stale = true;
        self.shown_at = at;
        self.selected = Some(Sel::Over(k));
        self.status = cat5(
            "Overlay at ",
            fmt_t(at).as_str(),
            " — V",
            decimal(track as u128).as_str(),
            " over V1 while it runs.",
        );
        assert(is_cutaway(go, *file, at, track));
        assert(self@ == was.cutaway_added(go));
    }

    fn busy(&self, track: u16, at: Time) -> (r: bool)
        requires
            self@.wf(),
            on_axis(at),
        ensures
            r == track_busy(self@.reel.overlays, track as int, at),
    {
        let mut i: usize = 0;
        while i < self.reel.overlays.len()
            invariant
                i <= self.reel.overlays@.len(),
                self@.wf(),
                forall|k: int|
                    0 <= k < i ==> !((#[trigger] self@.reel.overlays[k]).track == track && self@.reel.overlays[k].at
                        <= at < self@.reel.overlays[k].at + run_of(
                        self@.reel.overlays[k].in_s,
                        self@.reel.overlays[k].out_s,
                        self@.reel.overlays[k].speed,
                    )),
            decreases self.reel.overlays@.len() - i,
        {
            proof {
                crate::model::lemma_overlays_ok_at(self@.reel.overlays, i as int);
            }
            let o: &OverlayItem = &self.reel.overlays[i];
            if o.track as u16 == track && o.at <= at && at < o.at + run_length(o.in_s, o.out_s, o.speed) {
                assert(self@.reel.overlays[i as int].track == track);
                return true;
            }
            i += 1;
        }
        false
    }

    /// The track for a sticker at the playhead: the lowest that is free there, or
    /// a new one where the limit allows.
    pub fn sticker_track(&mut self) -> (r: u8)
        requires
            old(self)@.wf(),
            old(self).limits.video < 255,
            old(self).reel.v_lanes < 255,
        ensures
            finds_track(old(self)@, final(self)@, r),
            final(self)@.wf(),
    {
        let at: Time = self.playhead;
        let last: u16 = 1 + self.reel.v_lanes as u16;
        let mut t: u16 = 2;
        while t <= last
            invariant
                2 <= t <= last + 1 || t == 2,
                last == 1 + self.reel.v_lanes,
                last <= 255,
                *self == *old(self),
                self@.wf(),
                at == self@.playhead,
                free_track(self@.reel.overlays, self@.reel.v_lanes, at, 2) == free_track(
                    self@.reel.overlays,
                    self@.reel.v_lanes,
                    at,
                    t as int,
                ),
            decreases last + 1 - t,
        {
            if !self.busy(t, at) {
                return t as u8;
            }
            t += 1;
        }
        let up: u16 = self.reel.v_lanes as u16 + 1;
        let grown: u8 = if up <= self.limits.video as u16 { up as u8 } else { self.limits.video };
        self.reel.v_lanes = grown;
        1 + grown
    }

    /// A bed was probed: it goes on its lane at `at`. A file without sound is
    /// refused. The path of a bed that was added needs a waveform.
    pub fn add_audio_path(&mut self, file: &Probed, at: Time, lane: u8)
        requires
            old(self)@.wf(),
            file.wf(),
            on_axis(at),
        ensures
            final(self)@.wf(),
            adds_bed(old(self)@, *file, at, lane, final(self)@),
    {
        let ghost was = self@;
        if !file.has_audio {
            let name: String = file_name_of(file.path.as_str());
            self.status = cat2(name.as_str(), " has no audio stream.");
            return;
        }
        let up: u8 = if lane >= 1 { lane } else { 1 };
        let bus: u8 = if up <= self.limits.audio { up } else { self.limits.audio };
        let a: AudioItem = file.bed(at, bus);
        let ghost ga = a;
        self.push_undo("");
        if bus > self.reel.a_lanes {
            self.reel.a_lanes = bus;
        }
        self.reel.mixer.ensure_lanes(bus);
        proof {
            crate::model::lemma_audios_ok(was.reel.audios, 0, a);
        }
        let k: usize = self.reel.audios.len();
        self.reel.audios.push(a);
        self.selected = Some(Sel::Aud(k));
        self.status = cat5(
            "Audio on A",
            decimal(bus as u128).as_str(),
            " at ",
            fmt_t(at).as_str(),
            " — mixed under the main track.",
        );
        assert(is_bed(ga, *file, at, bus_for(lane, was.limits.audio)));
        assert(self@ == was.bed_added(ga));
    }

    pub fn add_v_track(&mut self)
        requires
            old(self)@.wf(),
        ensures
            final(self)@ == old(self)@.v_track_added(),
            final(self)@.wf(),
    {
        if self.reel.v_lanes >= self.limits.video {
            self.status = cat3(
                "Already at max video tracks (V",
                decimal(1 + self.limits.video as u128).as_str(),
                ").",
            );
            return;
        }
        self.push_undo("");
        let n: u8 = self.reel.v_lanes + 1;
        self.reel.v_lanes = n;
        self.status = cat3("Added video track V", decimal(1 + n as u128).as_str(), ".");
    }

    pub fn add_t_track(&mut self)
        requires
            old(self)@.wf(),
        ensures
            final(self)@ == old(self)@.t_track_added(),
            final(self)@.wf(),
    {
        if self.reel.t_lanes >= self.limits.text {
            self.status = cat3("Already at max text tracks (T", decimal(self.limits.text as u128).as_str(), ").");
            return;
        }
        self.push_undo("");
        let n: u8 = self.reel.t_lanes + 1;
        self.reel.t_lanes = n;
        self.status = cat3("Added text track T", decimal(n as u128).as_str(), ".");
    }

    pub fn add_a_track(&mut self)
        requires
            old(self)@.wf(),
        ensures
            final(self)@ == old(self)@.a_track_added(),
            final(self)@.wf(),
    {
        if self.reel.a_lanes >= self.limits.audio {
            self.status = cat3("Already at max audio tracks (A", decimal(self.limits.audio as u128).as_str(), ").");
            return;
        }
        self.push_undo("");
        let n: u8 = self.reel.a_lanes + 1;
        self.reel.a_lanes = n;
        self.reel.mixer.ensure_lanes(n);
        self.status = cat3("Added audio track A", decimal(n as u128).as_str(), ".");
    }

    /// Add an adjustment layer at the playhead.
    pub fn add_adjustment(&mut self)
        requires
            old(self)@.wf(),
        ensures
            final(self)@ == old(self)@.layer_added(),
            final(self)@.wf(),
    {
        let ghost was = self@;
        let at: Time = self.playhead;
        let end: Time = total_of(&self.reel.clips);
        let a: AdjustmentItem = AdjustmentItem::new(at, greater(end - at, SECOND));
        self.push_undo("");
        proof {
            crate::model::lemma_adjustments_ok(was.reel.adjustments, 0, a);
        }
        let k: usize = self.reel.adjustments.len();
        self.reel.adjustments.push(a);
        self.selected = Some(Sel::Adjust(k));
        self.seek_to(at);
        self.status = "Adjustment layer added — grade or add an effect in the Style inspector.".to_owned();
    }

    /// Add a card at the playhead; none without a clip. The card that has to be
    /// rendered is returned.
    pub fn add_title(&mut self, base: TitleItem) -> (r: Option<usize>)
        requires
            old(self)@.wf(),
            base@.wf(),
        ensures
            final(self)@.wf(),
            if old(self)@.reel.clips.len() == 0 {
                r is None && final(self)@ == old(self)@
            } else {
                r == Some(old(self)@.reel.titles.len() as usize) && final(self)@ == old(self)@.title_added(base@)
            },
    {
        let ghost was = self@;
        if self.reel.clips.len() == 0 {
            return None;
        }
        self.push_undo("");
        let mut t: TitleItem = base;
        t.at = self.playhead;
        proof {
            crate::model::lemma_titles_ok(was.reel.titles, 0, t@);
        }
        let k: usize = self.reel.titles.len();
        self.reel.titles.push(t);
        assert(cards(self.reel.titles@) =~= was.reel.titles.push(t@));
        self.selected = Some(Sel::Title(k));
        self.status = "Text added at the playhead — edit it in the inspector.".to_owned();
        Some(k)
    }

    /// Pick a style: it goes on the selected card, or comes in as a new one at the
    /// playhead. The card that has to be rendered is returned.
    pub fn apply_title_style(&mut self, preset: TitlePreset) -> (r: Option<usize>)
        requires
            old(self)@.wf(),
            preset.style@.wf(),
        ensures
            final(self)@.wf(),
            exists|text: String| #[trigger] text@ == "Text"@ && final(self)@ == old(self)@.style_applied(
                preset.name@,
                preset.style@,
                text,
            ),
            r == if old(self)@.reel.clips.len() == 0 {
                None
            } else {
                match old(self)@.selected {
                    Some(Sel::Title(k)) => Some(k),
                    _ => Some(old(self)@.reel.titles.len() as usize),
                }
            },
    {
        let ghost was = self@;
        let text: String = "Text".to_owned();
        let ghost gt = text;
        if self.reel.clips.len() == 0 {
            self.status = "Add a clip before adding text.".to_owned();
            assert(self@ == was.style_applied(preset.name@, preset.style@, gt));
            return None;
        }
        match self.selected {
            Some(Sel::Title(k)) => {
                proof {
                    crate::model::lemma_titles_ok_at(was.reel.titles, k as int);
                }
                let t: TitleItem = restyle(&self.reel.titles[k], &preset.style.style);
                self.push_undo("");
                self.set_title(k, t);
                self.status = cat3("Applied \"", preset.name.as_str(), "\".");
                assert(self@ == was.style_applied(preset.name@, preset.style@, gt));
                Some(k)
            },
            _ => {
                let mut t: TitleItem = preset.style;
                t.at = self.playhead;
                t.text = text;
                t.pngs = Vec::new();
                self.push_undo("");
                proof {
                    crate::model::lemma_titles_ok(was.reel.titles, 0, t@);
                }
                let k: usize = self.reel.titles.len();
                self.reel.titles.push(t);
                assert(cards(self.reel.titles@) =~= was.reel.titles.push(t@));
                self.selected = Some(Sel::Title(k));
                self.phase = Phase::Text;
                self.status = cat3("Added \"", preset.name.as_str(), "\" at the playhead — type over it.");
                assert(self@ == was.style_applied(preset.name@, preset.style@, gt));
                Some(k)
            },
        }
    }
}

/// Where the poster of a new clip is taken: a tenth into the file, at most a second.
pub open spec fn poster_at(duration: Time) -> int {
    lower(duration as int / 10, SECOND as int)
}

pub fn poster_time(duration: Time) -> (r: Time)
    requires
        in_source(duration),
    ensures
        r == poster_at(duration),
        in_source(r),
{
    lesser(duration / 10, SECOND)
}

/// Law: an imported file becomes one clip, whole, at normal speed and level, where it
/// was dropped or at the end; every other clip stays, in order.
pub proof fn law_import(e: EditorView, c: Clip, file: Probed, thumb: String, at: Option<usize>)
    requires
        is_import(c, file, thumb),
    ensures
        ({
            let f = e.imported(c, at);
            let n = e.reel.clips.len() as int;
            let i = match at {
                Some(k) => if k <= n { k as int } else { n },
                None => n,
            };
            &&& f.reel == (Reel { clips: f.reel.clips, ..e.reel })
            &&& put_in(e.reel.clips, f.reel.clips, i)
            &&& f.reel.clips[i] == c
            &&& c.path == file.path && c.in_s == 0 && c.out_s == file.out_s && c.duration == file.duration
            &&& c.speed == 1000 && !c.reverse && c.volume == 1000 && c.transition is None && c.enabled && c.group == 0
            &&& c.has_audio == file.has_audio && !c.solo
            &&& f.undo == e.undo
            &&& e.selected is None ==> f.playhead == 0
            &&& e.selected is None && !crate::editor::picture_phase(e.phase) ==> f.selected == Some(Sel::Main(0))
            &&& e.selected is Some ==> f.selected == e.selected && f.playhead == e.playhead
        }),
{
}

/// Law: a dropped cutaway lies over the main track where it was dropped, whole, on the
/// track it was dropped on, which is there from then on; it is selected.
pub proof fn law_cutaway_added(e: EditorView, o: OverlayItem, file: Probed, at: Time, track: u8)
    requires
        is_cutaway(o, file, at, track),
    ensures
        ({
            let f = e.cutaway_added(o);
            let n = e.reel.overlays.len() as int;
            &&& one_edit(e, f)
            &&& f.reel == (Reel { overlays: f.reel.overlays, v_lanes: f.reel.v_lanes, ..e.reel })
            &&& put_in(e.reel.overlays, f.reel.overlays, n)
            &&& f.reel.overlays[n] == o
            &&& o.at == at && o.track == track && o.path == file.path && o.in_s == 0 && o.out_s == file.out_s
            &&& o.speed == 1000 && !o.reverse && o.enabled && !o.solo && o.group == 0
            &&& track <= 1 + e.reel.v_lanes ==> f.reel.v_lanes == e.reel.v_lanes
            &&& 1 + e.reel.v_lanes < track <= 1 + e.limits.video ==> f.reel.v_lanes + 1 == track
            &&& f.selected == Some(Sel::Over(n as usize))
        }),
{
    reveal_strlit("");
    crate::editor::lemma_pushed_alone(e, ""@);
}

/// Law: a dropped bed lies where it was dropped, whole and at full level, on its lane,
/// which has a strip in the mixer from then on.
pub proof fn law_bed_added(e: EditorView, a: AudioItem, file: Probed, at: Time, lane: u8)
    requires
        is_bed(a, file, at, lane),
    ensures
        ({
            let f = e.bed_added(a);
            let n = e.reel.audios.len() as int;
            &&& one_edit(e, f)
            &&& f.reel == (Reel { audios: f.reel.audios, a_lanes: f.reel.a_lanes, mixer: f.reel.mixer, ..e.reel })
            &&& put_in(e.reel.audios, f.reel.audios, n)
            &&& f.reel.audios[n] == a
            &&& a.at == at && a.lane == lane && a.path == file.path && a.in_s == 0 && a.out_s == file.duration
            &&& a.volume == 1000 && a.fade_in == 0 && a.fade_out == 0 && a.enabled && !a.solo && a.group == 0
            &&& lane <= e.reel.a_lanes ==> f.reel.a_lanes == e.reel.a_lanes
            &&& lane > e.reel.a_lanes ==> f.reel.a_lanes == lane
            &&& f.reel.mixer.tracks.len() > lane
            &&& f.reel.mixer.tracks.len() >= e.reel.mixer.tracks.len()
            &&& forall|k: int|
                0 <= k < e.reel.mixer.tracks.len() ==> (#[trigger] f.reel.mixer.tracks[k]) == e.reel.mixer.tracks[k]
            &&& forall|k: int|
                e.reel.mixer.tracks.len() <= k < f.reel.mixer.tracks.len() ==> (#[trigger] f.reel.mixer.tracks[k]).gain
                    == 1000 && !f.reel.mixer.tracks[k].mute && !f.reel.mixer.tracks[k].solo
            &&& f.reel.mixer.master == e.reel.mixer.master
            &&& f.selected == Some(Sel::Aud(n as usize))
        }),
        forall|l: u8, limit: u8|
            1 <= limit ==> {
                let b = #[trigger] bus_for(l, limit);
                &&& 1 <= b <= limit
                &&& 1 <= l <= limit ==> b == l
            },
{
    reveal_strlit("");
    crate::editor::lemma_pushed_alone(e, ""@);
}

/// Law: a new track is one more of its kind, up to the limit; nothing on the reel moves.
pub proof fn law_track_added(e: EditorView)
    ensures
        ({
            let v = e.v_track_added();
            let t = e.t_track_added();
            let a = e.a_track_added();
            &&& e.reel.v_lanes < e.limits.video ==> one_edit(e, v) && v.reel == (Reel { v_lanes: v.reel.v_lanes, ..e.reel })
                && v.reel.v_lanes - e.reel.v_lanes == 1
            &&& e.reel.v_lanes >= e.limits.video ==> v.reel == e.reel && v.undo == e.undo
            &&& e.reel.t_lanes < e.limits.text ==> one_edit(e, t) && t.reel == (Reel { t_lanes: t.reel.t_lanes, ..e.reel })
                && t.reel.t_lanes - e.reel.t_lanes == 1
            &&& e.reel.t_lanes >= e.limits.text ==> t.reel == e.reel && t.undo == e.undo
            &&& e.reel.a_lanes < e.limits.audio ==> one_edit(e, a) && a.reel == (Reel {
                a_lanes: a.reel.a_lanes,
                mixer: a.reel.mixer,
                ..e.reel
            }) && a.reel.a_lanes - e.reel.a_lanes == 1 && a.reel.mixer.tracks.len() > a.reel.a_lanes
            &&& e.reel.a_lanes >= e.limits.audio ==> a.reel == e.reel && a.undo == e.undo
        }),
{
    reveal_strlit("");
    crate::editor::lemma_pushed_alone(e, ""@);
}

/// Law: a new layer starts at the playhead and runs to the end of the reel, a second at
/// least, and changes no picture until it is given a look.
pub proof fn law_layer_added(e: EditorView)
    requires
        crate::trims::reel_track(e.reel.clips),
        on_axis(e.playhead),
        !crate::editor::picture_phase(e.phase),
    ensures
        ({
            let f = e.layer_added();
            let n = e.reel.adjustments.len() as int;
            let a = f.reel.adjustments[n];
            &&& one_edit(e, f)
            &&& f.reel == (Reel { adjustments: f.reel.adjustments, ..e.reel })
            &&& put_in(e.reel.adjustments, f.reel.adjustments, n)
            &&& a.at == e.playhead && a.effect is None && a.grade == 0 && a.enabled && a.group == 0
            &&& total(e.reel.clips) - e.playhead >= SECOND ==> a.at + a.dur == total(e.reel.clips)
            &&& total(e.reel.clips) - e.playhead < SECOND ==> a.dur == SECOND
            &&& f.selected == Some(Sel::Adjust(n as usize)) && f.playhead == e.playhead
        }),
{
    reveal_strlit("");
    crate::editor::lemma_pushed_alone(e, ""@);
    crate::track::lemma_start_axis(e.reel.clips, e.reel.clips.len() as int);
}

/// Law: a new title goes up at the playhead, behind the titles that are there; a style
/// picked for a selected title restyles it and leaves its words and its time.
pub proof fn law_title_added(e: EditorView, base: TitleView, name: Seq<char>, text: String)
    requires
        e.reel.clips.len() > 0,
        e.selected matches Some(s) ==> e.reel.has(s),
    ensures
        ({
            let f = e.title_added(base);
            let s = e.style_applied(name, base, text);
            let n = e.reel.titles.len() as int;
            &&& one_edit(e, f) && one_edit(e, s)
            &&& f.reel == (Reel { titles: f.reel.titles, ..e.reel }) && s.reel == (Reel { titles: s.reel.titles, ..e.reel })
            &&& put_in(e.reel.titles, f.reel.titles, n)
            &&& f.reel.titles[n] == (TitleView { at: e.playhead, ..base })
            &&& f.selected == Some(Sel::Title(n as usize))
            &&& e.selected matches Some(Sel::Title(k)) ==> same_but(e.reel.titles, s.reel.titles, k as int)
                && s.reel.titles[k as int] == (TitleView {
                style: base.style,
                pngs: Seq::empty(),
                ..e.reel.titles[k as int]
            })
            &&& !(e.selected matches Some(Sel::Title(_))) ==> put_in(e.reel.titles, s.reel.titles, n) && s.reel.titles[n]
                == (TitleView { at: e.playhead, text, pngs: Seq::empty(), ..base }) && s.selected == Some(
                Sel::Title(n as usize),
            )
        }),
{
    reveal_strlit("");
    crate::editor::lemma_pushed_alone(e, ""@);
}

/// Law: a sticker goes on the lowest track that is free at the playhead.
pub proof fn law_free_track(s: Seq<OverlayItem>, v_lanes: u8, at: Time, t: int)
    requires
        2 <= t,
    ensures
        free_track(s, v_lanes, at, t) matches Some(k) ==> {
            &&& t <= k <= 1 + v_lanes
            &&& !track_busy(s, k, at)
            &&& forall|j: int| t <= j < k ==> #[trigger] track_busy(s, j, at)
        },
        free_track(s, v_lanes, at, t) is None ==> forall|j: int|
            t <= j <= 1 + v_lanes ==> #[trigger] track_busy(s, j, at),
    decreases 2 + v_lanes - t,
{
    if t <= 1 + v_lanes && track_busy(s, t, at) {
        law_free_track(s, v_lanes, at, t + 1);
    }
}

/// Law: a clip's picture is taken a tenth of the way in, no later than a second.
pub proof fn law_poster_time(duration: Time)
    requires
        in_source(duration),
    ensures
        10 * poster_at(duration) <= duration,
        poster_at(duration) <= SECOND,
        duration >= 10 * SECOND ==> poster_at(duration) == SECOND,
        duration < 10 * SECOND ==> duration < 10 * poster_at(duration) + 10,
{
}

/// A track for a sticker was found.
pub open spec fn finds_track(e: EditorView, f: EditorView, r: u8) -> bool {
    match free_track(e.reel.overlays, e.reel.v_lanes, e.playhead, 2) {
        Some(t) => r == t && f == e,
        None => {
            let grown = lower(e.reel.v_lanes + 1, e.limits.video as int);
            &&& r == 1 + grown
            &&& f == (EditorView { reel: Reel { v_lanes: grown as u8, ..e.reel }, ..e })
        },
    }
}

/// A file was dropped on an audio lane.
pub open spec fn adds_bed(e: EditorView, file: Probed, at: Time, lane: u8, f: EditorView) -> bool {
    if file.has_audio {
        exists|a: AudioItem| #[trigger] is_bed(a, file, at, bus_for(lane, e.limits.audio)) && f == e.bed_added(a)
    } else {
        f == e.says(base_name(file.path@) + " has no audio stream."@)
    }
}

/// Law: a sticker gets a track on which nothing is up at the playhead, a new one where
/// all are taken and one more is allowed.
pub proof fn law_sticker_track(e: EditorView, f: EditorView, r: u8)
    requires
        finds_track(e, f, r),
        e.reel.v_lanes <= e.limits.video < 255,
    ensures
        f == (EditorView { reel: Reel { v_lanes: f.reel.v_lanes, ..e.reel }, ..e }),
        2 <= r <= 1 + f.reel.v_lanes || e.limits.video == 0,
        r <= 1 + e.reel.v_lanes && e.reel.v_lanes < e.limits.video ==> f == e && forall|i: int|
            0 <= i < e.reel.overlays.len() && (#[trigger] e.reel.overlays[i]).track == r ==> e.playhead
                < e.reel.overlays[i].at || e.playhead >= e.reel.overlays[i].at + run_of(
                e.reel.overlays[i].in_s,
                e.reel.overlays[i].out_s,
                e.reel.overlays[i].speed,
            ),
        r > 1 + e.reel.v_lanes ==> f.reel.v_lanes == e.reel.v_lanes + 1 && r == e.reel.v_lanes + 2,
{
    law_free_track(e.reel.overlays, e.reel.v_lanes, e.playhead, 2);
}

/// Law: a file with sound becomes a bed on the lane it was dropped on; one without adds
/// nothing.
pub proof fn law_drop_on_audio(e: EditorView, file: Probed, at: Time, lane: u8, f: EditorView)
    requires
        adds_bed(e, file, at, lane, f),
    ensures
        !file.has_audio ==> f.reel == e.reel && f.undo == e.undo,
        file.has_audio ==> {
            let n = e.reel.audios.len() as int;
            &&& one_edit(e, f)
            &&& put_in(e.reel.audios, f.reel.audios, n)
            &&& f.reel.audios[n].at == at && f.reel.audios[n].path == file.path
            &&& 1 <= lane <= e.limits.audio ==> f.reel.audios[n].lane == lane
        },
{
    reveal_strlit("");
    crate::editor::lemma_pushed_alone(e, ""@);
}

/// A file became a clip of the main track.
pub open spec fn imports(e: EditorView, file: Probed, thumb: String, at: Option<usize>, f: EditorView) -> bool {
    exists|c: Clip| #[trigger] is_import(c, file, thumb) && f == e.imported(c, at)
}

/// A file was dropped on a video track.
pub open spec fn adds_cutaway(e: EditorView, file: Probed, at: Time, track: u8, f: EditorView) -> bool {
    exists|o: OverlayItem| #[trigger] is_cutaway(o, file, at, track) && f == e.cutaway_added(o)
}

/// Law: a file that is dropped comes onto the reel once, with its own source, where it
/// was dropped.
pub proof fn law_files_land(e: EditorView, file: Probed, thumb: String, index: Option<usize>, at: Time, track: u8, f: EditorView)
    ensures
        imports(e, file, thumb, index, f) ==> {
            let n = e.reel.clips.len() as int;
            let i = if index is Some && index->0 <= n { index->0 as int } else { n };
            &&& put_in(e.reel.clips, f.reel.clips, i) && f.reel == (Reel { clips: f.reel.clips, ..e.reel })
            &&& f.reel.clips[i].path == file.path && f.reel.clips[i].in_s == 0 && f.reel.clips[i].out_s == file.out_s
            &&& f.reel.clips[i].thumb == thumb && f.reel.clips[i].has_audio == file.has_audio
        },
        adds_cutaway(e, file, at, track, f) ==> {
            let n = e.reel.overlays.len() as int;
            &&& one_edit(e, f) && put_in(e.reel.overlays, f.reel.overlays, n)
            &&& f.reel.overlays[n].path == file.path && f.reel.overlays[n].at == at && f.reel.overlays[n].track == track
            &&& f.reel.overlays[n].in_s == 0 && f.reel.overlays[n].out_s == file.out_s
            &&& f.reel.clips == e.reel.clips && f.reel.audios == e.reel.audios && f.reel.titles == e.reel.titles
        },
{
    reveal_strlit("");
    crate::editor::lemma_pushed_alone(e, ""@);
}

} // verus!
