//! Sound edits: lifting a clip's sound onto a lane of its own, solos, and
//! recording a voiceover.

use crate::adds::is_fresh_bed;
use crate::editor::{one_edit, put_in, same_but, Editor, EditorView};
use crate::model::{
    audios_ok, overlays_ok, sound, AudioItem, Clip, OverlayItem, Phase, Reel, Sel, Shaping, Snapshot,
};
use crate::text::{cat2, cat3, cat5, decimal, digits, same_text};
use crate::time::{
    clock_text, fmt_clip_dur, fmt_t, hundredths, hundredths_text, in_source, length_text, nearest, on_axis, Time,
};
use crate::track::{start, start_of};
use vstd::prelude::*;

verus! {

/// The clip after its sound was lifted: silent, with no waveform, in the group.
pub open spec fn is_silenced(x: Clip, c: Clip, gid: u64) -> bool {
    &&& x.wave@.len() == 0
    &&& x == (Clip { volume: 0, wave: x.wave, group: gid, ..c })
}

/// The bed that a clip's sound becomes.
pub open spec fn is_lifted(a: AudioItem, c: Clip, at: Time, gid: u64) -> bool {
    &&& a.path == c.path
    &&& a.name@ == c.name@ + " (audio)"@
    &&& a.duration == c.duration
    &&& a.in_s == c.in_s
    &&& a.out_s == c.out_s
    &&& a.at == at
    &&& a.volume == if c.volume > 0 { c.volume } else { 1000 }
    &&& a.fade_in == 0
    &&& a.fade_out == 0
    &&& a.wave == c.wave
    &&& a.lane == 1
    &&& a.group == gid
    &&& is_fresh_bed(a)
}

/// Whether a speed is far enough from normal to be worth a word.
pub open spec fn retimed_speed(speed: u32) -> bool {
    speed > 1010 || speed < 990
}

/// What lifting the sound of a clip reports.
#[verifier::opaque]
pub open spec fn lifted_text(at: Time, speed: u32) -> Seq<char> {
    if retimed_speed(speed) {
        "Audio detached to A1 at "@ + clock_text(at as int) + " — picture muted. Bed is 1× (clip was "@
            + hundredths_text(nearest(speed as int, 10)) + "×)."@
    } else {
        "Audio detached to A1 at "@ + clock_text(at as int) + " — picture muted. Drag either; they're grouped."@
    }
}

impl EditorView {
    /// The group a lifted sound shares with its clip.
    pub open spec fn lift_group(self, c: Clip) -> u64 {
        if c.group != 0 { c.group } else { self.next_group }
    }

    /// After the sound of clip `i` was lifted onto a bed.
    pub open spec fn sound_lifted(self, i: int, x: Clip, a: AudioItem) -> EditorView {
        let c = self.reel.clips[i];
        EditorView {
            reel: Reel {
                clips: self.reel.clips.update(i, x),
                audios: self.reel.audios.push(a),
                ..self.reel
            },
            next_group: if c.group != 0 { self.next_group } else { (self.next_group + 1) as u64 },
            ..self.pushed(""@)
        }.selects(Some(Sel::Aud(self.reel.audios.len() as usize))).says(lifted_text(a.at, c.speed))
    }

    /// Whether anything is soloed.
    pub open spec fn any_solo_flag(self) -> bool {
        ||| exists|i: int| 0 <= i < self.reel.clips.len() && (#[trigger] self.reel.clips[i]).solo
        ||| exists|i: int| 0 <= i < self.reel.overlays.len() && (#[trigger] self.reel.overlays[i]).solo
        ||| exists|i: int| 0 <= i < self.reel.audios.len() && (#[trigger] self.reel.audios[i]).solo
    }

    /// After every solo was cleared.
    pub open spec fn solos_cleared(self) -> EditorView {
        if !self.any_solo_flag() {
            self
        } else {
            EditorView { reel: unsoloed(self.reel), ..self.pushed(""@) }.says(
                "Solo off — full mix restored."@,
            ).sought(self.playhead as int)
        }
    }
}

/// A reel with nothing soloed.
#[verifier::opaque]
pub open spec fn unsoloed(r: Reel) -> Reel {
    Reel {
        clips: Seq::new(r.clips.len(), |i: int| Clip { solo: false, ..r.clips[i] }),
        overlays: Seq::new(r.overlays.len(), |i: int| OverlayItem { solo: false, ..r.overlays[i] }),
        audios: Seq::new(r.audios.len(), |i: int| AudioItem { solo: false, ..r.audios[i] }),
        ..r
    }
}

/// Law: clearing solos leaves none, and changes nothing else of an item.
pub proof fn law_no_solo_left(e: EditorView)
    requires
        e.reel.clips.len() <= usize::MAX,
    ensures
        !e.solos_cleared().any_solo_flag(),
        ({
            let r = e.solos_cleared().reel;
            &&& r.clips.len() == e.reel.clips.len()
            &&& r.overlays.len() == e.reel.overlays.len()
            &&& r.audios.len() == e.reel.audios.len()
            &&& r.titles == e.reel.titles
            &&& r.adjustments == e.reel.adjustments
            &&& forall|i: int|
                0 <= i < r.clips.len() ==> #[trigger] r.clips[i] == (Clip { solo: false, ..e.reel.clips[i] })
            &&& forall|i: int|
                0 <= i < r.overlays.len() ==> #[trigger] r.overlays[i] == (OverlayItem {
                    solo: false,
                    ..e.reel.overlays[i]
                })
            &&& forall|i: int|
                0 <= i < r.audios.len() ==> #[trigger] r.audios[i] == (AudioItem { solo: false, ..e.reel.audios[i] })
        }),
{
    reveal(unsoloed);
    reveal(EditorView::pushed);
}

impl Clip {
    fn silenced(&self, gid: u64) -> (x: Clip)
        requires
            self.wf(),
        ensures
            is_silenced(x, *self, gid),
            x.wf(),
    {
        proof {
            reveal_strlit("");
        }
        let mut x: Clip = self.clone();
        x.volume = 0;
        x.wave = "".to_owned();
        x.group = gid;
        x
    }

    fn lifted(&self, at: Time, gid: u64) -> (a: AudioItem)
        requires
            self.wf(),
            on_axis(at),
        ensures
            is_lifted(a, *self, at, gid),
            a.wf(),
    {
        AudioItem {
            path: self.path.clone(),
            name: cat2(self.name.as_str(), " (audio)"),
            duration: self.duration,
            in_s: self.in_s,
            out_s: self.out_s,
            at,
            volume: if self.volume > 0 { self.volume } else { 1000 },
            vol_end: None,
            fade_in: 0,
            fade_out: 0,
            shaping: Shaping::default(),
            treat: None,
            lane: 1,
            wave: self.wave.clone(),
            group: gid,
            enabled: true,
            solo: false,
        }
    }
}

fn lifted_report(at: Time, speed: u32) -> (r: String)
    requires
        on_axis(at),
    ensures
        r@ == lifted_text(at, speed),
{
    proof {
        reveal(lifted_text);
    }
    if speed > 1010 || speed < 990 {
        let times: String = hundredths((speed as u128 + 5) / 10);
        cat5(
            "Audio detached to A1 at ",
            fmt_t(at).as_str(),
            " — picture muted. Bed is 1× (clip was ",
            times.as_str(),
            "×).",
        )
    } else {
        cat3(
            "Audio detached to A1 at ",
            fmt_t(at).as_str(),
            " — picture muted. Drag either; they're grouped.",
        )
    }
}

impl Snapshot {
    pub(crate) fn unsolo(&mut self)
        requires
            old(self)@.wf(),
        ensures
            final(self)@ == unsoloed(old(self)@),
            final(self)@.wf(),
    {
        let ghost was = self@;
        let ghost to = unsoloed(was);
        proof {
            reveal(unsoloed);
            reveal(sound);
            reveal(overlays_ok);
            reveal(audios_ok);
        }
        let mut i: usize = 0;
        while i < self.clips.len()
            invariant
                i <= self.clips.len(),
                to == unsoloed(was),
                self@ == (Reel { clips: self@.clips, ..was }),
                self@.clips.len() == was.clips.len(),
                forall|k: int| 0 <= k < i ==> #[trigger] self@.clips[k] == to.clips[k],
                forall|k: int| i <= k < was.clips.len() ==> #[trigger] self@.clips[k] == was.clips[k],
            decreases self.clips.len() - i,
        {
            proof {
                reveal(unsoloed);
            }
            let ghost before = self@.clips;
            assert(before[i as int] == was.clips[i as int]);
            self.clips[i].solo = false;
            assert(self@.clips =~= before.update(i as int, to.clips[i as int]));
            i += 1;
        }
        assert(self@.clips =~= to.clips);
        let mut i: usize = 0;
        while i < self.overlays.len()
            invariant
                i <= self.overlays.len(),
                to == unsoloed(was),
                self@ == (Reel { clips: to.clips, overlays: self@.overlays, ..was }),
                self@.overlays.len() == was.overlays.len(),
                forall|k: int| 0 <= k < i ==> #[trigger] self@.overlays[k] == to.overlays[k],
                forall|k: int| i <= k < was.overlays.len() ==> #[trigger] self@.overlays[k] == was.overlays[k],
            decreases self.overlays.len() - i,
        {
            proof {
                reveal(unsoloed);
            }
            let ghost before = self@.overlays;
            assert(before[i as int] == was.overlays[i as int]);
            self.overlays[i].solo = false;
            assert(self@.overlays =~= before.update(i as int, to.overlays[i as int]));
            i += 1;
        }
        assert(self@.overlays =~= to.overlays);
        let mut i: usize = 0;
        while i < self.audios.len()
            invariant
                i <= self.audios.len(),
                to == unsoloed(was),
                self@ == (Reel { clips: to.clips, overlays: to.overlays, audios: self@.audios, ..was }),
                self@.audios.len() == was.audios.len(),
                forall|k: int| 0 <= k < i ==> #[trigger] self@.audios[k] == to.audios[k],
                forall|k: int| i <= k < was.audios.len() ==> #[trigger] self@.audios[k] == was.audios[k],
            decreases self.audios.len() - i,
        {
            proof {
                reveal(unsoloed);
            }
            let ghost before = self@.audios;
            assert(before[i as int] == was.audios[i as int]);
            self.audios[i].solo = false;
            assert(self@.audios =~= before.update(i as int, to.audios[i as int]));
            i += 1;
        }
        assert(self@.audios =~= to.audios);
        assert(self@ == to);
    }
}

/// A take that is being recorded: where it goes, and where on the reel it starts.
pub struct Take {
    pub path: String,
    pub at: Time,
}

/// The voiceover recorder.
pub struct Recorder {
    pub take: Option<Take>,
    /// Whether the take is to stop.
    pub stop: bool,
    /// How long the take is so far.
    pub len: Time,
}

/// What the record button comes to.
#[derive(Clone, Copy, PartialEq, Eq, Structural, Debug)]
pub enum RecordAct {
    /// Nothing to do.
    Nothing,
    /// Open the microphone; with `roll`, play the picture along.
    Open { roll: bool },
}

/// What the microphone reports.
pub enum MicEvent {
    /// It could not be opened.
    Refused(String),
    /// It has been open for so long.
    Running(Time),
    /// It closed by itself.
    Ended,
    /// It cannot be asked any more.
    Broke(String),
    /// It was closed on request.
    Closed,
    /// It could not be closed on request.
    Stuck(String),
}

/// What is to be done with the microphone.
#[derive(Clone, Copy, PartialEq, Eq, Structural, Debug)]
pub enum MicAct {
    /// Ask again in a moment.
    Wait,
    /// Close it.
    Close,
    /// The take is over, and nothing came of it.
    GiveUp,
    /// As `GiveUp`, and the file goes.
    Discard,
    /// The take is over: look at the file.
    Probe,
}

/// The shortest take that is kept.
pub const SHORTEST_TAKE: Time = 600_000;

/// The bed a take becomes.
pub open spec fn is_take(a: AudioItem, take: Take, duration: Time, n: nat) -> bool {
    &&& a.path == take.path
    &&& a.name@ == "Voiceover "@ + digits(n)
    &&& a.duration == duration
    &&& a.in_s == 0
    &&& a.out_s == duration
    &&& a.at == take.at
    &&& a.volume == 1000
    &&& a.fade_in == 150_000
    &&& a.fade_out == 300_000
    &&& a.wave@.len() == 0
    &&& a.lane == 2
    &&& a.group == 0
    &&& is_fresh_bed(a)
}

/// Whether a bed is a voiceover, by its name.
pub open spec fn is_voiceover(name: Seq<char>) -> bool {
    name.len() >= 9 && name.subrange(0, 9) == "Voiceover"@
}

/// How many of the first `n` beds are voiceovers.
pub open spec fn voiceovers(s: Seq<AudioItem>, n: int) -> nat
    decreases n,
{
    if n <= 0 {
        0
    } else if is_voiceover(s[n - 1].name@) {
        voiceovers(s, n - 1) + 1
    } else {
        voiceovers(s, n - 1)
    }
}

impl EditorView {
    /// After take `a` landed.
    pub open spec fn take_landed(self, a: AudioItem) -> EditorView {
        EditorView {
            reel: Reel { audios: self.reel.audios.push(a), ..self.reel },
            phase: Phase::Audio,
            ..self.pushed(""@)
        }.selects(Some(Sel::Aud(self.reel.audios.len() as usize))).says(
            "Voiceover on A2 at "@ + clock_text(a.at as int) + " ("@ + length_text(a.duration as int)
                + ") — duck music under it if needed."@,
        )
    }
}

impl Take {
    fn bed(&self, duration: Time, n: usize) -> (a: AudioItem)
        requires
            on_axis(self.at),
            in_source(duration),
        ensures
            is_take(a, *self, duration, n as nat),
            a.wf(),
    {
        proof {
            reveal_strlit("");
        }
        AudioItem {
            path: self.path.clone(),
            name: cat2("Voiceover ", decimal(n as u128).as_str()),
            duration,
            in_s: 0,
            out_s: duration,
            at: self.at,
            volume: 1000,
            vol_end: None,
            fade_in: 150_000,
            fade_out: 300_000,
            shaping: Shaping::default(),
            treat: None,
            lane: 2,
            wave: "".to_owned(),
            group: 0,
            enabled: true,
            solo: false,
        }
    }
}

impl Recorder {
    /// A recorder at rest.
    pub fn new() -> (r: Self)
        ensures
            r.take is None,
            !r.stop,
            r.len == 0,
    {
        Recorder { take: None, stop: false, len: 0 }
    }

    /// The record button was pressed. While a take runs, that ends it.
    pub fn start_voiceover(&mut self, ed: &mut Editor, path: String, exporting: bool, playing: bool) -> (r: RecordAct)
        requires
            old(ed)@.wf(),
        ensures
            final(ed)@.wf(),
            presses_record(*old(self), old(ed)@, path, exporting, playing, *final(self), final(ed)@, r),
    {
        if self.take.is_some() {
            self.stop = true;
            return RecordAct::Nothing;
        }
        if exporting {
            ed.status = "Can't record during export.".to_owned();
            return RecordAct::Nothing;
        }
        let at: Time = ed.playhead;
        self.stop = false;
        self.len = 0;
        self.take = Some(Take { path, at });
        ed.status = cat3("● Recording voiceover from ", fmt_t(at).as_str(), " — press V or Stop when done.");
        RecordAct::Open { roll: ed.reel.clips.len() > 0 && !playing }
    }

    /// The take is over: hand it out and be ready for the next one.
    pub fn end_take(&mut self) -> (r: Option<Take>)
        ensures
            r == old(self).take,
            *final(self) == (Recorder { take: None, ..*old(self) }),
    {
        self.take.take()
    }

    /// The stop button was pressed.
    pub fn stop_voiceover(&mut self)
        ensures
            *final(self) == (Recorder {
                stop: old(self).stop || old(self).take is Some,
                ..*old(self)
            }),
    {
        if self.take.is_some() {
            self.stop = true;
        }
    }

    /// The microphone reported while a take runs.
    pub fn on_mic(&mut self, ed: &mut Editor, ev: MicEvent) -> (r: MicAct)
        requires
            old(ed)@.wf(),
        ensures
            final(ed)@.wf(),
            hears_mic(*old(self), old(ed)@, ev, *final(self), final(ed)@, r),
    {
        match ev {
            MicEvent::Refused(e) => {
                self.take = None;
                self.stop = false;
                ed.status = e;
                MicAct::GiveUp
            },
            MicEvent::Running(t) => {
                if self.stop {
                    self.stop = false;
                    return MicAct::Close;
                }
                self.len = t;
                MicAct::Wait
            },
            MicEvent::Ended => {
                self.take = None;
                self.stop = false;
                ed.status = "Microphone capture ended unexpectedly.".to_owned();
                MicAct::Discard
            },
            MicEvent::Broke(e) => {
                self.take = None;
                self.stop = false;
                ed.status = cat2("Mic capture error: ", e.as_str());
                MicAct::GiveUp
            },
            MicEvent::Closed => MicAct::Probe,
            MicEvent::Stuck(e) => {
                self.take = None;
                ed.status = cat2("Could not finish recording: ", e.as_str());
                MicAct::Discard
            },
        }
    }
}

impl Editor {
    /// Lift the sound of the selected clip onto A1 and mute the picture; the two
    /// are grouped. Where the waveform is not there yet, the path it has to be
    /// made of is returned.
    pub fn detach_audio(&mut self) -> (r: Option<String>)
        requires
            old(self)@.wf(),
            old(self).next_group < u64::MAX,
        ensures
            final(self)@.wf(),
            detaches(old(self)@, final(self)@, r),
    {
        let ghost was = self@;
        let i: usize = match self.selected {
            Some(Sel::Main(i)) => i,
            _ => {
                self.status = "Select a V1 clip to detach its audio onto A1.".to_owned();
                return None;
            },
        };
        proof {
            crate::model::lemma_sound_at(was.reel.clips, i as int);
        }
        let c: Clip = self.reel.clips[i].clone();
        if !c.has_audio {
            self.status = cat2(c.name.as_str(), " has no audio stream to detach.");
            return None;
        }
        let at: Time = start_of(&self.reel.clips, i);
        let gid: u64 = if c.group != 0 { c.group } else { self.next_group };
        let x: Clip = c.silenced(gid);
        let a: AudioItem = c.lifted(at, gid);
        let text: String = lifted_report(at, c.speed);
        self.push_undo("");
        if c.group == 0 {
            self.next_group = gid + 1;
        }
        let ghost gx = x;
        let ghost ga = a;
        self.lift(i, x, a);
        self.status = text;
        assert(is_silenced(gx, c, was.lift_group(c)));
        assert(is_lifted(ga, c, start(was.reel.clips, i as int) as Time, was.lift_group(c)));
        assert(self@ == was.sound_lifted(i as int, gx, ga));
        if c.wave.as_str().is_empty() { Some(c.path) } else { None }
    }

    fn lift(&mut self, i: usize, x: Clip, a: AudioItem)
        requires
            old(self)@.wf(),
            i < old(self).reel.clips.len(),
            x.wf(),
            a.wf(),
        ensures
            final(self)@ == (EditorView {
                reel: Reel {
                    clips: old(self)@.reel.clips.update(i as int, x),
                    audios: old(self)@.reel.audios.push(a),
                    ..old(self)@.reel
                },
                ..old(self)@
            }).selects(Some(Sel::Aud(old(self)@.reel.audios.len() as usize))),
            final(self)@.wf(),
    {
        let ghost was = self@;
        proof {
            crate::model::lemma_sound(was.reel.clips, i as int, x);
            crate::model::lemma_audios_ok(was.reel.audios, 0, a);
        }
        let k: usize = self.reel.audios.len();
        self.reel.clips[i] = x;
        assert(self.reel.clips@ =~= was.reel.clips.update(i as int, x));
        self.reel.audios.push(a);
        self.selected = Some(Sel::Aud(k));
    }

    fn has_solo(&self) -> (r: bool)
        ensures
            r == self@.any_solo_flag(),
    {
        let mut i: usize = 0;
        while i < self.reel.clips.len()
            invariant
                i <= self.reel.clips@.len(),
                forall|k: int| 0 <= k < i ==> !(#[trigger] self@.reel.clips[k]).solo,
            decreases self.reel.clips@.len() - i,
        {
            if self.reel.clips[i].solo {
                assert(self@.reel.clips[i as int].solo);
                return true;
            }
            i += 1;
        }
        let mut i: usize = 0;
        while i < self.reel.overlays.len()
            invariant
                i <= self.reel.overlays@.len(),
                forall|k: int| 0 <= k < i ==> !(#[trigger] self@.reel.overlays[k]).solo,
            decreases self.reel.overlays@.len() - i,
        {
            if self.reel.overlays[i].solo {
                assert(self@.reel.overlays[i as int].solo);
                return true;
            }
            i += 1;
        }
        let mut i: usize = 0;
        while i < self.reel.audios.len()
            invariant
                i <= self.reel.audios@.len(),
                forall|k: int| 0 <= k < i ==> !(#[trigger] self@.reel.audios[k]).solo,
            decreases self.reel.audios@.len() - i,
        {
            if self.reel.audios[i].solo {
                assert(self@.reel.audios[i as int].solo);
                return true;
            }
            i += 1;
        }
        false
    }

    /// Take everything out of solo.
    pub fn clear_all_solos(&mut self)
        requires
            old(self)@.wf(),
        ensures
            final(self)@ == old(self)@.solos_cleared(),
            final(self)@.wf(),
    {
        let t: Time = self.playhead;
        if !self.has_solo() {
            return;
        }
        self.push_undo("");
        proof {
            reveal(unsoloed);
        }
        self.reel.unsolo();
        self.status = "Solo off — full mix restored.".to_owned();
        self.seek_to(t);
    }

    fn count_voiceovers(&self) -> (r: usize)
        ensures
            r == voiceovers(self@.reel.audios, self@.reel.audios.len() as int),
            r <= self@.reel.audios.len(),
    {
        proof {
            reveal_strlit("Voiceover");
        }
        let mut n: usize = 0;
        let mut i: usize = 0;
        while i < self.reel.audios.len()
            invariant
                i <= self.reel.audios@.len(),
                n <= i,
                n == voiceovers(self@.reel.audios, i as int),
            decreases self.reel.audios@.len() - i,
        {
            let name: &str = self.reel.audios[i].name.as_str();
            if name.unicode_len() >= 9 && same_text(name.substring_char(0, 9), "Voiceover") {
                n += 1;
            }
            i += 1;
        }
        n
    }

    /// A take was probed, or could not be. It lands on A2 where it was started,
    /// unless it is too short or silent; whether its file is kept is returned.
    pub fn land_take(&mut self, take: &Take, probed: Result<(Time, bool), String>) -> (keep: bool)
        requires
            old(self)@.wf(),
            on_axis(take.at),
            probed matches Ok(p) ==> in_source(p.0),
            old(self)@.reel.audios.len() < usize::MAX,
        ensures
            final(self)@.wf(),
            lands_take(old(self)@, *take, probed, final(self)@, keep),
    {
        let ghost was = self@;
        match probed {
            Err(e) => {
                self.status = cat2("Could not read voiceover: ", e.as_str());
                false
            },
            Ok((duration, has_audio)) => {
                if has_audio && duration >= SHORTEST_TAKE {
                    let n: usize = self.count_voiceovers() + 1;
                    let a: AudioItem = take.bed(duration, n);
                    let ghost ga = a;
                    self.push_undo("");
                    proof {
                        crate::model::lemma_audios_ok(was.reel.audios, 0, a);
                    }
                    let k: usize = self.reel.audios.len();
                    self.reel.audios.push(a);
                    self.selected = Some(Sel::Aud(k));
                    self.phase = Phase::Audio;
                    self.status = cat5(
                        "Voiceover on A2 at ",
                        fmt_t(take.at).as_str(),
                        " (",
                        fmt_clip_dur(duration).as_str(),
                        ") — duck music under it if needed.",
                    );
                    assert(is_take(
                        ga,
                        *take,
                        duration,
                        voiceovers(was.reel.audios, was.reel.audios.len() as int) + 1,
                    ));
                    assert(self@ == was.take_landed(ga));
                    true
                } else {
                    self.status = if duration < SHORTEST_TAKE {
                        "Recording too short — hold a little longer.".to_owned()
                    } else {
                        "Recording had no audio — check the microphone.".to_owned()
                    };
                    false
                }
            },
        }
    }
}

/// Law: detaching puts the clip's sound on A1 as a bed that plays the same source from
/// where the clip starts, at the clip's level, and silences the clip; the two move
/// together from then on, and nothing else changes.
pub proof fn law_detach(e: EditorView, i: usize, x: Clip, a: AudioItem)
    requires
        e.selected == Some(Sel::Main(i)),
        i < e.reel.clips.len(),
        e.next_group < u64::MAX,
        is_silenced(x, e.reel.clips[i as int], e.lift_group(e.reel.clips[i as int])),
        is_lifted(
            a,
            e.reel.clips[i as int],
            start(e.reel.clips, i as int) as Time,
            e.lift_group(e.reel.clips[i as int]),
        ),
    ensures
        ({
            let f = e.sound_lifted(i as int, x, a);
            let c = e.reel.clips[i as int];
            let d = f.reel.clips[i as int];
            let b = f.reel.audios.last();
            &&& one_edit(e, f)
            &&& f.reel == (Reel { clips: f.reel.clips, audios: f.reel.audios, ..e.reel })
            &&& same_but(e.reel.clips, f.reel.clips, i as int)
            &&& put_in(e.reel.audios, f.reel.audios, e.reel.audios.len() as int)
            &&& d.volume == 0 && d.path == c.path && d.in_s == c.in_s && d.out_s == c.out_s && d.speed == c.speed
            &&& b.path == c.path && b.in_s == c.in_s && b.out_s == c.out_s
            &&& b.at == start(e.reel.clips, i as int) as Time
            &&& b.lane == 1 && b.enabled && !b.solo && b.vol_end is None
            &&& c.volume > 0 ==> b.volume == c.volume
            &&& c.volume == 0 ==> b.volume == 1000
            &&& b.group == d.group
            &&& c.group != 0 ==> d.group == c.group && f.next_group == e.next_group
            &&& c.group == 0 ==> d.group == e.next_group && f.next_group == e.next_group + 1
            &&& f.selected == Some(Sel::Aud(e.reel.audios.len() as usize))
        }),
{
    reveal(EditorView::pushed);
    reveal_strlit("");
}

/// Law: a take lands on A2 where its recording began, whole and at full level, behind
/// the beds that were there; nothing else on the reel changes.
pub proof fn law_take_lands(e: EditorView, a: AudioItem, take: Take, duration: Time, n: nat)
    requires
        is_take(a, take, duration, n),
    ensures
        ({
            let f = e.take_landed(a);
            let b = f.reel.audios.last();
            &&& one_edit(e, f)
            &&& f.reel == (Reel { audios: f.reel.audios, ..e.reel })
            &&& put_in(e.reel.audios, f.reel.audios, e.reel.audios.len() as int)
            &&& b.path == take.path && b.at == take.at && b.in_s == 0 && b.out_s == duration && b.lane == 2
            &&& b.volume == 1000 && b.enabled && !b.solo && b.group == 0
            &&& 20 * b.fade_in == crate::time::SECOND && 10 * b.fade_out == crate::time::SECOND
            &&& f.phase == Phase::Audio
        }),
        5 * SHORTEST_TAKE == crate::time::SECOND,
{
    reveal(EditorView::pushed);
    reveal_strlit("");
}

/// Law: takes are counted by their names: one more voiceover, one more in the count,
/// and no other bed counts.
pub proof fn law_voiceovers_are_counted(s: Seq<AudioItem>, n: int)
    requires
        0 <= n < s.len(),
    ensures
        voiceovers(s, n + 1) == voiceovers(s, n) + (if is_voiceover(s[n].name@) { 1nat } else { 0nat }),
        voiceovers(s, 0) == 0,
        is_voiceover(s[n].name@) <==> "Voiceover"@.is_prefix_of(s[n].name@),
{
    reveal_strlit("Voiceover");
}

/// The record button was pressed.
pub open spec fn presses_record(
    p: Recorder,
    e: EditorView,
    path: String,
    exporting: bool,
    playing: bool,
    q: Recorder,
    f: EditorView,
    r: RecordAct,
) -> bool {
    if p.take is Some {
        &&& r is Nothing
        &&& q == (Recorder { stop: true, ..p })
        &&& f == e
    } else if exporting {
        &&& r is Nothing
        &&& q == p
        &&& f == e.says("Can't record during export."@)
    } else {
        &&& r == RecordAct::Open { roll: e.reel.clips.len() > 0 && !playing }
        &&& q == (Recorder { take: Some(Take { path, at: e.playhead }), stop: false, len: 0 })
        &&& f == e.says(
            "● Recording voiceover from "@ + clock_text(e.playhead as int) + " — press V or Stop when done."@,
        )
    }
}

/// The microphone reported.
pub open spec fn hears_mic(p: Recorder, e: EditorView, ev: MicEvent, q: Recorder, f: EditorView, r: MicAct) -> bool {
    match ev {
        MicEvent::Refused(why) => {
            &&& r is GiveUp
            &&& q == (Recorder { take: None, stop: false, ..p })
            &&& f == e.says(why@)
        },
        MicEvent::Running(t) => {
            &&& f == e
            &&& if p.stop {
                r is Close && q == (Recorder { stop: false, ..p })
            } else {
                r is Wait && q == (Recorder { len: t, ..p })
            }
        },
        MicEvent::Ended => {
            &&& r is Discard
            &&& q == (Recorder { take: None, stop: false, ..p })
            &&& f == e.says("Microphone capture ended unexpectedly."@)
        },
        MicEvent::Broke(why) => {
            &&& r is GiveUp
            &&& q == (Recorder { take: None, stop: false, ..p })
            &&& f == e.says("Mic capture error: "@ + why@)
        },
        MicEvent::Closed => {
            &&& r is Probe
            &&& q == p
            &&& f == e
        },
        MicEvent::Stuck(why) => {
            &&& r is Discard
            &&& q == (Recorder { take: None, ..p })
            &&& f == e.says("Could not finish recording: "@ + why@)
        },
    }
}

/// A take was read.
pub open spec fn lands_take(e: EditorView, take: Take, probed: Result<(Time, bool), String>, f: EditorView, keep: bool) -> bool {
    match probed {
        Err(why) => !keep && f == e.says("Could not read voiceover: "@ + why@),
        Ok((duration, has_audio)) => if has_audio && duration >= SHORTEST_TAKE {
            &&& keep
            &&& exists|a: AudioItem| #[trigger]
                is_take(a, take, duration, voiceovers(e.reel.audios, e.reel.audios.len() as int) + 1) && f
                    == e.take_landed(a)
        } else {
            &&& !keep
            &&& f == e.says(
                if duration < SHORTEST_TAKE {
                    "Recording too short — hold a little longer."@
                } else {
                    "Recording had no audio — check the microphone."@
                },
            )
        },
    }
}

/// The selected clip's sound was detached.
pub open spec fn detaches(e: EditorView, f: EditorView, r: Option<String>) -> bool {
    match e.selected {
        Some(Sel::Main(i)) => {
            let c = e.reel.clips[i as int];
            if !c.has_audio {
                &&& r is None
                &&& f == e.says(c.name@ + " has no audio stream to detach."@)
            } else {
                &&& r == if c.wave@.len() == 0 { Some(c.path) } else { None }
                &&& exists|x: Clip, a: AudioItem|
                    #![trigger is_silenced(x, c, e.lift_group(c)), is_lifted(a, c, start(e.reel.clips, i as int) as Time, e.lift_group(c))]
                    is_silenced(x, c, e.lift_group(c)) && is_lifted(
                        a,
                        c,
                        start(e.reel.clips, i as int) as Time,
                        e.lift_group(c),
                    ) && f == e.sound_lifted(i as int, x, a)
            }
        },
        _ => r is None && f == e.says("Select a V1 clip to detach its audio onto A1."@),
    }
}

/// Law: the record button starts a take at the playhead, and pressed again asks it to
/// stop; during an export it starts none. It never changes the reel.
pub proof fn law_record_button(p: Recorder, e: EditorView, path: String, exporting: bool, playing: bool, q: Recorder, f: EditorView, r: RecordAct)
    requires
        presses_record(p, e, path, exporting, playing, q, f, r),
    ensures
        f.reel == e.reel && f.playhead == e.playhead,
        p.take is Some ==> q.take == p.take && q.stop && r is Nothing,
        p.take is None && exporting ==> q == p && r is Nothing,
        p.take is None && !exporting ==> (q.take matches Some(t) && t.path == path && t.at == e.playhead) && !q.stop && q.len == 0 && r is Open,
        p.take is None && !exporting && playing ==> (r matches RecordAct::Open { roll } && !roll),
        p.take is None && !exporting && !playing && e.reel.clips.len() > 0 ==> (r matches RecordAct::Open { roll } && roll),
{
}

/// Law: while the microphone runs the take goes on and its length is shown, until a stop
/// was asked for, which closes it once. A take that fails is given up, and the recorder
/// is free for the next. The reel never changes while recording.
pub proof fn law_mic(p: Recorder, e: EditorView, ev: MicEvent, q: Recorder, f: EditorView, r: MicAct)
    requires
        hears_mic(p, e, ev, q, f, r),
    ensures
        f.reel == e.reel && f.undo == e.undo,
        ev is Running && !p.stop ==> r is Wait && q.take == p.take && q.len == ev->Running_0,
        ev is Running && p.stop ==> r is Close && !q.stop && q.take == p.take,
        ev is Refused || ev is Broke ==> r is GiveUp && q.take is None && !q.stop,
        ev is Ended || ev is Stuck ==> r is Discard && q.take is None,
        ev is Closed ==> r is Probe && q == p && f == e,
{
}

/// Law: a take is kept when it has sound and is a fifth of a second or longer, and then
/// lies whole where its recording began; any other leaves the reel as it was.
pub proof fn law_take_is_kept(e: EditorView, take: Take, probed: Result<(Time, bool), String>, f: EditorView, keep: bool)
    requires
        lands_take(e, take, probed, f, keep),
    ensures
        keep <==> (probed matches Ok(p) && p.1 && 5 * p.0 >= crate::time::SECOND),
        !keep ==> f.reel == e.reel && f.undo == e.undo,
        keep ==> {
            let b = f.reel.audios.last();
            &&& one_edit(e, f)
            &&& put_in(e.reel.audios, f.reel.audios, e.reel.audios.len() as int)
            &&& b.path == take.path && b.at == take.at && b.in_s == 0 && b.out_s == (probed->Ok_0).0 && b.lane == 2
        },
{
    reveal_strlit("");
    crate::editor::lemma_pushed_alone(e, ""@);
}

/// Law: only a selected clip that has sound can be detached; anything else leaves the
/// reel as it was.
pub proof fn law_detach_needs_sound(e: EditorView, f: EditorView, r: Option<String>)
    requires
        detaches(e, f, r),
        e.selected matches Some(s) ==> e.reel.has(s),
    ensures
        !(e.selected matches Some(Sel::Main(_))) ==> f.reel == e.reel && f.undo == e.undo && r is None,
        e.selected matches Some(Sel::Main(i)) ==> !e.reel.clips[i as int].has_audio ==> f.reel == e.reel && f.undo
            == e.undo,
        e.selected matches Some(Sel::Main(i)) ==> e.reel.clips[i as int].has_audio ==> {
            let c = e.reel.clips[i as int];
            let b = f.reel.audios.last();
            &&& one_edit(e, f)
            &&& f.reel.audios.len() == e.reel.audios.len() + 1
            &&& f.reel.clips[i as int].volume == 0
            &&& b.path == c.path && b.in_s == c.in_s && b.out_s == c.out_s && b.lane == 1
            &&& b.at == start(e.reel.clips, i as int) as Time
            &&& b.group == f.reel.clips[i as int].group && b.group == (if c.group != 0 { c.group } else { e.next_group })
        },
{
    reveal_strlit("");
    crate::editor::lemma_pushed_alone(e, ""@);
}

} // verus!
