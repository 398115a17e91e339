//! Freeze frames and instant replays: a piece goes in at the playhead and what
//! comes after it moves on.

use crate::edges::{freeze_place, freeze_spot, replay_span, replayed, FreezePlace};
use crate::editor::{one_edit, put_in, Editor, EditorView};
use crate::model::{
    audios_ok, overlays_ok, sound, titles_ok, AudioItem, Clip, Look, OverlayItem, Reel, Sel,
    Snapshot, TitleView,
};
use crate::text::{cat2, cat3};
use crate::time::{
    fmt_clip_dur, greater, in_source, length_text, on_axis, place, placed, Time,
    MIN_PIECE, SAME,
};
use crate::track::{extent, extent_of, lemma_start_axis, locate, located, rate, start, start_of};
use vstd::prelude::*;

verus! {

/// How long a freeze frame is held.
pub const FREEZE_HOLD: Time = 6_000_000;

/// How much source a still counts as having.
pub const STILL_SOURCE: Time = 180_000_000;

/// How much of the reel an instant replay looks back.
pub const REPLAY_BACK: Time = 4_500_000;

/// The speed of an instant replay.
pub const REPLAY_SPEED: u32 = 500;

/// A freeze frame that is being taken.
pub struct FreezeJob {
    pub index: usize,
    pub spot: FreezePlace,
    /// Where the playhead was.
    pub at: Time,
    /// The source position to take the frame at.
    pub local: Time,
    pub path: String,
    pub name: String,
    pub look: Look,
    pub framing: String,
}

impl FreezeJob {
    pub open spec fn wf(&self) -> bool {
        &&& on_axis(self.at)
        &&& in_source(self.local)
        &&& self.spot matches FreezePlace::Split { local } ==> in_source(local)
    }
}

/// A track after piece `x` went in at clip `i`: between its halves, or before or
/// behind it. The right half follows with a hard cut.
pub open spec fn pieced(clips: Seq<Clip>, i: int, spot: FreezePlace, x: Clip) -> Seq<Clip> {
    match spot {
        FreezePlace::Before => clips.insert(i, x),
        FreezePlace::After => clips.insert(i + 1, x),
        FreezePlace::Split { local } => clips.update(i, Clip { out_s: local, ..clips[i] }).insert(
            i + 1,
            x,
        ).insert(i + 2, Clip { in_s: local, transition: None, ..clips[i] }),
    }
}

/// Where the piece stands on the track.
pub open spec fn piece_index(i: int, spot: FreezePlace) -> int {
    if spot is Before { i } else { i + 1 }
}

/// Where the piece starts on the reel: what starts there or later makes room for it.
pub open spec fn room_from(clips: Seq<Clip>, i: int, spot: FreezePlace, t: int) -> int {
    match spot {
        FreezePlace::Before => start(clips, i),
        FreezePlace::After => start(clips, i) + extent(clips, i),
        FreezePlace::Split { .. } => t,
    }
}

/// Where an item starts after `by` was put in at `from`.
pub open spec fn made_room(at: Time, from: int, by: int) -> Time {
    if at >= from - SAME { placed(at + by) as Time } else { at }
}

/// A reel after its overlays, beds and titles made room for `by` at `from`.
#[verifier::opaque]
pub open spec fn roomier(r: Reel, from: int, by: int) -> Reel {
    Reel {
        overlays: Seq::new(
            r.overlays.len(),
            |i: int| OverlayItem { at: made_room(r.overlays[i].at, from, by), ..r.overlays[i] },
        ),
        audios: Seq::new(
            r.audios.len(),
            |i: int| AudioItem { at: made_room(r.audios[i].at, from, by), ..r.audios[i] },
        ),
        titles: Seq::new(
            r.titles.len(),
            |i: int| TitleView { at: made_room(r.titles[i].at, from, by), ..r.titles[i] },
        ),
        ..r
    }
}

/// The held frame that a freeze job makes.
pub open spec fn is_freeze(x: Clip, job: FreezeJob, png: String, thumb: String) -> bool {
    &&& x.path == png
    &&& x.name@ == job.name@ + " (freeze)"@
    &&& x.duration == STILL_SOURCE
    &&& x.in_s == 0
    &&& x.out_s == FREEZE_HOLD
    &&& !x.has_audio
    &&& x.look == job.look
    &&& x.framing == job.framing
    &&& x.volume == 0
    &&& x.thumb == thumb
    &&& is_plain(x)
    &&& x.wave@.len() == 0
    &&& x.proxy@.len() == 0
}

/// What a fresh clip has that nothing else was said of.
pub open spec fn is_plain(x: Clip) -> bool {
    &&& x.speed == 1000
    &&& !x.reverse
    &&& x.denoise == 0
    &&& x.treat is None
    &&& x.transition is None
    &&& x.trans_dur == 1_500_000
    &&& x.group == 0
    &&& x.enabled
    &&& !x.solo
}

/// The replay of a span of clip `c`: slow, silent, in no group.
pub open spec fn is_replay(x: Clip, c: Clip, from: Time, to: Time) -> bool {
    &&& x.name@ == c.name@ + " (replay)"@
    &&& x == (Clip {
        in_s: from,
        out_s: to,
        speed: REPLAY_SPEED,
        reverse: false,
        transition: None,
        group: 0,
        name: x.name,
        volume: 0,
        ..c
    })
}

impl EditorView {
    /// After piece `x` of length `by` went in at clip `i`.
    pub open spec fn with_piece(self, i: int, spot: FreezePlace, x: Clip, from: int, by: int) -> EditorView {
        let clips = pieced(self.reel.clips, i, spot, x);
        let r = Reel { clips, ..self.reel };
        let k = piece_index(i, spot);
        EditorView {
            reel: if self.magnet { roomier(r, from, by) } else { r },
            ..self
        }.selects(Some(Sel::Main(k as usize))).sought(start(clips, k))
    }

    /// After a freeze frame was asked for.
    pub open spec fn freeze_asked(self) -> EditorView {
        match located(self.reel.clips, self.playhead as int) {
            None => self.says("Park the playhead on a V1 clip to freeze a frame."@),
            Some((i, local)) => {
                let c = self.reel.clips[i];
                if freeze_spot(c.in_s, c.out_s, local as Time, MIN_PIECE) is None {
                    self.says("Playhead is outside the clip's kept range."@)
                } else {
                    self.says("Capturing freeze frame from "@ + c.name@ + "…"@)
                }
            },
        }
    }

    /// Whether the clip a freeze was taken from is still at its place.
    pub open spec fn still_there(self, job: FreezeJob) -> bool {
        job.index < self.reel.clips.len() && self.reel.clips[job.index as int].path@ == job.path@
    }

    /// After freeze frame `x` landed.
    pub open spec fn frozen(self, job: FreezeJob, x: Clip) -> EditorView {
        let i = job.index as int;
        self.pushed(""@).with_piece(
            i,
            job.spot,
            x,
            room_from(self.reel.clips, i, job.spot, job.at as int),
            FREEZE_HOLD as int,
        ).says(
            "Freeze frame held for "@ + length_text(FREEZE_HOLD as int) + " — drag an edge to change the hold."@,
        )
    }

    /// The clip an instant replay shows again, and which of its source.
    pub open spec fn replay_source(self) -> Option<(int, int, Time, Time)> {
        match located(self.reel.clips, self.playhead as int) {
            None => None,
            Some((i, local)) => {
                let c = self.reel.clips[i];
                match replayed(c.in_s, c.out_s, local as Time, (REPLAY_BACK * rate(c.speed) / 1000) as Time) {
                    None => None,
                    Some((from, to)) => Some((i, local, from, to)),
                }
            },
        }
    }

    /// Where a replay goes in: between the halves of the clip where there is room
    /// for both, and otherwise behind it.
    pub open spec fn replay_spot(self, i: int, local: int) -> FreezePlace {
        let c = self.reel.clips[i];
        match freeze_spot(c.in_s, c.out_s, local as Time, MIN_PIECE) {
            Some(FreezePlace::Split { local }) => FreezePlace::Split { local },
            _ => FreezePlace::After,
        }
    }

    /// Where the room for a replay is made.
    pub open spec fn replay_room(self, i: int, local: int) -> int {
        let c = self.reel.clips[i];
        match freeze_spot(c.in_s, c.out_s, local as Time, MIN_PIECE) {
            Some(spot) => room_from(self.reel.clips, i, spot, self.playhead as int),
            None => self.playhead as int,
        }
    }

    /// After replay `x` of a clip went in.
    pub open spec fn replayed_with(self, i: int, local: int, from: Time, to: Time, x: Clip) -> EditorView {
        self.pushed(""@).with_piece(
            i,
            self.replay_spot(i, local),
            x,
            self.replay_room(i, local),
            (to - from) * 1000 / (REPLAY_SPEED as int),
        ).says(
            "Instant replay at 0.5× — "@ + length_text(to - from) + " of source, drag edges to taste."@,
        )
    }
}

/// Law: what starts before the piece stays where it is, and what comes after moves by
/// the piece's length, as far as the axis goes; the clips and layers are left alone.
pub proof fn law_room(r: Reel, from: int, by: int, i: int)
    requires
        r.wf(),
        0 <= by,
    ensures
        0 <= i < r.overlays.len() ==> {
            let (was, is) = (r.overlays[i], roomier(r, from, by).overlays[i]);
            &&& was.at < from - SAME ==> is == was
            &&& was.at >= from - SAME ==> is == (OverlayItem { at: placed(was.at + by) as Time, ..was })
        },
        0 <= i < r.audios.len() ==> {
            let (was, is) = (r.audios[i], roomier(r, from, by).audios[i]);
            &&& was.at < from - SAME ==> is == was
            &&& was.at >= from - SAME ==> is == (AudioItem { at: placed(was.at + by) as Time, ..was })
        },
        0 <= i < r.titles.len() ==> {
            let (was, is) = (r.titles[i], roomier(r, from, by).titles[i]);
            &&& was.at < from - SAME ==> is == was
            &&& was.at >= from - SAME ==> is == (TitleView { at: placed(was.at + by) as Time, ..was })
        },
        roomier(r, from, by).clips == r.clips,
        roomier(r, from, by).adjustments == r.adjustments,
{
    reveal(roomier);
    reveal(overlays_ok);
    reveal(audios_ok);
    reveal(titles_ok);
}

proof fn lemma_roomier(r: Reel, from: int, by: int)
    requires
        r.wf(),
    ensures
        roomier(r, from, by).wf(),
        roomier(r, from, by).clips == r.clips,
        roomier(r, from, by).overlays.len() == r.overlays.len(),
        roomier(r, from, by).audios.len() == r.audios.len(),
        roomier(r, from, by).titles.len() == r.titles.len(),
        roomier(r, from, by).adjustments == r.adjustments,
{
    reveal(roomier);
    reveal(overlays_ok);
    reveal(audios_ok);
    reveal(titles_ok);
}

proof fn lemma_pieced_sound(clips: Seq<Clip>, i: int, spot: FreezePlace, x: Clip)
    requires
        sound(clips),
        0 <= i < clips.len(),
        x.wf(),
        spot matches FreezePlace::Split { local } ==> in_source(local),
    ensures
        sound(pieced(clips, i, spot, x)),
{
    reveal(sound);
    assert(clips[i].wf());
}

fn make_room_at(at: Time, from: Time, by: Time) -> (r: Time)
    requires
        on_axis(at),
        on_axis(from),
        on_axis(by),
    ensures
        r == made_room(at, from as int, by as int),
        on_axis(r),
{
    if at >= from - SAME { place(at + by) } else { at }
}

impl Snapshot {
    /// Let overlays, beds and titles that start at `from` or later make room for `by`.
    fn make_room(&mut self, from: Time, by: Time)
        requires
            old(self)@.wf(),
            on_axis(from),
            on_axis(by),
        ensures
            final(self)@ == roomier(old(self)@, from as int, by as int),
            final(self)@.wf(),
    {
        let ghost was = self@;
        let ghost to = roomier(was, from as int, by as int);
        proof {
            reveal(roomier);
            lemma_roomier(was, from as int, by as int);
        }
        let mut i: usize = 0;
        while i < self.overlays.len()
            invariant
                i <= self.overlays.len(),
                to == roomier(was, from as int, by as int),
                was.wf(),
                on_axis(from),
                on_axis(by),
                self@ == (Reel { overlays: self@.overlays, ..was }),
                self@.overlays.len() == was.overlays.len(),
                forall|k: int| 0 <= k < i ==> #[trigger] self@.overlays[k] == to.overlays[k],
                forall|k: int| i <= k < was.overlays.len() ==> #[trigger] self@.overlays[k] == was.overlays[k],
            decreases self.overlays.len() - i,
        {
            proof {
                reveal(roomier);
                crate::model::lemma_overlays_ok_at(was.overlays, i as int);
            }
            let ghost before = self@.overlays;
            assert(before[i as int] == was.overlays[i as int]);
            let at: Time = make_room_at(self.overlays[i].at, from, by);
            self.overlays[i].at = at;
            assert(self@.overlays =~= before.update(i as int, to.overlays[i as int]));
            i += 1;
        }
        assert(self@.overlays =~= to.overlays);
        let mut i: usize = 0;
        while i < self.audios.len()
            invariant
                i <= self.audios.len(),
                to == roomier(was, from as int, by as int),
                was.wf(),
                on_axis(from),
                on_axis(by),
                self@ == (Reel { overlays: to.overlays, audios: self@.audios, ..was }),
                self@.audios.len() == was.audios.len(),
                forall|k: int| 0 <= k < i ==> #[trigger] self@.audios[k] == to.audios[k],
                forall|k: int| i <= k < was.audios.len() ==> #[trigger] self@.audios[k] == was.audios[k],
            decreases self.audios.len() - i,
        {
            proof {
                reveal(roomier);
                crate::model::lemma_audios_ok_at(was.audios, i as int);
            }
            let ghost before = self@.audios;
            assert(before[i as int] == was.audios[i as int]);
            let at: Time = make_room_at(self.audios[i].at, from, by);
            self.audios[i].at = at;
            assert(self@.audios =~= before.update(i as int, to.audios[i as int]));
            i += 1;
        }
        assert(self@.audios =~= to.audios);
        let mut i: usize = 0;
        while i < self.titles.len()
            invariant
                i <= self.titles.len(),
                to == roomier(was, from as int, by as int),
                was.wf(),
                on_axis(from),
                on_axis(by),
                self@ == (Reel { overlays: to.overlays, audios: to.audios, titles: self@.titles, ..was }),
                self@.titles.len() == was.titles.len(),
                forall|k: int| 0 <= k < i ==> #[trigger] self@.titles[k] == to.titles[k],
                forall|k: int| i <= k < was.titles.len() ==> #[trigger] self@.titles[k] == was.titles[k],
            decreases self.titles.len() - i,
        {
            proof {
                reveal(roomier);
                crate::model::lemma_titles_ok_at(was.titles, i as int);
            }
            let ghost before = self@.titles;
            assert(before[i as int] == was.titles[i as int]);
            let at: Time = make_room_at(self.titles[i].at, from, by);
            self.titles[i].at = at;
            assert(self@.titles =~= before.update(i as int, to.titles[i as int]));
            i += 1;
        }
        assert(self@.titles =~= to.titles);
        assert(self@ =~= to);
    }
}

/// Put piece `x` in at clip `i`.
fn put_piece(clips: &mut Vec<Clip>, i: usize, spot: FreezePlace, x: Clip)
    requires
        i < old(clips).len(),
    ensures
        final(clips)@ == pieced(old(clips)@, i as int, spot, x),
{
    let ghost s = clips@;
    match spot {
        FreezePlace::Before => {
            clips.insert(i, x);
        },
        FreezePlace::After => {
            clips.insert(i + 1, x);
        },
        FreezePlace::Split { local } => {
            let mut right: Clip = clips[i].clone();
            right.in_s = local;
            right.transition = None;
            clips[i].out_s = local;
            assert(clips@ =~= s.update(i as int, Clip { out_s: local, ..s[i as int] }));
            clips.insert(i + 1, x);
            let n: usize = clips.len();
            clips.insert(i + 2, right);
        },
    }
}

impl FreezeJob {
    /// The held frame, once it was taken.
    fn clip(&self, png: String, thumb: String) -> (x: Clip)
        ensures
            is_freeze(x, *self, png, thumb),
            x.wf(),
    {
        proof {
            reveal_strlit("");
        }
        Clip {
            path: png,
            name: cat2(self.name.as_str(), " (freeze)"),
            duration: STILL_SOURCE,
            in_s: 0,
            out_s: FREEZE_HOLD,
            has_audio: false,
            look: self.look.clone(),
            framing: self.framing.clone(),
            speed: 1000,
            reverse: false,
            volume: 0,
            denoise: 0,
            treat: None,
            transition: None,
            trans_dur: 1_500_000,
            thumb,
            wave: "".to_owned(),
            proxy: "".to_owned(),
            group: 0,
            enabled: true,
            solo: false,
        }
    }
}

impl Clip {
    fn replay(&self, from: Time, to: Time) -> (x: Clip)
        requires
            self.wf(),
            in_source(from),
            in_source(to),
        ensures
            is_replay(x, *self, from, to),
            x.wf(),
    {
        let mut x: Clip = self.clone();
        x.in_s = from;
        x.out_s = to;
        x.speed = REPLAY_SPEED;
        x.reverse = false;
        x.transition = None;
        x.group = 0;
        x.name = cat2(self.name.as_str(), " (replay)");
        x.volume = 0;
        x
    }
}

impl Editor {
    /// Put piece `x` of length `by` in at clip `i`, select it and go to it.
    fn put_in(&mut self, i: usize, spot: FreezePlace, x: Clip, from: Time, by: Time)
        requires
            old(self)@.wf(),
            i < old(self).reel.clips.len(),
            x.wf(),
            spot matches FreezePlace::Split { local } ==> in_source(local),
            on_axis(from),
            on_axis(by),
        ensures
            final(self)@ == old(self)@.with_piece(i as int, spot, x, from as int, by as int),
            final(self)@.wf(),
    {
        let ghost was = self@;
        proof {
            lemma_pieced_sound(was.reel.clips, i as int, spot, x);
            lemma_roomier(
                Reel { clips: pieced(was.reel.clips, i as int, spot, x), ..was.reel },
                from as int,
                by as int,
            );
        }
        put_piece(&mut self.reel.clips, i, spot, x);
        let n: usize = self.reel.clips.len();
        let k: usize = match spot {
            FreezePlace::Before => i,
            _ => i + 1,
        };
        self.selected = Some(Sel::Main(k));
        if self.magnet {
            self.reel.make_room(from, by);
        }
        let t: Time = start_of(&self.reel.clips, k);
        self.seek_to(t);
    }

    /// Ask for a freeze frame of what shows at the playhead.
    pub fn add_freeze_frame(&mut self) -> (r: Option<FreezeJob>)
        requires
            old(self)@.wf(),
        ensures
            final(self)@ == old(self)@.freeze_asked(),
            final(self)@.wf(),
            asks_freeze(old(self)@, r),
    {
        let t: Time = self.playhead;
        let (i, local) = match locate(&self.reel.clips, t) {
            Some(p) => p,
            None => {
                self.status = "Park the playhead on a V1 clip to freeze a frame.".to_owned();
                return None;
            },
        };
        proof {
            crate::model::lemma_sound_at(self@.reel.clips, i as int);
        }
        let c: Clip = self.reel.clips[i].clone();
        match freeze_place(c.in_s, c.out_s, local, MIN_PIECE) {
            None => {
                self.status = "Playhead is outside the clip's kept range.".to_owned();
                None
            },
            Some(spot) => {
                self.status = cat3("Capturing freeze frame from ", c.name.as_str(), "…");
                Some(FreezeJob {
                    index: i,
                    spot,
                    at: t,
                    local,
                    path: c.path,
                    name: c.name,
                    look: c.look,
                    framing: c.framing,
                })
            },
        }
    }

    /// A freeze frame arrived, or failed to. It goes in where it was asked for,
    /// unless the clip has moved away meanwhile.
    pub fn land_freeze(&mut self, job: &FreezeJob, png: Result<String, String>, thumb: String)
        requires
            old(self)@.wf(),
            job.wf(),
        ensures
            final(self)@.wf(),
            lands_freeze(old(self)@, *job, png, thumb, final(self)@),
    {
        let ghost was = self@;
        match png {
            Err(e) => {
                self.status = cat2("Freeze frame failed: ", e.as_str());
            },
            Ok(file) => {
                let i: usize = job.index;
                if i >= self.reel.clips.len() || self.reel.clips[i].path != job.path {
                    self.status = "Clip moved while capturing — try freeze frame again.".to_owned();
                    return;
                }
                let from: Time = self.room_at(i, job.spot, job.at);
                let x: Clip = job.clip(file, thumb);
                let ghost gx = x;
                self.push_undo("");
                self.put_in(i, job.spot, x, from, FREEZE_HOLD);
                self.status = cat3(
                    "Freeze frame held for ",
                    fmt_clip_dur(FREEZE_HOLD).as_str(),
                    " — drag an edge to change the hold.",
                );
                assert(self@ == was.frozen(*job, gx));
            },
        }
    }

    /// Where a piece that goes in at clip `i` starts on the reel.
    fn room_at(&self, i: usize, spot: FreezePlace, t: Time) -> (r: Time)
        requires
            self@.wf(),
            i < self.reel.clips.len(),
            on_axis(t),
        ensures
            r == room_from(self@.reel.clips, i as int, spot, t as int),
            on_axis(r),
    {
        let n: usize = self.reel.clips.len();
        proof {
            lemma_start_axis(self@.reel.clips, i + 1);
        }
        match spot {
            FreezePlace::Before => start_of(&self.reel.clips, i),
            FreezePlace::After => start_of(&self.reel.clips, i) + extent_of(&self.reel.clips, i),
            FreezePlace::Split { .. } => t,
        }
    }

    /// Play what led up to the playhead again, slowly.
    pub fn instant_replay(&mut self)
        requires
            old(self)@.wf(),
        ensures
            final(self)@.wf(),
            replays(old(self)@, final(self)@),
    {
        let ghost was = self@;
        let t: Time = self.playhead;
        let (i, local) = match locate(&self.reel.clips, t) {
            Some(p) => p,
            None => {
                self.status = "Park the playhead on a V1 clip for instant replay.".to_owned();
                return;
            },
        };
        proof {
            crate::model::lemma_sound_at(was.reel.clips, i as int);
        }
        let speed: Time = greater(self.reel.clips[i].speed as Time, 10);
        let want: Time = REPLAY_BACK * speed / 1000;
        let (from, to) = match replay_span(self.reel.clips[i].in_s, self.reel.clips[i].out_s, local, want) {
            Some(p) => p,
            None => {
                self.status = "Need a bit more clip before the playhead to replay.".to_owned();
                return;
            },
        };
        assert(was.replay_source() == Some((i as int, local as int, from, to)));
        let spot: Option<FreezePlace> = freeze_place(
            self.reel.clips[i].in_s,
            self.reel.clips[i].out_s,
            local,
            MIN_PIECE,
        );
        let room: Time = match spot {
            Some(p) => self.room_at(i, p, t),
            None => t,
        };
        let goes: FreezePlace = match spot {
            Some(FreezePlace::Split { local }) => FreezePlace::Split { local },
            _ => FreezePlace::After,
        };
        let by: Time = (to - from) * 1000 / (REPLAY_SPEED as Time);
        let x: Clip = self.reel.clips[i].replay(from, to);
        let ghost gx = x;
        self.push_undo("");
        self.put_in(i, goes, x, room, by);
        self.status = cat3(
            "Instant replay at 0.5× — ",
            fmt_clip_dur(to - from).as_str(),
            " of source, drag edges to taste.",
        );
        assert(is_replay(gx, was.reel.clips[i as int], from, to));
        assert(self@ == was.replayed_with(i as int, local as int, from, to, gx));
        assert(match was.replay_source() {
            None => false,
            Some((i, local, from, to)) => exists|x: Clip| #[trigger]
                is_replay(x, was.reel.clips[i], from, to) && self@ == was.replayed_with(i, local, from, to, x),
        });
    }
}

/// Law: a held frame or a replay is one more clip (two where it parts one): in front of
/// the clip, behind it, or between its halves, which together keep its source.
pub proof fn law_piece_goes_in(clips: Seq<Clip>, i: int, x: Clip)
    requires
        0 <= i < clips.len(),
    ensures
        put_in(clips, pieced(clips, i, FreezePlace::Before, x), i),
        pieced(clips, i, FreezePlace::Before, x)[i] == x,
        put_in(clips, pieced(clips, i, FreezePlace::After, x), i + 1),
        pieced(clips, i, FreezePlace::After, x)[i + 1] == x,
        forall|local: Time|
            {
                let s = #[trigger] pieced(clips, i, FreezePlace::Split { local }, x);
                &&& s.len() == clips.len() + 2
                &&& s[i + 1] == x
                &&& s[i] == (Clip { out_s: local, ..clips[i] })
                &&& s[i + 2] == (Clip { in_s: local, transition: None, ..clips[i] })
                &&& forall|k: int| 0 <= k < i ==> #[trigger] s[k] == clips[k]
                &&& forall|k: int| i + 2 < k < s.len() ==> #[trigger] s[k] == clips[k - 2]
            },
{
}

/// Law: a freeze frame lands as a still of two seconds at the place the frame was
/// taken; it is selected, it is one undo step, and with the magnet on what stands
/// behind that place makes room by as much.
pub proof fn law_freeze(e: EditorView, job: FreezeJob, x: Clip, png: String, thumb: String)
    requires
        e.reel.wf(),
        e.still_there(job),
        is_freeze(x, job, png, thumb),
        !crate::editor::picture_phase(e.phase),
    ensures
        ({
            let f = e.frozen(job, x);
            let i = job.index as int;
            let k = if job.spot is Before { i } else { i + 1 };
            let from = match job.spot {
                FreezePlace::Before => start(e.reel.clips, i),
                FreezePlace::After => start(e.reel.clips, i + 1),
                FreezePlace::Split { .. } => job.at as int,
            };
            &&& one_edit(e, f)
            &&& f.reel.clips[k] == x
            &&& f.reel.clips.len() == e.reel.clips.len() + (if job.spot is Split { 2nat } else { 1nat })
            &&& x.path == png && !x.has_audio && x.out_s - x.in_s == 2 * crate::time::SECOND && x.speed == 1000
            &&& f.selected == Some(Sel::Main(k as usize))
            &&& f.reel == (Reel {
                clips: f.reel.clips,
                overlays: f.reel.overlays,
                audios: f.reel.audios,
                titles: f.reel.titles,
                ..e.reel
            })
            &&& !e.magnet ==> f.reel == (Reel { clips: f.reel.clips, ..e.reel })
            &&& e.magnet ==> makes_room(e.reel, f.reel, from, 2 * crate::time::SECOND)
        }),
{
    reveal(EditorView::pushed);
    reveal_strlit("");
    let i = job.index as int;
    let r = Reel { clips: pieced(e.reel.clips, i, job.spot, x), ..e.reel };
    lemma_makes_room(e.reel, r, room_from(e.reel.clips, i, job.spot, job.at as int), FREEZE_HOLD as int);
    reveal(roomier);
}

/// What starts at `from` or behind it starts later by `by`; what starts before stays.
pub open spec fn makes_room(a: Reel, b: Reel, from: int, by: int) -> bool {
    &&& b.overlays.len() == a.overlays.len()
    &&& b.audios.len() == a.audios.len()
    &&& b.titles.len() == a.titles.len()
    &&& forall|m: int|
        0 <= m < a.overlays.len() ==> {
            &&& a.overlays[m].at < from - 3 ==> #[trigger] b.overlays[m] == a.overlays[m]
            &&& a.overlays[m].at >= from && a.overlays[m].at + by <= crate::time::AXIS_END ==> b.overlays[m] == (OverlayItem {
                at: (a.overlays[m].at + by) as Time,
                ..a.overlays[m]
            })
        }
    &&& forall|m: int|
        0 <= m < a.audios.len() ==> {
            &&& a.audios[m].at < from - 3 ==> #[trigger] b.audios[m] == a.audios[m]
            &&& a.audios[m].at >= from && a.audios[m].at + by <= crate::time::AXIS_END ==> b.audios[m] == (AudioItem {
                at: (a.audios[m].at + by) as Time,
                ..a.audios[m]
            })
        }
    &&& forall|m: int|
        0 <= m < a.titles.len() ==> {
            &&& a.titles[m].at < from - 3 ==> #[trigger] b.titles[m] == a.titles[m]
            &&& a.titles[m].at >= from && a.titles[m].at + by <= crate::time::AXIS_END ==> b.titles[m] == (TitleView {
                at: (a.titles[m].at + by) as Time,
                ..a.titles[m]
            })
        }
}

proof fn lemma_makes_room(a: Reel, r: Reel, from: int, by: int)
    requires
        a.wf(),
        by >= 0,
        r == (Reel { clips: r.clips, ..a }),
    ensures
        makes_room(a, roomier(r, from, by), from, by),
{
    reveal(roomier);
    reveal(overlays_ok);
    reveal(audios_ok);
    reveal(titles_ok);
    let b = roomier(r, from, by);
    assert forall|m: int| 0 <= m < a.overlays.len() implies {
        &&& a.overlays[m].at < from - 3 ==> #[trigger] b.overlays[m] == a.overlays[m]
        &&& a.overlays[m].at >= from && a.overlays[m].at + by <= crate::time::AXIS_END ==> b.overlays[m] == (OverlayItem {
            at: (a.overlays[m].at + by) as Time,
            ..a.overlays[m]
        })
    } by {
        assert(a.overlays[m].wf());
    }
    assert forall|m: int| 0 <= m < a.audios.len() implies {
        &&& a.audios[m].at < from - 3 ==> #[trigger] b.audios[m] == a.audios[m]
        &&& a.audios[m].at >= from && a.audios[m].at + by <= crate::time::AXIS_END ==> b.audios[m] == (AudioItem {
            at: (a.audios[m].at + by) as Time,
            ..a.audios[m]
        })
    } by {
        assert(a.audios[m].wf());
    }
    assert forall|m: int| 0 <= m < a.titles.len() implies {
        &&& a.titles[m].at < from - 3 ==> #[trigger] b.titles[m] == a.titles[m]
        &&& a.titles[m].at >= from && a.titles[m].at + by <= crate::time::AXIS_END ==> b.titles[m] == (TitleView {
            at: (a.titles[m].at + by) as Time,
            ..a.titles[m]
        })
    } by {
        assert(a.titles[m].wf());
    }
}

/// Law: an instant replay shows again, silent and at half speed, the second and a half
/// of reel that led up to the playhead; it comes right behind what it repeats.
pub proof fn law_replay(e: EditorView, x: Clip)
    requires
        e.reel.wf(),
        sound(e.reel.clips),
        e.playhead >= 0,
        e.replay_source() is Some,
        is_replay(
            x,
            e.reel.clips[(e.replay_source()->0).0],
            (e.replay_source()->0).2,
            (e.replay_source()->0).3,
        ),
    ensures
        ({
            let (i, local, from, to) = e.replay_source()->0;
            let f = e.replayed_with(i, local, from, to, x);
            let c = e.reel.clips[i];
            &&& located(e.reel.clips, e.playhead as int) == Some((i, local))
            &&& one_edit(e, f)
            &&& f.reel.clips[i + 1] == x
            &&& x.path == c.path && x.volume == 0 && 2 * x.speed == 1000 && !x.reverse
            &&& c.in_s <= x.in_s <= x.out_s
            &&& local <= c.out_s ==> x.out_s == local
            &&& x.out_s - x.in_s >= MIN_PIECE
            &&& c.speed >= 10 ==> x.in_s == c.in_s || (2000 * (x.out_s - x.in_s) <= 3 * crate::time::SECOND * c.speed
                < 2000 * (x.out_s - x.in_s) + 2000)
            &&& (f.reel.clips.len() == e.reel.clips.len() + 2 && f.reel.clips[i].out_s == local && f.reel.clips[i
                + 2].in_s == local) || put_in(e.reel.clips, f.reel.clips, i + 1)
            &&& !e.magnet ==> f.reel == (Reel { clips: f.reel.clips, ..e.reel })
            &&& e.magnet && c.in_s + MIN_PIECE <= local && local + MIN_PIECE <= c.out_s ==> makes_room(
                e.reel,
                f.reel,
                e.playhead as int,
                2 * (x.out_s - x.in_s),
            )
            &&& e.magnet && c.in_s <= local && local + MIN_PIECE > c.out_s && local <= c.out_s ==> makes_room(
                e.reel,
                f.reel,
                start(e.reel.clips, i + 1),
                2 * (x.out_s - x.in_s),
            )
        }),
{
    reveal(EditorView::pushed);
    reveal_strlit("");
    reveal(roomier);
    crate::track::law_shown(e.reel.clips, e.playhead as int);
    let (i, local, from, to) = e.replay_source()->0;
    let c = e.reel.clips[i];
    crate::model::lemma_sound_at(e.reel.clips, i);
    let p = REPLAY_BACK * rate(c.speed);
    assert(0 <= p <= 4_500_000 * 0xffff_ffff) by (nonlinear_arith)
        requires
            p == 4_500_000 * rate(c.speed),
            10 <= rate(c.speed) <= 0xffff_ffff,
    ;
    reveal(crate::track::source_in);
    let by = (to - from) * 1000 / 500;
    assert(by == 2 * (to - from));
    let r = Reel { clips: pieced(e.reel.clips, i, e.replay_spot(i, local), x), ..e.reel };
    lemma_makes_room(e.reel, r, e.replay_room(i, local), by);
}

/// The freeze frame that is asked for at the playhead.
pub open spec fn asks_freeze(e: EditorView, r: Option<FreezeJob>) -> bool {
    match located(e.reel.clips, e.playhead as int) {
        None => r is None,
        Some((i, local)) => {
            let c = e.reel.clips[i];
            match freeze_spot(c.in_s, c.out_s, local as Time, MIN_PIECE) {
                None => r is None,
                Some(spot) => {
                    &&& r matches Some(job)
                    &&& job.wf()
                    &&& job.index == i
                    &&& job.spot == spot
                    &&& job.at == e.playhead
                    &&& job.local == local
                    &&& job.path == c.path
                    &&& job.name == c.name
                    &&& job.look == c.look
                    &&& job.framing == c.framing
                },
            }
        },
    }
}

/// The frame came back from `e` to `f`.
pub open spec fn lands_freeze(
    e: EditorView,
    job: FreezeJob,
    png: Result<String, String>,
    thumb: String,
    f: EditorView,
) -> bool {
    match png {
        Err(why) => f == e.says("Freeze frame failed: "@ + why@),
        Ok(file) => if e.still_there(job) {
            exists|x: Clip| #[trigger] is_freeze(x, job, file, thumb) && f == e.frozen(job, x)
        } else {
            f == e.says("Clip moved while capturing — try freeze frame again."@)
        },
    }
}

/// What led up to the playhead was repeated.
pub open spec fn replays(e: EditorView, f: EditorView) -> bool {
    match e.replay_source() {
        None => f == e.says(
            if e.reel.clips.len() == 0 {
                "Park the playhead on a V1 clip for instant replay."@
            } else {
                "Need a bit more clip before the playhead to replay."@
            },
        ),
        Some((i, local, from, to)) => exists|x: Clip| #[trigger]
            is_replay(x, e.reel.clips[i], from, to) && f == e.replayed_with(i, local, from, to, x),
    }
}

/// Law: the frame asked for is the one that shows at the playhead: that clip's file, at
/// the source position it shows there, to be held where the playhead stands. Asking
/// changes nothing on the reel.
pub proof fn law_freeze_asks_for_what_shows(e: EditorView, r: Option<FreezeJob>)
    requires
        asks_freeze(e, r),
        e.wf(),
        e.reel.clips.len() <= usize::MAX,
    ensures
        e.reel.clips.len() == 0 ==> r is None,
        e.reel.clips.len() > 0 ==> {
            let i = crate::track::shown(e.reel.clips, e.playhead as int);
            let c = e.reel.clips[i];
            &&& c.in_s <= c.out_s ==> r is Some
            &&& r matches Some(job) ==> {
                &&& job.index == i && job.path == c.path && job.look == c.look && job.framing == c.framing
                &&& job.local == crate::track::source_at(c, e.playhead - start(e.reel.clips, i))
                &&& job.at == e.playhead
                &&& job.spot matches FreezePlace::Split { local } ==> local == job.local && c.in_s + MIN_PIECE <= local
                    && local + MIN_PIECE <= c.out_s
                &&& job.spot is Before ==> job.local < c.in_s + MIN_PIECE
                &&& job.spot is After ==> job.local > c.out_s - MIN_PIECE
            }
        },
        e.freeze_asked().reel == e.reel && e.freeze_asked().undo == e.undo,
{
    if e.reel.clips.len() > 0 {
        crate::track::law_shown(e.reel.clips, e.playhead as int);
        let i = crate::track::shown(e.reel.clips, e.playhead as int);
        crate::model::lemma_sound_at(e.reel.clips, i);
        if e.reel.clips[i].in_s <= e.reel.clips[i].out_s {
            crate::track::law_source_in_span(e.reel.clips[i], e.playhead - start(e.reel.clips, i));
        }
    }
}

/// Law: a frame that could not be taken, or whose clip is gone from its place, changes
/// nothing; one that came back for a clip still there is held.
pub proof fn law_freeze_lands_on_its_clip(e: EditorView, job: FreezeJob, png: Result<String, String>, thumb: String, f: EditorView)
    requires
        lands_freeze(e, job, png, thumb, f),
        e.reel.wf(),
    ensures
        png is Err ==> f.reel == e.reel && f.undo == e.undo,
        job.index >= e.reel.clips.len() || e.reel.clips[job.index as int].path@ != job.path@ ==> f.reel == e.reel && f.undo
            == e.undo,
        png is Ok && job.index < e.reel.clips.len() && e.reel.clips[job.index as int].path@ == job.path@ ==> {
            let k = if job.spot is Before { job.index as int } else { job.index + 1 };
            &&& one_edit(e, f)
            &&& f.reel.clips.len() > e.reel.clips.len()
            &&& f.reel.clips[k].path == png->Ok_0
            &&& f.reel.clips[k].out_s - f.reel.clips[k].in_s == 2 * crate::time::SECOND
        },
{
    reveal(EditorView::pushed);
    reveal_strlit("");
    reveal(roomier);
}

/// Law: without a clip, or a tenth of a second of it before the playhead, there is no
/// replay; otherwise the clip that shows is repeated.
pub proof fn law_replay_needs_something_to_show(e: EditorView, f: EditorView)
    requires
        replays(e, f),
        e.wf(),
        e.reel.clips.len() <= usize::MAX,
    ensures
        e.reel.clips.len() == 0 ==> f.reel == e.reel,
        e.reel.clips.len() > 0 ==> {
            let i = crate::track::shown(e.reel.clips, e.playhead as int);
            let c = e.reel.clips[i];
            let local = crate::track::source_at(c, e.playhead - start(e.reel.clips, i));
            &&& local - c.in_s < MIN_PIECE ==> f.reel == e.reel && f.undo == e.undo
            &&& c.speed >= 100 && c.in_s <= c.out_s && local - c.in_s >= MIN_PIECE ==> one_edit(e, f)
                && f.reel.clips.len() > e.reel.clips.len() && f.reel.clips[i + 1].path == c.path && f.reel.clips[i
                + 1].out_s == local && f.reel.clips[i + 1].volume == 0
        },
{
    reveal(EditorView::pushed);
    reveal_strlit("");
    reveal(roomier);
    if e.reel.clips.len() > 0 {
        crate::track::law_shown(e.reel.clips, e.playhead as int);
        let i = crate::track::shown(e.reel.clips, e.playhead as int);
        let c = e.reel.clips[i];
        crate::model::lemma_sound_at(e.reel.clips, i);
        if c.in_s <= c.out_s {
            crate::track::law_source_in_span(c, e.playhead - start(e.reel.clips, i));
        }
        let p = REPLAY_BACK * rate(c.speed);
        assert(0 <= p <= 4_500_000 * 0xffff_ffff) by (nonlinear_arith)
            requires
                p == 4_500_000 * rate(c.speed),
                10 <= rate(c.speed) <= 0xffff_ffff,
        ;
        if c.speed >= 100 {
            assert(p >= 4_500_000 * 100) by (nonlinear_arith)
                requires
                    p == 4_500_000 * rate(c.speed),
                    rate(c.speed) >= 100,
            ;
        }
    }
}

} // verus!
