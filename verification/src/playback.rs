//! Playing the reel: the range, the loop, and the clock that moves the playhead.

use crate::editor::{Editor, EditorView};
use crate::text::cat5;
use crate::time::{between, clock_text, fmt_t, hold_between, lesser, lower, on_axis, Time, AXIS_END};
use crate::track::{total, total_of};
use vstd::prelude::*;

verus! {

/// A range shorter than this is no range.
pub const SHORT_RANGE: Time = 150_000;

/// The longest step the clock takes at once.
pub const LONG_STEP: Time = 1_500_000;

impl EditorView {
    /// What playback runs over: between the marks, or the whole reel where they
    /// leave too little.
    pub open spec fn play_range(self) -> (int, int) {
        let end = total(self.reel.clips);
        let s = between(
            match self.mark_in {
                Some(t) => t as int,
                None => 0,
            },
            0,
            end,
        );
        let e = between(
            match self.mark_out {
                Some(t) => t as int,
                None => end,
            },
            0,
            end,
        );
        if e > s + SHORT_RANGE { (s, e) } else { (0, end) }
    }

    /// After an end of the range was marked at the playhead.
    pub open spec fn range_marked(self, out: bool) -> EditorView {
        let e = if out {
            EditorView { mark_out: Some(self.playhead), ..self }
        } else {
            EditorView { mark_in: Some(self.playhead), ..self }
        };
        let r = e.play_range();
        e.says(range_text(out, r.0, r.1))
    }

    /// After the marks were cleared.
    pub open spec fn range_cleared(self) -> EditorView {
        if self.mark_in is None && self.mark_out is None {
            self
        } else {
            EditorView { mark_in: None, mark_out: None, ..self }.says(
                "In/out points cleared — playback covers the whole reel."@,
            )
        }
    }
}

/// What marking an end of the range reports.
#[verifier::opaque]
pub open spec fn range_text(out: bool, s: int, e: int) -> Seq<char> {
    (if out { "Out"@ } else { "In"@ }) + " point marked — playback runs "@ + clock_text(s) + ".."@ + (clock_text(e)
        + " (Shift+X clears)."@)
}

fn range_report(out: bool, s: Time, e: Time) -> (r: String)
    requires
        on_axis(s),
        on_axis(e),
    ensures
        r@ == range_text(out, s as int, e as int),
{
    proof {
        reveal(range_text);
    }
    let tail: String = crate::text::cat2(fmt_t(e).as_str(), " (Shift+X clears).");
    cat5(
        if out { "Out" } else { "In" },
        " point marked — playback runs ",
        fmt_t(s).as_str(),
        "..",
        tail.as_str(),
    )
}

/// Law: the range lies on the reel, in order, and is never shorter than the
/// shortest one unless it is the whole reel.
pub proof fn law_play_range(e: EditorView)
    requires
        e.wf(),
        e.reel.clips.len() <= usize::MAX,
    ensures
        0 <= e.play_range().0 <= e.play_range().1 <= total(e.reel.clips),
        e.play_range() == (0int, total(e.reel.clips)) || e.play_range().1 - e.play_range().0 > SHORT_RANGE,
{
    crate::track::lemma_start_axis(e.reel.clips, e.reel.clips.len() as int);
}

/// The player.
#[derive(Clone, Copy, PartialEq, Eq, Structural, Debug)]
pub struct Player {
    pub playing: bool,
    /// Which run of the clock is the current one; an older one that wakes up has
    /// nothing to say.
    pub run: u64,
    pub looping: bool,
}

/// What a tick of the clock comes to.
#[derive(Clone, Copy, PartialEq, Eq, Structural, Debug)]
pub enum Tick {
    /// This run is over: another one started, or playback stopped.
    Gone,
    /// On to the next tick.
    On,
    /// Back at the start of the range: the sound has to start again from here.
    Again(Time),
    /// The end: playback stopped.
    End,
}

/// Playing began where the playhead is; not without a clip.
pub open spec fn starts_play(p: Player, e: EditorView, q: Player, r: Option<u64>) -> bool {
    if e.reel.clips.len() == 0 {
        r is None && q == p
    } else {
        &&& r == Some((p.run + 1) as u64)
        &&& q == (Player { playing: true, run: (p.run + 1) as u64, ..p })
    }
}

/// The play button was pressed.
pub open spec fn toggles_play(p: Player, e: EditorView, q: Player, f: EditorView, r: Option<u64>) -> bool {
    if p.playing {
        &&& r is None
        &&& q == (Player { playing: false, ..p })
        &&& f == e
    } else if e.reel.clips.len() == 0 {
        r is None && q == p && f == e
    } else {
        let range = e.play_range();
        &&& r == Some((p.run + 1) as u64)
        &&& q == (Player { playing: true, run: (p.run + 1) as u64, ..p })
        &&& f == if e.playhead >= range.1 - SHORT_RANGE {
            e.sought(range.0)
        } else {
            e
        }
    }
}

/// Playing began at the start of the reel.
pub open spec fn plays_from_start(p: Player, e: EditorView, q: Player, f: EditorView, r: Option<u64>) -> bool {
    if e.reel.clips.len() == 0 {
        r is None && q == p && f == e
    } else {
        &&& r == Some((p.run + 1) as u64)
        &&& q == (Player { playing: true, run: (p.run + 1) as u64, ..p })
        &&& f == e.sought(0)
    }
}

/// The clock of run `run` ticked, `dt` after its last tick.
pub open spec fn ticks_on(p: Player, e: EditorView, run: u64, dt: Time, q: Player, f: EditorView, r: Tick) -> bool {
    let t = e.playhead + lower(dt as int, LONG_STEP as int);
    let range = e.play_range();
    if !p.playing || p.run != run {
        r is Gone && q == p && f == e
    } else if t < range.1 {
        r is On && q == p && f == e.sought(t)
    } else if p.looping {
        &&& r == Tick::Again(range.0 as Time)
        &&& q == p
        &&& f == e.sought(range.0)
    } else {
        &&& r is End
        &&& q == (Player { playing: false, ..p })
        &&& f == e.sought(range.1)
    }
}

impl Player {
    /// A player at rest.
    pub fn new() -> (r: Self)
        ensures
            r == (Player { playing: false, run: 0, looping: false }),
    {
        Player { playing: false, run: 0, looping: false }
    }

    /// Start playing where the playhead is; not without a clip. The run that the
    /// clock has to carry on is returned.
    pub fn start_play(&mut self, ed: &Editor) -> (r: Option<u64>)
        requires
            old(self).run < u64::MAX,
        ensures
            starts_play(*old(self), ed@, *final(self), r),
    {
        if ed.reel.clips.len() == 0 {
            return None;
        }
        self.run = self.run + 1;
        self.playing = true;
        Some(self.run)
    }

    /// Play or pause. At the end of the range, play from its start.
    pub fn toggle_play(&mut self, ed: &mut Editor) -> (r: Option<u64>)
        requires
            old(ed)@.wf(),
            old(self).run < u64::MAX,
        ensures
            final(ed)@.wf(),
            toggles_play(*old(self), old(ed)@, *final(self), final(ed)@, r),
    {
        if self.playing {
            self.playing = false;
            return None;
        }
        if ed.reel.clips.len() == 0 {
            return None;
        }
        let (s, e) = ed.play_range();
        if ed.playhead >= e - SHORT_RANGE {
            ed.seek_to(s);
        }
        self.start_play(ed)
    }

    /// Play from the start of the reel.
    pub fn play_from_start(&mut self, ed: &mut Editor) -> (r: Option<u64>)
        requires
            old(ed)@.wf(),
            old(self).run < u64::MAX,
        ensures
            final(ed)@.wf(),
            plays_from_start(*old(self), old(ed)@, *final(self), final(ed)@, r),
    {
        if ed.reel.clips.len() == 0 {
            return None;
        }
        self.playing = false;
        ed.seek_to(0);
        self.start_play(ed)
    }

    /// Loop, or stop at the end.
    pub fn toggle_loop(&mut self, ed: &mut Editor)
        requires
            old(ed)@.wf(),
        ensures
            *final(self) == (Player { looping: !old(self).looping, ..*old(self) }),
            final(ed)@ == old(ed)@.says(
                if old(self).looping {
                    "Loop playback off."@
                } else {
                    "Loop playback on — the reel restarts at the end."@
                },
            ),
            final(ed)@.wf(),
    {
        self.looping = !self.looping;
        ed.status = if self.looping {
            "Loop playback on — the reel restarts at the end.".to_owned()
        } else {
            "Loop playback off.".to_owned()
        };
    }

    /// The clock of run `run` ticked, `dt` after its last tick.
    pub fn tick(&mut self, ed: &mut Editor, run: u64, dt: Time) -> (r: Tick)
        requires
            old(ed)@.wf(),
            0 <= dt,
        ensures
            final(ed)@.wf(),
            ticks_on(*old(self), old(ed)@, run, dt, *final(self), final(ed)@, r),
    {
        if !self.playing || self.run != run {
            return Tick::Gone;
        }
        let t: Time = ed.playhead + lesser(dt, LONG_STEP);
        let (s, e) = ed.play_range();
        if t >= e {
            if self.looping {
                ed.seek_to(s);
                return Tick::Again(s);
            }
            ed.seek_to(e);
            self.playing = false;
            return Tick::End;
        }
        ed.seek_to(t);
        Tick::On
    }
}

impl Editor {
    /// What playback runs over.
    pub fn play_range(&self) -> (r: (Time, Time))
        requires
            self@.wf(),
        ensures
            self@.play_range() == (r.0 as int, r.1 as int),
            0 <= r.0 <= r.1 < AXIS_END,
    {
        let n: usize = self.reel.clips.len();
        proof {
            law_play_range(self@);
        }
        let end: Time = total_of(&self.reel.clips);
        let s: Time = hold_between(
            match self.mark_in {
                Some(t) => t,
                None => 0,
            },
            0,
            end,
        );
        let e: Time = hold_between(
            match self.mark_out {
                Some(t) => t,
                None => end,
            },
            0,
            end,
        );
        if e > s + SHORT_RANGE { (s, e) } else { (0, end) }
    }

    /// Mark an end of the range at the playhead.
    pub fn set_mark(&mut self, out: bool)
        requires
            old(self)@.wf(),
        ensures
            final(self)@ == old(self)@.range_marked(out),
            final(self)@.wf(),
    {
        if out {
            self.mark_out = Some(self.playhead);
        } else {
            self.mark_in = Some(self.playhead);
        }
        let (s, e) = self.play_range();
        self.status = range_report(out, s, e);
    }

    /// Clear the range.
    pub fn clear_marks(&mut self)
        requires
            old(self)@.wf(),
        ensures
            final(self)@ == old(self)@.range_cleared(),
            final(self)@.wf(),
    {
        if self.mark_in.is_none() && self.mark_out.is_none() {
            return;
        }
        self.mark_in = None;
        self.mark_out = None;
        self.status = "In/out points cleared — playback covers the whole reel.".to_owned();
    }
}

/// Law: while it plays, each tick moves the playhead on by the time that passed, half a
/// second at most, and never past the end of the range; there playing stops, or starts
/// over where it loops. A tick of an earlier run, or while it is paused, does nothing.
/// The reel never changes.
pub proof fn law_playing(p: Player, e: EditorView, run: u64, dt: Time, q: Player, f: EditorView, r: Tick)
    requires
        ticks_on(p, e, run, dt, q, f, r),
        e.wf(),
        e.reel.clips.len() <= usize::MAX,
        0 <= dt,
    ensures
        f.reel == e.reel && f.undo == e.undo,
        q.run == p.run && q.looping == p.looping,
        !p.playing || p.run != run ==> f == e && q == p && r is Gone,
        p.playing && p.run == run ==> {
            let (from, to) = e.play_range();
            let step = if 2 * dt <= crate::time::SECOND { dt as int } else { crate::time::SECOND as int / 2 };
            &&& e.playhead + step < to ==> f.playhead - e.playhead == step && q.playing && r is On
            &&& e.playhead + step >= to && p.looping ==> f.playhead == from && q.playing && r is Again
            &&& e.playhead + step >= to && !p.looping ==> f.playhead == to && !q.playing && r is End
            &&& f.playhead <= to
        },
{
    law_play_range(e);
    crate::track::lemma_start_axis(e.reel.clips, e.reel.clips.len() as int);
}

/// Law: the play button pauses what plays and plays what is paused; near the end of the
/// range it starts over. Each start is a new run, so that the ticks of an old one are
/// told apart. Without a clip nothing plays.
pub proof fn law_play_button(p: Player, e: EditorView, q: Player, f: EditorView, r: Option<u64>)
    requires
        e.wf(),
        e.reel.clips.len() <= usize::MAX,
        p.run < u64::MAX,
    ensures
        toggles_play(p, e, q, f, r) ==> {
            &&& f.reel == e.reel
            &&& q.looping == p.looping
            &&& e.reel.clips.len() > 0 ==> q.playing != p.playing
            &&& e.reel.clips.len() == 0 && !p.playing ==> q == p && r is None
            &&& p.playing ==> f == e && q.run == p.run && r is None
            &&& !p.playing && e.reel.clips.len() > 0 ==> q.run == p.run + 1 && r == Some(q.run)
            &&& !p.playing && e.reel.clips.len() > 0 && 20 * (e.play_range().1 - e.playhead) > crate::time::SECOND
                ==> f.playhead == e.playhead
            &&& !p.playing && e.reel.clips.len() > 0 && 20 * (e.play_range().1 - e.playhead) <= crate::time::SECOND
                ==> f.playhead == e.play_range().0
        },
        plays_from_start(p, e, q, f, r) ==> {
            &&& f.reel == e.reel
            &&& e.reel.clips.len() > 0 ==> q.playing && f.playhead == 0 && q.run == p.run + 1 && r == Some(q.run)
            &&& e.reel.clips.len() == 0 ==> q == p && r is None && f == e
        },
        starts_play(p, e, q, r) ==> {
            &&& e.reel.clips.len() > 0 ==> q.playing && q.run == p.run + 1 && r == Some(q.run)
            &&& e.reel.clips.len() == 0 ==> q == p && r is None
        },
{
    law_play_range(e);
    crate::track::lemma_start_axis(e.reel.clips, e.reel.clips.len() as int);
}

/// Law: a mark goes to the playhead and leaves the other; playback runs from the in to
/// the out mark where they lie on the reel and that is more than a twentieth of a
/// second, and else over the whole reel.
pub proof fn law_marks(e: EditorView, out: bool)
    requires
        e.wf(),
        e.reel.clips.len() <= usize::MAX,
    ensures
        ({
            let f = e.range_marked(out);
            &&& f == (EditorView { mark_in: f.mark_in, mark_out: f.mark_out, status: f.status, ..e })
            &&& out ==> f.mark_out == Some(e.playhead) && f.mark_in == e.mark_in
            &&& !out ==> f.mark_in == Some(e.playhead) && f.mark_out == e.mark_out
            &&& e.range_cleared().mark_in is None && e.range_cleared().mark_out is None
            &&& e.range_cleared().reel == e.reel
        }),
        ({
            let end = total(e.reel.clips);
            &&& e.mark_in is None && e.mark_out is None ==> e.play_range() == (0int, end)
            &&& e.mark_in matches Some(a) ==> e.mark_out matches Some(b) ==> 0 <= a && b <= end && 20 * (b - a)
                > crate::time::SECOND ==> e.play_range() == (a as int, b as int)
            &&& e.mark_in matches Some(a) ==> e.mark_out is None && 0 <= a && 20 * (end - a) > crate::time::SECOND
                ==> e.play_range() == (a as int, end)
            &&& e.mark_out matches Some(b) ==> e.mark_in is None && b <= end && 20 * b > crate::time::SECOND
                ==> e.play_range() == (0int, b as int)
            &&& e.mark_in matches Some(a) ==> e.mark_out matches Some(b) ==> 20 * (b - a) <= crate::time::SECOND
                ==> e.play_range() == (0int, end)
        }),
{
    crate::track::lemma_start_axis(e.reel.clips, e.reel.clips.len() as int);
}

} // verus!
