//! Cutting silence: each clip that was listened to becomes its loud pieces, and
//! what rides on the track follows the first piece of its clip.

use crate::cuts::Poster;
use crate::edges::apart;
use crate::editor::{Editor, EditorView};
use crate::model::{sound, Clip, Sel};
use crate::paths::{is_still, media_kind};
use crate::text::{cat3, cat4, cat5, decimal, digits, join, joined, texts};
use crate::time::{clock_text, fmt_t, greater, in_source, lesser, lower, on_axis, upper, Time, AXIS_END};
use crate::track::{rate, run_time, spans, total, total_of, LONGEST_RUN};
use crate::trims::starts_by;
use vstd::prelude::*;

verus! {

/// The loud ranges of each clip; none for a clip that was not listened to.
pub type Loud = Vec<Option<Vec<(Time, Time)>>>;

/// A millisecond: a kept range this close to the whole clip is the whole clip.
pub const WHOLE: Time = 3_000;

/// The loud ranges of clip `k`.
pub open spec fn loud_at(loud: Seq<Option<Vec<(Time, Time)>>>, k: int) -> Option<Seq<(Time, Time)>> {
    if 0 <= k < loud.len() {
        match loud[k] {
            Some(v) => Some(v@),
            None => None,
        }
    } else {
        None
    }
}

/// What becomes of a clip.
#[verifier::ext_equal]
pub enum Fate {
    /// It stays as it is.
    Stays,
    /// It goes.
    Goes,
    /// It is cut into these ranges of its source.
    Cut(Seq<(Time, Time)>),
}

pub open spec fn fate(c: Clip, keeps: Option<Seq<(Time, Time)>>) -> Fate {
    match keeps {
        None => Fate::Stays,
        Some(k) => if k.len() == 0 {
            Fate::Goes
        } else if k.len() == 1 && apart(k[0].0 as int, c.in_s as int) < WHOLE && apart(
            k[0].1 as int,
            c.out_s as int,
        ) < WHOLE {
            Fate::Stays
        } else {
            Fate::Cut(k)
        },
    }
}

/// How many pieces come of a clip.
pub open spec fn pieces(f: Fate) -> int {
    match f {
        Fate::Stays => 1,
        Fate::Goes => 0,
        Fate::Cut(k) => k.len() as int,
    }
}

/// How many pieces come of the first `n` clips.
pub open spec fn pieces_before(clips: Seq<Clip>, loud: Seq<Option<Vec<(Time, Time)>>>, n: int) -> int
    decreases n,
{
    if n <= 0 {
        0
    } else {
        pieces_before(clips, loud, n - 1) + pieces(fate(clips[n - 1], loud_at(loud, n - 1)))
    }
}

/// Piece `j` of a clip: the first keeps the way into it, the others start with a
/// hard cut and need a poster of their own.
pub open spec fn is_piece(x: Clip, c: Clip, f: Fate, j: int) -> bool {
    match f {
        Fate::Stays => x == c,
        Fate::Goes => false,
        Fate::Cut(k) => if j == 0 {
            x == (Clip { in_s: k[j].0, out_s: k[j].1, ..c })
        } else {
            &&& x.thumb@.len() == 0
            &&& x == (Clip {
                in_s: k[j].0,
                out_s: k[j].1,
                transition: None,
                trans_dur: 1_500_000,
                thumb: x.thumb,
                ..c
            })
        },
    }
}

/// The new track holds the pieces of the first `n` clips, in order.
pub open spec fn is_cut(
    clips: Seq<Clip>,
    loud: Seq<Option<Vec<(Time, Time)>>>,
    n: int,
    new: Seq<Clip>,
) -> bool {
    &&& new.len() == pieces_before(clips, loud, n)
    &&& forall|k: int, j: int|
        0 <= k < n && 0 <= j < pieces(fate(clips[k], loud_at(loud, k))) ==> #[trigger] is_piece(
            new[pieces_before(clips, loud, k) + j],
            clips[k],
            fate(clips[k], loud_at(loud, k)),
            j,
        )
}

/// The place of the first piece of each of the first `n` clips.
pub open spec fn first_pieces(clips: Seq<Clip>, loud: Seq<Option<Vec<(Time, Time)>>>, n: int) -> Seq<
    Option<usize>,
> {
    Seq::new(
        n as nat,
        |k: int|
            if pieces(fate(clips[k], loud_at(loud, k))) > 0 {
                Some(pieces_before(clips, loud, k) as usize)
            } else {
                None
            },
    )
}

/// The length of the ranges, together.
pub open spec fn loud_length(k: Seq<(Time, Time)>, n: int) -> int
    decreases n,
{
    if n <= 0 { 0 } else { loud_length(k, n - 1) + (k[n - 1].1 - k[n - 1].0) }
}

/// How much reel time a clip loses.
pub open spec fn lost(c: Clip, f: Fate) -> int {
    match f {
        Fate::Stays => 0,
        Fate::Goes => run_time(c),
        Fate::Cut(k) => upper(
            (c.out_s - c.in_s) - loud_length(k, k.len() as int),
            0,
        ) * 1000 / rate(c.speed),
    }
}

/// How many cuts the report counts for a clip: one for a clip that goes, and one
/// for each piece of one that is cut.
pub open spec fn counted_cuts(f: Fate) -> int {
    match f {
        Fate::Stays => 0,
        Fate::Goes => 1,
        Fate::Cut(k) => k.len() as int,
    }
}

pub open spec fn lost_before(clips: Seq<Clip>, loud: Seq<Option<Vec<(Time, Time)>>>, n: int) -> int
    decreases n,
{
    if n <= 0 { 0 } else { lost_before(clips, loud, n - 1) + lost(clips[n - 1], fate(clips[n - 1], loud_at(loud, n - 1))) }
}

pub open spec fn cuts_before(clips: Seq<Clip>, loud: Seq<Option<Vec<(Time, Time)>>>, n: int) -> int
    decreases n,
{
    if n <= 0 {
        0
    } else {
        cuts_before(clips, loud, n - 1) + counted_cuts(fate(clips[n - 1], loud_at(loud, n - 1)))
    }
}

/// What the report says.
pub open spec fn autocut_text(cuts: int, lost: int, errors: Seq<Seq<char>>) -> Seq<char> {
    let msg = if cuts == 0 {
        "Auto-cut: nothing quiet enough to remove."@
    } else {
        "Auto-cut: "@ + digits(cuts as nat) + " piece(s), removed ~"@ + clock_text(lost) + " of silence."@
    };
    if errors.len() == 0 { msg } else { msg + " Skipped: "@ + joined(errors, "; "@) + "."@ }
}

impl EditorView {
    /// After the track was cut into `new`.
    pub open spec fn autocut(
        self,
        loud: Seq<Option<Vec<(Time, Time)>>>,
        errors: Seq<Seq<char>>,
        new: Seq<Clip>,
    ) -> EditorView {
        let clips = self.reel.clips;
        let n = clips.len() as int;
        let e = EditorView { marked: Seq::empty(), ..self.pushed(""@) }.reclipped(
            new,
            starts_by(new, first_pieces(clips, loud, n)),
        ).selects(None);
        e.sought(lower(self.playhead as int, total(new))).says(
            autocut_text(cuts_before(clips, loud, n), lost_before(clips, loud, n), errors),
        )
    }
}

/// Whether every range runs forward in a source.
pub open spec fn ranges_ok(loud: Seq<Option<Vec<(Time, Time)>>>) -> bool {
    forall|k: int| 0 <= k < loud.len() ==> (#[trigger] loud[k] matches Some(v) ==> ranges_in_source(v@))
}

pub open spec fn ranges_in_source(k: Seq<(Time, Time)>) -> bool {
    forall|j: int| 0 <= j < k.len() ==> in_source((#[trigger] k[j]).0) && in_source(k[j].1) && k[j].0 <= k[j].1
}

/// Law: a clip that was not listened to, and one that is loud from end to end,
/// comes through unchanged.
pub proof fn law_loud_clips_stay(
    clips: Seq<Clip>,
    loud: Seq<Option<Vec<(Time, Time)>>>,
    new: Seq<Clip>,
    k: int,
)
    requires
        0 <= k < clips.len(),
        is_cut(clips, loud, clips.len() as int, new),
        loud_at(loud, k) is None || loud_at(loud, k) == Some(seq![(clips[k].in_s, clips[k].out_s)]),
    ensures
        new[pieces_before(clips, loud, k)] == clips[k],
{
    let f = fate(clips[k], loud_at(loud, k));
    assert(f is Stays);
    assert(is_piece(new[pieces_before(clips, loud, k) + 0], clips[k], f, 0));
}

/// Law: every piece plays a range that was loud, from the source it came from.
pub proof fn law_pieces_are_loud(
    clips: Seq<Clip>,
    loud: Seq<Option<Vec<(Time, Time)>>>,
    new: Seq<Clip>,
    k: int,
    j: int,
)
    requires
        0 <= k < clips.len(),
        is_cut(clips, loud, clips.len() as int, new),
        fate(clips[k], loud_at(loud, k)) is Cut,
        0 <= j < loud_at(loud, k)->0.len(),
    ensures
        new[pieces_before(clips, loud, k) + j].path == clips[k].path,
        new[pieces_before(clips, loud, k) + j].in_s == loud_at(loud, k)->0[j].0,
        new[pieces_before(clips, loud, k) + j].out_s == loud_at(loud, k)->0[j].1,
        new[pieces_before(clips, loud, k) + j].speed == clips[k].speed,
{
    assert(is_piece(
        new[pieces_before(clips, loud, k) + j],
        clips[k],
        fate(clips[k], loud_at(loud, k)),
        j,
    ));
}

proof fn lemma_pieces_fit(clips: Seq<Clip>, loud: Seq<Option<Vec<(Time, Time)>>>, k: int, n: int)
    requires
        0 <= k < n,
    ensures
        0 <= pieces_before(clips, loud, k),
        pieces_before(clips, loud, k) + pieces(fate(clips[k], loud_at(loud, k))) <= pieces_before(clips, loud, n),
    decreases n,
{
    if k == n - 1 {
        lemma_pieces_nonneg(clips, loud, k);
    } else {
        lemma_pieces_fit(clips, loud, k, n - 1);
    }
}

proof fn lemma_pieces_nonneg(clips: Seq<Clip>, loud: Seq<Option<Vec<(Time, Time)>>>, n: int)
    ensures
        0 <= pieces_before(clips, loud, n),
    decreases n,
{
    if n > 0 {
        lemma_pieces_nonneg(clips, loud, n - 1);
    }
}

/// One more clip on a cut track.
proof fn lemma_cut_step(
    clips: Seq<Clip>,
    loud: Seq<Option<Vec<(Time, Time)>>>,
    n: int,
    before: Seq<Clip>,
    after: Seq<Clip>,
)
    requires
        0 <= n < clips.len(),
        is_cut(clips, loud, n, before),
        after.len() == before.len() + pieces(fate(clips[n], loud_at(loud, n))),
        forall|i: int| 0 <= i < before.len() ==> after[i] == before[i],
        forall|j: int|
            0 <= j < pieces(fate(clips[n], loud_at(loud, n))) ==> #[trigger] is_piece(
                after[before.len() + j],
                clips[n],
                fate(clips[n], loud_at(loud, n)),
                j,
            ),
    ensures
        is_cut(clips, loud, n + 1, after),
{
    assert forall|k: int, j: int|
        0 <= k < n + 1 && 0 <= j < pieces(fate(clips[k], loud_at(loud, k))) implies #[trigger] is_piece(
        after[pieces_before(clips, loud, k) + j],
        clips[k],
        fate(clips[k], loud_at(loud, k)),
        j,
    ) by {
        if k < n {
            lemma_pieces_fit(clips, loud, k, n);
            assert(is_piece(
                before[pieces_before(clips, loud, k) + j],
                clips[k],
                fate(clips[k], loud_at(loud, k)),
                j,
            ));
        } else {
            assert(is_piece(after[before.len() + j], clips[n], fate(clips[n], loud_at(loud, n)), j));
        }
    }
}

impl Clip {
    fn piece(&self, from: Time, to: Time, first: bool) -> (x: Clip)
        requires
            self.wf(),
            in_source(from),
            in_source(to),
        ensures
            x.wf(),
            x == (if first {
                Clip { in_s: from, out_s: to, ..*self }
            } else {
                Clip {
                    in_s: from,
                    out_s: to,
                    transition: None,
                    trans_dur: 1_500_000,
                    thumb: x.thumb,
                    ..*self
                }
            }),
            !first ==> x.thumb@.len() == 0,
    {
        let mut x: Clip = self.clone();
        x.in_s = from;
        x.out_s = to;
        if !first {
            proof {
                reveal_strlit("");
            }
            x.transition = None;
            x.trans_dur = 1_500_000;
            x.thumb = "".to_owned();
        }
        x
    }
}

/// Put the pieces of a clip on the new track.
fn cut_clip(new: &mut Vec<Clip>, c: &Clip, keeps: &Vec<(Time, Time)>)
    requires
        sound(old(new)@),
        c.wf(),
        ranges_in_source(keeps@),
    ensures
        sound(final(new)@),
        final(new)@.len() == old(new)@.len() + keeps@.len(),
        forall|i: int| 0 <= i < old(new)@.len() ==> final(new)@[i] == old(new)@[i],
        forall|j: int|
            0 <= j < keeps@.len() ==> #[trigger] is_piece(
                final(new)@[old(new)@.len() + j],
                *c,
                Fate::Cut(keeps@),
                j,
            ),
{
    let ghost was = new@;
    let mut j: usize = 0;
    while j < keeps.len()
        invariant
            j <= keeps@.len(),
            c.wf(),
            ranges_in_source(keeps@),
            sound(new@),
            new@.len() == was.len() + j,
            forall|i: int| 0 <= i < was.len() ==> new@[i] == was[i],
            forall|h: int|
                0 <= h < j ==> #[trigger] is_piece(new@[was.len() + h], *c, Fate::Cut(keeps@), h),
        decreases keeps@.len() - j,
    {
        let ghost before = new@;
        assert(in_source(keeps@[j as int].0));
        let x: Clip = c.piece(keeps[j].0, keeps[j].1, j == 0);
        proof {
            crate::model::lemma_sound(new@, 0, x);
        }
        new.push(x);
        assert forall|h: int| 0 <= h < j + 1 implies #[trigger] is_piece(
            new@[was.len() + h],
            *c,
            Fate::Cut(keeps@),
            h,
        ) by {
            if h < j {
                assert(is_piece(before[was.len() + h], *c, Fate::Cut(keeps@), h));
            }
        }
        j += 1;
    }
}

/// How much reel time the cut of a clip loses.
fn cut_loss(c: &Clip, keeps: &Vec<(Time, Time)>) -> (r: Time)
    requires
        c.wf(),
        ranges_in_source(keeps@),
    ensures
        r == lost(*c, Fate::Cut(keeps@)),
        0 <= r <= LONGEST_RUN,
{
    let mut sum: Time = 0;
    let mut j: usize = 0;
    while j < keeps.len()
        invariant
            j <= keeps@.len(),
            ranges_in_source(keeps@),
            sum == loud_length(keeps@, j as int),
            0 <= sum <= j * crate::time::SRC_MAX,
        decreases keeps@.len() - j,
    {
        assert(in_source(keeps@[j as int].0));
        assert(j * crate::time::SRC_MAX + crate::time::SRC_MAX == (j + 1) * crate::time::SRC_MAX)
            by (nonlinear_arith);
        assert(j * crate::time::SRC_MAX <= 0xffff_ffff_ffff_ffff * crate::time::SRC_MAX) by (nonlinear_arith)
            requires
                0 <= j <= 0xffff_ffff_ffff_ffff,
        ;
        sum = sum + (keeps[j].1 - keeps[j].0);
        j += 1;
    }
    let n: usize = keeps.len();
    assert(j * crate::time::SRC_MAX <= 0xffff_ffff_ffff_ffff * crate::time::SRC_MAX) by (nonlinear_arith)
        requires
            0 <= j <= 0xffff_ffff_ffff_ffff,
    ;
    let gone: Time = greater((c.out_s - c.in_s) - sum, 0);
    let v: Time = greater(c.speed as Time, 10);
    assert(0 <= gone * 1000 / (v as int) <= gone * 100) by (nonlinear_arith)
        requires
            gone >= 0,
            v >= 10,
    ;
    gone * 1000 / v
}

/// What cutting the silence came to.
struct CutTrack {
    clips: Vec<Clip>,
    first: Vec<Option<usize>>,
    cuts: u128,
    lost: Time,
}

fn cut_track(clips: &Vec<Clip>, loud: &Loud) -> (r: CutTrack)
    requires
        sound(clips@),
        ranges_ok(loud@),
    ensures
        is_cut(clips@, loud@, clips@.len() as int, r.clips@),
        sound(r.clips@),
        r.first@ == first_pieces(clips@, loud@, clips@.len() as int),
        forall|k: int| 0 <= k < r.first@.len() ==> (#[trigger] r.first@[k] matches Some(m) ==> m <= r.clips@.len()),
        r.cuts == cuts_before(clips@, loud@, clips@.len() as int),
        r.lost == lost_before(clips@, loud@, clips@.len() as int),
        0 <= r.lost < AXIS_END,
{
    let n: usize = clips.len();
    let mut new: Vec<Clip> = Vec::new();
    let mut first: Vec<Option<usize>> = Vec::new();
    let mut cuts: u128 = 0;
    let mut sum: Time = 0;
    let mut i: usize = 0;
    proof {
        reveal(sound);
        assert(is_cut(clips@, loud@, 0, new@));
        assert(first@ =~= first_pieces(clips@, loud@, 0));
    }
    while i < n
        invariant
            i <= n,
            n == clips@.len(),
            sound(clips@),
            ranges_ok(loud@),
            sound(new@),
            is_cut(clips@, loud@, i as int, new@),
            first@ == first_pieces(clips@, loud@, i as int),
            forall|k: int| 0 <= k < i ==> (#[trigger] first@[k] matches Some(m) ==> m <= new@.len()),
            cuts == cuts_before(clips@, loud@, i as int),
            cuts <= new@.len() + i,
            sum == lost_before(clips@, loud@, i as int),
            0 <= sum <= i * LONGEST_RUN,
        decreases n - i,
    {
        let ghost before = new@;
        let at: usize = new.len();
        let ghost f = fate(clips@[i as int], loud_at(loud@, i as int));
        proof {
            crate::model::lemma_sound_at(clips@, i as int);
            crate::track::lemma_run(clips@[i as int].in_s, clips@[i as int].out_s, clips@[i as int].speed);
            assert(i * LONGEST_RUN + LONGEST_RUN == (i + 1) * LONGEST_RUN) by (nonlinear_arith);
            assert(i * LONGEST_RUN <= 0xffff_ffff_ffff_ffff * LONGEST_RUN) by (nonlinear_arith)
                requires
                    0 <= i <= 0xffff_ffff_ffff_ffff,
            ;
        }
        let stays: bool;
        if i >= loud.len() {
            stays = true;
        } else {
            match &loud[i] {
                None => {
                    stays = true;
                },
                Some(keeps) => {
                    assert(loud@[i as int] matches Some(v) && ranges_in_source(v@));
                    assert(loud_at(loud@, i as int) == Some(keeps@));
                    if keeps.len() == 0 {
                        stays = false;
                        sum = sum + clips[i].trimmed();
                        cuts = cuts + 1;
                    } else if keeps.len() == 1 && is_whole(&clips[i], keeps[0]) {
                        stays = true;
                    } else {
                        stays = false;
                        sum = sum + cut_loss(&clips[i], keeps);
                        cuts = cuts + keeps.len() as u128;
                        cut_clip(&mut new, &clips[i], keeps);
                    }
                },
            }
        }
        if stays {
            assert(f is Stays);
            proof {
                crate::model::lemma_sound(new@, 0, clips@[i as int]);
            }
            new.push(clips[i].clone());
        }
        first.push(if new.len() > at { Some(at) } else { None });
        proof {
            lemma_cut_step(clips@, loud@, i as int, before, new@);
            assert(first@ =~= first_pieces(clips@, loud@, i + 1));
        }
        i += 1;
    }
    proof {
        assert(i * LONGEST_RUN <= 0xffff_ffff_ffff_ffff * LONGEST_RUN) by (nonlinear_arith)
            requires
                0 <= i <= 0xffff_ffff_ffff_ffff,
        ;
    }
    CutTrack { clips: new, first, cuts, lost: sum }
}

/// Whether a kept range is the whole clip.
fn is_whole(c: &Clip, k: (Time, Time)) -> (r: bool)
    requires
        c.wf(),
        in_source(k.0),
        in_source(k.1),
    ensures
        r == (apart(k.0 as int, c.in_s as int) < WHOLE && apart(k.1 as int, c.out_s as int) < WHOLE),
{
    let a: Time = if k.0 >= c.in_s { k.0 - c.in_s } else { c.in_s - k.0 };
    let b: Time = if k.1 >= c.out_s { k.1 - c.out_s } else { c.out_s - k.1 };
    a < WHOLE && b < WHOLE
}

fn autocut_report(cuts: u128, lost: Time, errors: &Vec<String>) -> (r: String)
    requires
        on_axis(lost),
    ensures
        r@ == autocut_text(cuts as int, lost as int, texts(errors@)),
{
    let msg: String = if cuts == 0 {
        "Auto-cut: nothing quiet enough to remove.".to_owned()
    } else {
        cat5("Auto-cut: ", decimal(cuts).as_str(), " piece(s), removed ~", fmt_t(lost).as_str(), " of silence.")
    };
    if errors.len() == 0 {
        msg
    } else {
        cat4(msg.as_str(), " Skipped: ", join(errors, "; ").as_str(), ".")
    }
}

/// The clips that auto-cut listens to: the selected one, or every one with sound
/// of its own that is no photo.
pub open spec fn listens_to(e: EditorView, sel_only: bool, i: int) -> bool {
    if sel_only {
        e.selected == Some(Sel::Main(i as usize)) && e.reel.clips[i].has_audio
    } else {
        e.reel.clips[i].has_audio && !(media_kind(e.reel.clips[i].path@) is Still)
    }
}

/// The places of those of the first `n` clips that auto-cut listens to.
pub open spec fn targets(e: EditorView, sel_only: bool, n: int) -> Seq<usize>
    decreases n,
{
    if n <= 0 {
        Seq::empty()
    } else if listens_to(e, sel_only, n - 1) {
        targets(e, sel_only, n - 1).push((n - 1) as usize)
    } else {
        targets(e, sel_only, n - 1)
    }
}

/// What auto-cut says when it starts, or why it does not.
pub open spec fn listening_text(sel_only: bool, found: Seq<usize>) -> Seq<char> {
    if found.len() > 0 {
        "Detecting silence on "@ + digits(found.len()) + " clip(s)…"@
    } else if sel_only {
        "Select a V1 clip with audio, or turn off “selection only” to cut every clip."@
    } else {
        "No clips with audio to auto-cut."@
    }
}

impl Editor {
    /// Find the clips to listen to for silence, and say so. On an empty track
    /// there is nothing to say.
    pub fn autocut_targets(&mut self, sel_only: bool) -> (r: Vec<usize>)
        requires
            old(self)@.wf(),
        ensures
            r@ == targets(old(self)@, sel_only, old(self)@.reel.clips.len() as int),
            final(self)@ == if old(self)@.reel.clips.len() == 0 {
                old(self)@
            } else {
                old(self)@.says(listening_text(sel_only, r@))
            },
            final(self)@.wf(),
    {
        let n: usize = self.reel.clips.len();
        let mut r: Vec<usize> = Vec::new();
        let mut i: usize = 0;
        while i < n
            invariant
                i <= n,
                n == self.reel.clips@.len(),
                *self == *old(self),
                r@ == targets(self@, sel_only, i as int),
            decreases n - i,
        {
            let hit: bool = if sel_only {
                self.selected == Some(Sel::Main(i)) && self.reel.clips[i].has_audio
            } else {
                self.reel.clips[i].has_audio && !is_still(self.reel.clips[i].path.as_str())
            };
            if hit {
                r.push(i);
            }
            i += 1;
        }
        if n == 0 {
            return r;
        }
        self.status = if r.len() > 0 {
            cat3("Detecting silence on ", decimal(r.len() as u128).as_str(), " clip(s)…")
        } else if sel_only {
            "Select a V1 clip with audio, or turn off “selection only” to cut every clip.".to_owned()
        } else {
            "No clips with audio to auto-cut.".to_owned()
        };
        r
    }

    fn take_track(&mut self, t: CutTrack, Ghost(to): Ghost<Seq<Option<usize>>>)
        requires
            old(self)@.wf(),
            sound(t.clips@),
            t.first@ == to,
            t.first@.len() == old(self)@.reel.clips.len(),
            forall|k: int| 0 <= k < t.first@.len() ==> (#[trigger] t.first@[k] matches Some(m) ==> m <= t.clips@.len()),
        ensures
            final(self)@ == old(self)@.reclipped(t.clips@, starts_by(t.clips@, to)).selects(None).sought(
                lower(old(self)@.playhead as int, total(t.clips@)),
            ),
            final(self)@.wf(),
    {
        let ghost was = self@;
        let n: usize = self.reel.clips.len();
        let old_spans: Vec<(Time, Time)> = spans(&self.reel.clips);
        self.selected = None;
        self.reel.clips = t.clips;
        self.settle_by(&old_spans, &t.first, Ghost(was.reel.clips));
        let end: Time = total_of(&self.reel.clips);
        let at: Time = lesser(self.playhead, end);
        self.seek_to(at);
    }

    /// Cut the silence out of the track, given what is loud in each clip that was
    /// listened to. A cut that would leave nothing is not made.
    pub fn run_autocut(&mut self, loud: &Loud, errors: &Vec<String>)
        requires
            old(self)@.wf(),
            ranges_ok(loud@),
        ensures
            final(self)@.wf(),
            autocuts(old(self)@, loud@, texts(errors@), final(self)@),
    {
        let ghost was = self@;
        let t: CutTrack = cut_track(&self.reel.clips, loud);
        let ghost new = t.clips@;
        if t.clips.len() == 0 {
            self.status = "Auto-cut would remove everything — raise the threshold or lower min silence.".to_owned();
            return;
        }
        let text: String = autocut_report(t.cuts, t.lost, errors);
        self.push_undo("");
        self.marked.clear();
        self.take_track(t, Ghost(first_pieces(was.reel.clips, loud@, was.reel.clips.len() as int)));
        self.status = text;
        assert(is_cut(was.reel.clips, loud@, was.reel.clips.len() as int, new));
        assert(self@ == was.autocut(loud@, texts(errors@), new));
    }

    /// The posters that are missing.
    pub fn missing_posters(&self) -> (r: Vec<Poster>)
        ensures
            forall|k: int| 0 <= k < r@.len() ==> (#[trigger] r@[k]).index < self@.reel.clips.len()
                && crate::cuts::poster_of(self@.reel.clips, r@[k].index as int, r@[k])
                && self@.reel.clips[r@[k].index as int].thumb@.len() == 0,
            forall|i: int|
                0 <= i < self@.reel.clips.len() && (#[trigger] self@.reel.clips[i]).thumb@.len() == 0
                    ==> exists|k: int| 0 <= k < r@.len() && (#[trigger] r@[k]).index == i,
            forall|j: int, k: int| 0 <= j < k < r@.len() ==> (#[trigger] r@[j]).index < (#[trigger] r@[k]).index,
    {
        let mut r: Vec<Poster> = Vec::new();
        let mut i: usize = 0;
        while i < self.reel.clips.len()
            invariant
                i <= self.reel.clips@.len(),
                forall|k: int| 0 <= k < r@.len() ==> (#[trigger] r@[k]).index < i && crate::cuts::poster_of(
                    self@.reel.clips,
                    r@[k].index as int,
                    r@[k],
                ) && self@.reel.clips[r@[k].index as int].thumb@.len() == 0,
                forall|h: int|
                    0 <= h < i && (#[trigger] self@.reel.clips[h]).thumb@.len() == 0 ==> exists|k: int|
                        0 <= k < r@.len() && (#[trigger] r@[k]).index == h,
                forall|j: int, k: int|
                    0 <= j < k < r@.len() ==> (#[trigger] r@[j]).index < (#[trigger] r@[k]).index,
            decreases self.reel.clips@.len() - i,
        {
            if self.reel.clips[i].thumb.as_str().is_empty() {
                let ghost before = r@;
                r.push(self.reel.clips[i].poster(i));
                assert forall|h: int|
                    0 <= h < i + 1 && (#[trigger] self@.reel.clips[h]).thumb@.len() == 0 implies exists|k: int|
                    0 <= k < r@.len() && (#[trigger] r@[k]).index == h by {
                    if h < i {
                        let k = choose|k: int| 0 <= k < before.len() && (#[trigger] before[k]).index == h;
                        assert(r@[k].index == h);
                    } else {
                        assert(r@[before.len() as int].index == i);
                    }
                }
            }
            i += 1;
        }
        r
    }
}

/// How many loud ranges come before clip `k`, a clip that was not listened to counting
/// as one.
pub open spec fn ranges_before(loud: Seq<Option<Vec<(Time, Time)>>>, k: int) -> int
    decreases k,
{
    if k <= 0 {
        0
    } else {
        ranges_before(loud, k - 1) + match loud_at(loud, k - 1) {
            Some(v) => v.len() as int,
            None => 1,
        }
    }
}

proof fn lemma_ranges_before(clips: Seq<Clip>, loud: Seq<Option<Vec<(Time, Time)>>>, k: int)
    requires
        0 <= k <= clips.len(),
    ensures
        pieces_before(clips, loud, k) == ranges_before(loud, k),
    decreases k,
{
    if k > 0 {
        lemma_ranges_before(clips, loud, k - 1);
    }
}

/// Law: a clip that was listened to leaves exactly its loud ranges: as many pieces as
/// there are ranges, in their order, each starting and ending within a millisecond of
/// its range, and nothing else. Silence is never kept, whatever the ranges are.
pub proof fn law_only_the_loud_is_kept(
    clips: Seq<Clip>,
    loud: Seq<Option<Vec<(Time, Time)>>>,
    new: Seq<Clip>,
    k: int,
    j: int,
)
    requires
        is_cut(clips, loud, clips.len() as int, new),
        0 <= k < clips.len(),
        loud_at(loud, k) is Some,
        0 <= j < loud_at(loud, k)->0.len(),
    ensures
        new.len() == ranges_before(loud, clips.len() as int),
        0 <= ranges_before(loud, k) + j < new.len(),
        ({
            let x = new[ranges_before(loud, k) + j];
            let range = loud_at(loud, k)->0[j];
            &&& -3_000 < x.in_s - range.0 < 3_000
            &&& -3_000 < x.out_s - range.1 < 3_000
            &&& (x.path, x.name, x.duration, x.has_audio, x.look, x.framing) == (
                clips[k].path,
                clips[k].name,
                clips[k].duration,
                clips[k].has_audio,
                clips[k].look,
                clips[k].framing,
            )
            &&& (x.speed, x.reverse, x.volume, x.denoise, x.treat, x.group, x.enabled, x.solo) == (
                clips[k].speed,
                clips[k].reverse,
                clips[k].volume,
                clips[k].denoise,
                clips[k].treat,
                clips[k].group,
                clips[k].enabled,
                clips[k].solo,
            )
            &&& j > 0 ==> x.transition is None
            &&& j == 0 ==> x.transition == clips[k].transition
        }),
{
    let n = clips.len() as int;
    let f = fate(clips[k], loud_at(loud, k));
    lemma_ranges_before(clips, loud, n);
    lemma_ranges_before(clips, loud, k);
    lemma_pieces_fit(clips, loud, k, n);
    assert(pieces(f) == loud_at(loud, k)->0.len());
    assert(is_piece(new[pieces_before(clips, loud, k) + j], clips[k], f, j));
}

/// Law: a clip that was not listened to stays as it is, between the pieces of its
/// neighbours.
pub proof fn law_unheard_clips_stay(clips: Seq<Clip>, loud: Seq<Option<Vec<(Time, Time)>>>, new: Seq<Clip>, k: int)
    requires
        is_cut(clips, loud, clips.len() as int, new),
        0 <= k < clips.len(),
        loud_at(loud, k) is None,
    ensures
        0 <= ranges_before(loud, k) < new.len(),
        new[ranges_before(loud, k)] == clips[k],
{
    lemma_ranges_before(clips, loud, k);
    lemma_pieces_fit(clips, loud, k, clips.len() as int);
    assert(is_piece(new[pieces_before(clips, loud, k) + 0], clips[k], fate(clips[k], loud_at(loud, k)), 0));
}

/// Law: auto-cut can be undone, keeps nothing selected or marked, and leaves every
/// other lane with its items; only where they start may change, and not even that
/// where the magnet is off.
pub proof fn law_autocut_touches_the_main_track(
    e: EditorView,
    loud: Seq<Option<Vec<(Time, Time)>>>,
    errors: Seq<Seq<char>>,
    new: Seq<Clip>,
)
    requires
        sound(new),
        on_axis(e.playhead),
    ensures
        ({
            let f = e.autocut(loud, errors, new);
            &&& f.reel.clips == new
            &&& f.undo.len() > 0 && f.undo.last() == e.reel && f.redo.len() == 0
            &&& f.marked.len() == 0
            &&& !crate::editor::picture_phase(e.phase) ==> f.selected is None
            &&& f.playhead <= e.playhead
            &&& f.reel.overlays.len() == e.reel.overlays.len()
            &&& f.reel.audios.len() == e.reel.audios.len()
            &&& f.reel.titles.len() == e.reel.titles.len()
            &&& f.reel.adjustments == e.reel.adjustments
            &&& !e.magnet ==> f.reel.overlays == e.reel.overlays && f.reel.audios == e.reel.audios && f.reel.titles
                == e.reel.titles
        }),
{
    reveal(EditorView::pushed);
    reveal_strlit("");
    crate::track::lemma_start_bound(new, new.len() as int);
    crate::magnet::lemma_carried(
        crate::model::Reel { clips: new, ..e.reel },
        crate::track::spans_of(e.reel.clips),
        starts_by(new, first_pieces(e.reel.clips, loud, e.reel.clips.len() as int)),
    );
}

/// The track was cut to what is loud.
pub open spec fn autocuts(e: EditorView, loud: Seq<Option<Vec<(Time, Time)>>>, errors: Seq<Seq<char>>, f: EditorView) -> bool {
    let n = e.reel.clips.len() as int;
    if pieces_before(e.reel.clips, loud, n) == 0 {
        f == e.says("Auto-cut would remove everything — raise the threshold or lower min silence."@)
    } else {
        exists|new: Seq<Clip>| #[trigger] is_cut(e.reel.clips, loud, n, new) && f == e.autocut(loud, errors, new)
    }
}

/// Law: auto-cut leaves the loud ranges of the track, one piece for each, in order, and
/// the clips that were not listened to; where that would leave nothing it changes
/// nothing.
pub proof fn law_autocut_leaves_what_is_loud(
    e: EditorView,
    loud: Seq<Option<Vec<(Time, Time)>>>,
    errors: Seq<Seq<char>>,
    f: EditorView,
    k: int,
    j: int,
)
    requires
        autocuts(e, loud, errors, f),
        0 <= k < e.reel.clips.len(),
    ensures
        ranges_before(loud, e.reel.clips.len() as int) == 0 ==> f.reel == e.reel && f.undo == e.undo,
        ranges_before(loud, e.reel.clips.len() as int) > 0 ==> {
            let at = ranges_before(loud, k) + j;
            &&& f.reel.clips.len() == ranges_before(loud, e.reel.clips.len() as int)
            &&& f.undo.len() > 0 && f.undo.last() == e.reel && f.redo.len() == 0
            &&& loud_at(loud, k) is None ==> f.reel.clips[ranges_before(loud, k)] == e.reel.clips[k]
            &&& loud_at(loud, k) matches Some(v) ==> 0 <= j < v.len() ==> {
                let x = f.reel.clips[at];
                &&& 0 <= at < f.reel.clips.len()
                &&& x.path == e.reel.clips[k].path
                &&& -3_000 < x.in_s - v[j].0 < 3_000
                &&& -3_000 < x.out_s - v[j].1 < 3_000
            }
        },
{
    let n = e.reel.clips.len() as int;
    lemma_ranges_before(e.reel.clips, loud, n);
    if pieces_before(e.reel.clips, loud, n) != 0 {
        reveal(EditorView::pushed);
        reveal_strlit("");
        let new = choose|new: Seq<Clip>| #[trigger]
            is_cut(e.reel.clips, loud, n, new) && f == e.autocut(loud, errors, new);
        crate::magnet::lemma_carried(
            crate::model::Reel { clips: new, ..e.reel },
            crate::track::spans_of(e.reel.clips),
            starts_by(new, first_pieces(e.reel.clips, loud, n)),
        );
        if loud_at(loud, k) is None {
            law_unheard_clips_stay(e.reel.clips, loud, new, k);
        } else if 0 <= j < loud_at(loud, k)->0.len() {
            law_only_the_loud_is_kept(e.reel.clips, loud, new, k, j);
        }
    }
}

/// Law: what is reported as removed is what the clips lose: nothing of one that stays,
/// all of one that is silent, and of one that is cut what is not loud, as long as it
/// runs on the reel.
pub proof fn law_silence_is_counted(c: Clip, keeps: Option<Seq<(Time, Time)>>)
    requires
        c.wf(),
        c.in_s <= c.out_s,
        c.speed == 1000,
    ensures
        keeps is None ==> lost(c, fate(c, keeps)) == 0 && counted_cuts(fate(c, keeps)) == 0,
        keeps matches Some(k) ==> {
            let gone = lost(c, fate(c, keeps));
            &&& k.len() == 0 ==> gone == c.out_s - c.in_s && counted_cuts(fate(c, keeps)) == 1
            &&& k.len() > 1 ==> counted_cuts(fate(c, keeps)) == k.len()
            &&& k.len() > 1 && loud_length(k, k.len() as int) <= c.out_s - c.in_s ==> gone + loud_length(k, k.len() as int)
                == c.out_s - c.in_s
            &&& k.len() == 1 && k[0].0 >= c.in_s && k[0].1 <= c.out_s && k[0].0 <= k[0].1 ==> 0 <= (c.out_s - c.in_s) - (
            k[0].1 - k[0].0) - gone < 6_000
        },
{
    crate::cuts::lemma_unit_run(c.in_s, c.out_s);
    if let Some(k) = keeps {
        reveal_with_fuel(loud_length, 2);
        let gone = upper((c.out_s - c.in_s) - loud_length(k, k.len() as int), 0);
        assert(gone * 1000 / 1000 == gone);
    }
}

/// Law: with the magnet on, what stands on a clip goes with the clip's first piece; what
/// stood on a clip that is silent throughout stays where it is.
pub proof fn law_autocut_carries_riders(
    e: EditorView,
    loud: Seq<Option<Vec<(Time, Time)>>>,
    errors: Seq<Seq<char>>,
    new: Seq<Clip>,
    k: int,
)
    requires
        e.magnet,
        e.reel.wf(),
        crate::trims::reel_track(e.reel.clips),
        crate::trims::reel_track(new),
        is_cut(e.reel.clips, loud, e.reel.clips.len() as int, new),
        0 <= k < e.reel.clips.len(),
    ensures
        loud_at(loud, k) is None || loud_at(loud, k)->0.len() > 0 ==> crate::trims::rides_along(
            e,
            e.autocut(loud, errors, new),
            k,
            ranges_before(loud, k),
        ),
        loud_at(loud, k) is Some && loud_at(loud, k)->0.len() == 0 ==> crate::trims::rides_not(
            e,
            e.autocut(loud, errors, new),
            k,
        ),
{
    reveal(EditorView::pushed);
    let n = e.reel.clips.len() as int;
    lemma_ranges_before(e.reel.clips, loud, k);
    lemma_ranges_before(e.reel.clips, loud, n);
    lemma_pieces_fit(e.reel.clips, loud, k, n);
    lemma_ranges_rise(loud, k);
    let to = first_pieces(e.reel.clips, loud, n);
    let starts = starts_by(new, to);
    let d = EditorView { marked: Seq::empty(), ..e.pushed(""@) };
    assert(0 <= ranges_before(loud, k) <= new.len());
    crate::trims::law_riders(d, new, starts, k, ranges_before(loud, k));
    crate::magnet::lemma_carried(
        crate::model::Reel { clips: new, ..e.reel },
        crate::track::spans_of(e.reel.clips),
        starts,
    );
}

proof fn lemma_ranges_rise(loud: Seq<Option<Vec<(Time, Time)>>>, k: int)
    requires
        0 <= k,
    ensures
        0 <= ranges_before(loud, k),
    decreases k,
{
    if k > 0 {
        lemma_ranges_rise(loud, k - 1);
    }
}

/// Law: auto-cut listens to every clip with sound of its own that is no photo, or to the
/// selected one alone, each once and in order.
pub proof fn law_what_is_listened_to(e: EditorView, sel_only: bool, n: int)
    requires
        0 <= n <= e.reel.clips.len(),
        e.reel.clips.len() <= usize::MAX,
    ensures
        ({
            let q = targets(e, sel_only, n);
            &&& forall|i: int|
                0 <= i < n ==> (q.contains(i as usize) <==> {
                    let c = #[trigger] e.reel.clips[i];
                    c.has_audio && (if sel_only {
                        e.selected == Some(Sel::Main(i as usize))
                    } else {
                        !(media_kind(c.path@) is Still)
                    })
                })
            &&& forall|k: int| 0 <= k < q.len() ==> (#[trigger] q[k]) < n
            &&& forall|j: int, k: int| 0 <= j < k < q.len() ==> (#[trigger] q[j]) < (#[trigger] q[k])
        }),
    decreases n,
{
    if n > 0 {
        law_what_is_listened_to(e, sel_only, n - 1);
        let p = targets(e, sel_only, n - 1);
        let q = targets(e, sel_only, n);
        assert forall|i: int| 0 <= i < n implies (q.contains(i as usize) <==> {
            let c = #[trigger] e.reel.clips[i];
            c.has_audio && (if sel_only {
                e.selected == Some(Sel::Main(i as usize))
            } else {
                !(media_kind(c.path@) is Still)
            })
        }) by {
            if i < n - 1 {
                if p.contains(i as usize) {
                    let k = choose|k: int| 0 <= k < p.len() && p[k] == i as usize;
                    assert(q[k] == i as usize);
                }
                if q.contains(i as usize) {
                    let k = choose|k: int| 0 <= k < q.len() && q[k] == i as usize;
                    assert(k < p.len());
                    assert(p[k] == i as usize);
                }
            } else if listens_to(e, sel_only, i) {
                assert(q[p.len() as int] == i as usize);
            } else if q.contains(i as usize) {
                let k = choose|k: int| 0 <= k < q.len() && q[k] == i as usize;
                assert(p[k] < n - 1);
            }
        }
    }
}

} // verus!
