//! The reel as tracks of an OpenTimelineIO timeline: media by path, captions by
//! their words, timed as on the reel.

use crate::model::{
    audios_ok, lemma_audios_ok_at, lemma_overlays_ok_at, lemma_titles_ok_at, overlays_ok, sound, AudioItem, Clip, OverlayItem, Reel,
    Snapshot, TitleView,
};
use crate::sorting::{by_number, order_by_number};
use crate::text::{cat2, decimal, digits};
use crate::time::{greater, on_axis, upper, Time, AXIS_END};
use crate::track::{extent, extent_of, law_extents, run_length, run_of, start, total};
use vstd::prelude::*;

verus! {

/// Something to put on a track.
pub struct Piece {
    pub name: String,
    /// The media it shows; a caption has none.
    pub url: Option<String>,
    /// Where it starts on the reel.
    pub at: Time,
    /// Where it starts in its source.
    pub start: Time,
    /// How long it runs on the reel.
    pub dur: Time,
}

/// A piece as a value.
pub struct PieceView {
    pub name: Seq<char>,
    pub url: Option<Seq<char>>,
    pub at: Time,
    pub start: Time,
    pub dur: Time,
}

impl View for Piece {
    type V = PieceView;

    open spec fn view(&self) -> PieceView {
        PieceView {
            name: self.name@,
            url: match self.url {
                Some(u) => Some(u@),
                None => None,
            },
            at: self.at,
            start: self.start,
            dur: self.dur,
        }
    }
}

/// What stands on a track, one after the other.
pub enum Part {
    /// Nothing, for a while.
    Gap(Time),
    Item(Piece),
}

/// A part as a value.
pub enum PartView {
    Gap(Time),
    Item(PieceView),
}

impl View for Part {
    type V = PartView;

    open spec fn view(&self) -> PartView {
        match self {
            Part::Gap(t) => PartView::Gap(*t),
            Part::Item(p) => PartView::Item(p@),
        }
    }
}

impl PartView {
    /// How long the part is.
    pub open spec fn len(self) -> int {
        match self {
            PartView::Gap(t) => t as int,
            PartView::Item(p) => p.dur as int,
        }
    }
}

/// A track of the timeline.
pub struct OtioTrack {
    pub name: String,
    /// Whether it holds pictures; otherwise sound.
    pub video: bool,
    pub parts: Vec<Part>,
}

/// A track as a value.
pub struct OtioTrackView {
    pub name: Seq<char>,
    pub video: bool,
    pub parts: Seq<PartView>,
}

impl View for OtioTrack {
    type V = OtioTrackView;

    open spec fn view(&self) -> OtioTrackView {
        OtioTrackView { name: self.name@, video: self.video, parts: parts_of(self.parts@) }
    }
}

pub open spec fn parts_of(s: Seq<Part>) -> Seq<PartView> {
    Seq::new(s.len(), |i: int| s[i]@)
}

pub open spec fn pieces_of(s: Seq<Piece>) -> Seq<PieceView> {
    Seq::new(s.len(), |i: int| s[i]@)
}

/// A path as the address of a file.
pub open spec fn file_url(path: Seq<char>) -> Seq<char> {
    "file://"@ + path
}

/// How far the first `n` pieces reach.
pub open spec fn reach(s: Seq<PieceView>, n: int) -> int
    decreases n,
{
    if n <= 0 { 0 } else { upper(reach(s, n - 1), s[n - 1].at + s[n - 1].dur) }
}

/// The first `n` pieces laid out: a gap stands before a piece that starts past
/// everything before it.
pub open spec fn laid(s: Seq<PieceView>, n: int) -> Seq<PartView>
    decreases n,
{
    if n <= 0 {
        Seq::empty()
    } else {
        let p = s[n - 1];
        let before = reach(s, n - 1);
        let rest = laid(s, n - 1);
        if p.at > before {
            rest.push(PartView::Gap((p.at - before) as Time)).push(PartView::Item(p))
        } else {
            rest.push(PartView::Item(p))
        }
    }
}

/// When pieces start.
pub open spec fn starts(s: Seq<PieceView>) -> Seq<Time> {
    Seq::new(s.len(), |i: int| s[i].at)
}

/// Pieces in an order.
pub open spec fn in_order(s: Seq<PieceView>, order: Seq<usize>) -> Seq<PieceView> {
    Seq::new(order.len(), |i: int| s[order[i] as int])
}

/// A lane of pieces laid out by when they start, ties as they come.
pub open spec fn is_lane(r: Seq<PartView>, s: Seq<PieceView>) -> bool {
    exists|order: Seq<usize>| #[trigger]
        by_number(order, starts(s)) && r == laid(in_order(s, order), s.len() as int)
}

/// How long the first `n` parts take.
pub open spec fn length(s: Seq<PartView>, n: int) -> int
    decreases n,
{
    if n <= 0 { 0 } else { length(s, n - 1) + s[n - 1].len() }
}

pub open spec fn clip_piece(clips: Seq<Clip>, i: int) -> PieceView {
    PieceView {
        name: clips[i].name@,
        url: Some(file_url(clips[i].path@)),
        at: 0,
        start: clips[i].in_s,
        dur: extent(clips, i) as Time,
    }
}

pub open spec fn overlay_piece(o: OverlayItem) -> PieceView {
    PieceView {
        name: o.name@,
        url: Some(file_url(o.path@)),
        at: o.at,
        start: o.in_s,
        dur: run_of(o.in_s, o.out_s, o.speed) as Time,
    }
}

pub open spec fn bed_piece(a: AudioItem) -> PieceView {
    PieceView {
        name: a.name@,
        url: Some(file_url(a.path@)),
        at: a.at,
        start: a.in_s,
        dur: run_of(a.in_s, a.out_s, 1000) as Time,
    }
}

pub open spec fn caption_piece(t: TitleView) -> PieceView {
    PieceView { name: t.text@, url: None, at: t.at, start: 0, dur: t.dur }
}

/// The main track: its clips one after the other.
pub open spec fn main_parts(clips: Seq<Clip>) -> Seq<PartView> {
    Seq::new(clips.len(), |i: int| PartView::Item(clip_piece(clips, i)))
}

/// The cutaways of a track, as they come.
pub open spec fn overlay_pieces(s: Seq<OverlayItem>, track: int, n: int) -> Seq<PieceView>
    decreases n,
{
    if n <= 0 {
        Seq::empty()
    } else if s[n - 1].track == track {
        overlay_pieces(s, track, n - 1).push(overlay_piece(s[n - 1]))
    } else {
        overlay_pieces(s, track, n - 1)
    }
}

/// The beds of a lane, as they come.
pub open spec fn bed_pieces(s: Seq<AudioItem>, lane: int, n: int) -> Seq<PieceView>
    decreases n,
{
    if n <= 0 {
        Seq::empty()
    } else if s[n - 1].lane == lane {
        bed_pieces(s, lane, n - 1).push(bed_piece(s[n - 1]))
    } else {
        bed_pieces(s, lane, n - 1)
    }
}

pub open spec fn caption_pieces(s: Seq<TitleView>) -> Seq<PieceView> {
    Seq::new(s.len(), |i: int| caption_piece(s[i]))
}

/// The tracks of a reel: the main one, the cutaways from the lowest up, the beds,
/// and the captions.
pub open spec fn is_timeline(r: Seq<OtioTrackView>, reel: Reel) -> bool {
    let v = reel.v_lanes as int;
    let a = reel.a_lanes as int;
    &&& r.len() == 2 + v + a
    &&& r[0].name == "V1"@ && r[0].video && r[0].parts == main_parts(reel.clips)
    &&& forall|k: int|
        1 <= k <= v ==> (#[trigger] r[k]).name == "V"@ + digits((k + 1) as nat) && r[k].video && is_lane(
            r[k].parts,
            overlay_pieces(reel.overlays, k + 1, reel.overlays.len() as int),
        )
    &&& forall|k: int|
        v < k <= v + a ==> (#[trigger] r[k]).name == "A"@ + digits((k - v) as nat) && !r[k].video && is_lane(
            r[k].parts,
            bed_pieces(reel.audios, k - v, reel.audios.len() as int),
        )
    &&& r[1 + v + a].name == "Captions"@ && r[1 + v + a].video && is_lane(
        r[1 + v + a].parts,
        caption_pieces(reel.titles),
    )
}

/// What a piece may be, for its end to be a time.
pub open spec fn fits(p: PieceView) -> bool {
    &&& on_axis(p.at)
    &&& 0 <= p.dur <= AXIS_END
}

fn url_of(path: &str) -> (r: Option<String>)
    ensures
        r is Some,
        r->0@ == file_url(path@),
{
    Some(cat2("file://", path))
}

/// Lay a lane out.
fn lay(pieces: Vec<Piece>) -> (r: Vec<Part>)
    requires
        forall|i: int| 0 <= i < pieces@.len() ==> fits(#[trigger] pieces@[i]@),
    ensures
        is_lane(parts_of(r@), pieces_of(pieces@)),
{
    let ghost all = pieces_of(pieces@);
    let n: usize = pieces.len();
    let mut keys: Vec<Time> = Vec::new();
    let mut i: usize = 0;
    while i < n
        invariant
            i <= n,
            n == pieces@.len(),
            keys@.len() == i,
            forall|k: int| 0 <= k < i ==> #[trigger] keys@[k] == pieces@[k].at,
        decreases n - i,
    {
        keys.push(pieces[i].at);
        i += 1;
    }
    assert(keys@ =~= starts(all));
    let order: Vec<usize> = order_by_number(&keys);
    let ghost sorted = in_order(all, order@);
    let mut r: Vec<Part> = Vec::new();
    let mut end: Time = 0;
    let mut k: usize = 0;
    assert(parts_of(r@) =~= laid(sorted, 0));
    while k < n
        invariant
            k <= n,
            n == pieces@.len(),
            n == order@.len(),
            all == pieces_of(pieces@),
            by_number(order@, starts(all)),
            sorted == in_order(all, order@),
            forall|i: int| 0 <= i < pieces@.len() ==> fits(#[trigger] pieces@[i]@),
            end == reach(sorted, k as int),
            0 <= end <= 2 * AXIS_END,
            parts_of(r@) == laid(sorted, k as int),
        decreases n - k,
    {
        assert(order@[k as int] < n);
        let p: &Piece = &pieces[order[k]];
        assert(fits(p@));
        assert(sorted[k as int] == p@);
        let ghost was = r@;
        if p.at > end {
            r.push(Part::Gap(p.at - end));
        }
        let ghost gapped = r@;
        let piece: Piece = Piece {
            name: p.name.clone(),
            url: p.url.clone(),
            at: p.at,
            start: p.start,
            dur: p.dur,
        };
        assert(piece@ == p@);
        r.push(Part::Item(piece));
        proof {
            if p.at > end {
                assert(parts_of(gapped) =~= parts_of(was).push(PartView::Gap((p.at - end) as Time)));
            }
            assert(parts_of(r@) =~= parts_of(gapped).push(PartView::Item(p@)));
        }
        end = greater(end, p.at + p.dur);
        k += 1;
    }
    r
}

/// The reel as tracks.
pub fn snapshot_to_otio(snap: &Snapshot) -> (r: Vec<OtioTrack>)
    requires
        snap@.wf(),
    ensures
        is_timeline(tracks_of(r@), snap@),
{
    let mut r: Vec<OtioTrack> = Vec::new();
    r.push(OtioTrack { name: "V1".to_owned(), video: true, parts: main_track(&snap.clips) });
    let v: usize = snap.v_lanes as usize;
    let a: usize = snap.a_lanes as usize;
    let ghost reel = snap@;
    let mut k: usize = 1;
    while k <= v
        invariant
            reel == snap@,
            reel.wf(),
            v == reel.v_lanes,
            1 <= k <= v + 1,
            r@.len() == k,
            r@[0]@.name == "V1"@ && r@[0]@.video && r@[0]@.parts == main_parts(reel.clips),
            forall|j: int|
                1 <= j < k ==> (#[trigger] r@[j])@.name == "V"@ + digits((j + 1) as nat) && r@[j]@.video && is_lane(
                    r@[j]@.parts,
                    overlay_pieces(reel.overlays, j + 1, reel.overlays.len() as int),
                ),
        decreases v + 1 - k,
    {
        let parts: Vec<Part> = overlay_track(&snap.overlays, k + 1);
        r.push(OtioTrack { name: cat2("V", decimal((k + 1) as u128).as_str()), video: true, parts });
        k += 1;
    }
    while k <= v + a
        invariant
            reel == snap@,
            reel.wf(),
            v == reel.v_lanes,
            a == reel.a_lanes,
            v < k <= v + a + 1,
            r@.len() == k,
            r@[0]@.name == "V1"@ && r@[0]@.video && r@[0]@.parts == main_parts(reel.clips),
            forall|j: int|
                1 <= j <= v ==> (#[trigger] r@[j])@.name == "V"@ + digits((j + 1) as nat) && r@[j]@.video && is_lane(
                    r@[j]@.parts,
                    overlay_pieces(reel.overlays, j + 1, reel.overlays.len() as int),
                ),
            forall|j: int|
                v < j < k ==> (#[trigger] r@[j])@.name == "A"@ + digits((j - v) as nat) && !r@[j]@.video && is_lane(
                    r@[j]@.parts,
                    bed_pieces(reel.audios, j - v, reel.audios.len() as int),
                ),
        decreases v + a + 1 - k,
    {
        let parts: Vec<Part> = bed_track(&snap.audios, k - v);
        r.push(OtioTrack { name: cat2("A", decimal((k - v) as u128).as_str()), video: false, parts });
        k += 1;
    }
    let parts: Vec<Part> = caption_track(snap);
    r.push(OtioTrack { name: "Captions".to_owned(), video: true, parts });
    r
}

pub open spec fn tracks_of(s: Seq<OtioTrack>) -> Seq<OtioTrackView> {
    Seq::new(s.len(), |i: int| s[i]@)
}

fn main_track(clips: &Vec<Clip>) -> (r: Vec<Part>)
    requires
        sound(clips@),
    ensures
        parts_of(r@) == main_parts(clips@),
{
    let mut r: Vec<Part> = Vec::new();
    let mut i: usize = 0;
    while i < clips.len()
        invariant
            i <= clips@.len(),
            sound(clips@),
            r@.len() == i,
            forall|j: int| 0 <= j < i ==> (#[trigger] r@[j])@ == PartView::Item(clip_piece(clips@, j)),
        decreases clips@.len() - i,
    {
        let c: &Clip = &clips[i];
        let piece: Piece = Piece {
            name: c.name.clone(),
            url: url_of(c.path.as_str()),
            at: 0,
            start: c.in_s,
            dur: extent_of(clips, i),
        };
        assert(piece@ == clip_piece(clips@, i as int));
        r.push(Part::Item(piece));
        i += 1;
    }
    assert(parts_of(r@) =~= main_parts(clips@));
    r
}

fn overlay_track(s: &Vec<OverlayItem>, track: usize) -> (r: Vec<Part>)
    requires
        overlays_ok(s@),
    ensures
        is_lane(parts_of(r@), overlay_pieces(s@, track as int, s@.len() as int)),
{
    let mut pieces: Vec<Piece> = Vec::new();
    let mut i: usize = 0;
    assert(pieces_of(pieces@) =~= overlay_pieces(s@, track as int, 0));
    while i < s.len()
        invariant
            i <= s@.len(),
            overlays_ok(s@),
            pieces_of(pieces@) == overlay_pieces(s@, track as int, i as int),
            forall|j: int| 0 <= j < pieces@.len() ==> fits(#[trigger] pieces@[j]@),
        decreases s@.len() - i,
    {
        let o: &OverlayItem = &s[i];
        proof {
            lemma_overlays_ok_at(s@, i as int);
        }
        if o.track as usize == track {
            let ghost was = pieces@;
            let piece: Piece = Piece {
                name: o.name.clone(),
                url: url_of(o.path.as_str()),
                at: o.at,
                start: o.in_s,
                dur: run_length(o.in_s, o.out_s, o.speed),
            };
            assert(piece@ == overlay_piece(*o));
            pieces.push(piece);
            assert(pieces_of(pieces@) =~= pieces_of(was).push(overlay_piece(*o)));
        }
        i += 1;
    }
    lay(pieces)
}

fn bed_track(s: &Vec<AudioItem>, lane: usize) -> (r: Vec<Part>)
    requires
        audios_ok(s@),
    ensures
        is_lane(parts_of(r@), bed_pieces(s@, lane as int, s@.len() as int)),
{
    let mut pieces: Vec<Piece> = Vec::new();
    let mut i: usize = 0;
    assert(pieces_of(pieces@) =~= bed_pieces(s@, lane as int, 0));
    while i < s.len()
        invariant
            i <= s@.len(),
            audios_ok(s@),
            pieces_of(pieces@) == bed_pieces(s@, lane as int, i as int),
            forall|j: int| 0 <= j < pieces@.len() ==> fits(#[trigger] pieces@[j]@),
        decreases s@.len() - i,
    {
        let a: &AudioItem = &s[i];
        proof {
            lemma_audios_ok_at(s@, i as int);
        }
        if a.lane as usize == lane {
            let ghost was = pieces@;
            let piece: Piece = Piece {
                name: a.name.clone(),
                url: url_of(a.path.as_str()),
                at: a.at,
                start: a.in_s,
                dur: run_length(a.in_s, a.out_s, 1000),
            };
            assert(piece@ == bed_piece(*a));
            pieces.push(piece);
            assert(pieces_of(pieces@) =~= pieces_of(was).push(bed_piece(*a)));
        }
        i += 1;
    }
    lay(pieces)
}

fn caption_track(snap: &Snapshot) -> (r: Vec<Part>)
    requires
        snap@.wf(),
    ensures
        is_lane(parts_of(r@), caption_pieces(snap@.titles)),
{
    let mut pieces: Vec<Piece> = Vec::new();
    let mut i: usize = 0;
    assert(snap@.titles.len() == snap.titles@.len());
    while i < snap.titles.len()
        invariant
            i <= snap.titles@.len(),
            snap@.wf(),
            snap@.titles.len() == snap.titles@.len(),
            pieces@.len() == i,
            forall|j: int|
                0 <= j < i ==> (#[trigger] pieces@[j])@ == caption_piece(snap@.titles[j]) && fits(pieces@[j]@),
        decreases snap.titles@.len() - i,
    {
        proof {
            lemma_titles_ok_at(snap@.titles, i as int);
        }
        assert(snap@.titles[i as int] == snap.titles@[i as int]@);
        let t = &snap.titles[i];
        let piece: Piece = Piece { name: t.text.clone(), url: None, at: t.at, start: 0, dur: t.dur };
        assert(piece@ == caption_piece(snap@.titles[i as int]));
        pieces.push(piece);
        i += 1;
    }
    assert(pieces_of(pieces@) =~= caption_pieces(snap@.titles));
    lay(pieces)
}

/// Pieces of which none starts before the ones before it have ended.
pub open spec fn apart(s: Seq<PieceView>) -> bool {
    forall|i: int| 0 <= i < s.len() ==> (#[trigger] s[i]).at >= reach(s, i) && s[i].dur >= 0
}

/// Law: on a lane whose pieces do not overlap, every piece stands on the track where
/// it stands on the reel: what is before it, gap and all, is as long as its start.
pub proof fn law_lane_keeps_time(s: Seq<PieceView>, n: int)
    requires
        apart(s),
        0 <= n < s.len(),
    ensures
        ({
            let parts = laid(s, n + 1);
            parts.last() == PartView::Item(s[n]) && length(parts, parts.len() - 1) == s[n].at
        }),
        length(laid(s, n + 1), laid(s, n + 1).len() as int) == reach(s, n + 1),
    decreases n,
{
    let rest = laid(s, n);
    let parts = laid(s, n + 1);
    if n > 0 {
        law_lane_keeps_time(s, n - 1);
    }
    assert(length(rest, rest.len() as int) == reach(s, n));
    lemma_length_prefix(rest, parts, rest.len() as int);
    lemma_reach(s, n);
    if s[n].at > reach(s, n) {
        assert(parts[rest.len() as int].len() == s[n].at - reach(s, n));
        assert(length(parts, rest.len() as int + 1) == s[n].at);
    }
}

proof fn lemma_reach(s: Seq<PieceView>, n: int)
    ensures
        reach(s, n) >= 0,
    decreases n,
{
    if n > 0 {
        lemma_reach(s, n - 1);
    }
}

/// The length of the first parts does not depend on the rest.
proof fn lemma_length_prefix(a: Seq<PartView>, b: Seq<PartView>, n: int)
    requires
        n <= a.len(),
        n <= b.len(),
        forall|i: int| 0 <= i < n ==> a[i] == b[i],
    ensures
        length(a, n) == length(b, n),
    decreases n,
{
    if n > 0 {
        lemma_length_prefix(a, b, n - 1);
    }
}

/// Law: the main track is as long as the reel.
pub proof fn law_main_track_keeps_time(clips: Seq<Clip>)
    requires
        sound(clips),
    ensures
        length(main_parts(clips), clips.len() as int) == total(clips),
{
    lemma_main_length(clips, clips.len() as int);
}

proof fn lemma_main_length(clips: Seq<Clip>, n: int)
    requires
        sound(clips),
        0 <= n <= clips.len(),
    ensures
        length(main_parts(clips), n) == start(clips, n),
    decreases n,
{
    if n > 0 {
        lemma_main_length(clips, n - 1);
        law_extents(clips, n - 1);
    }
}

/// Law: a cutaway, a bed and a title are written with the source they play, where they
/// stand, for as long as they are up.
pub proof fn law_pieces_say_what_plays(o: OverlayItem, a: AudioItem, t: TitleView, clips: Seq<Clip>, i: int)
    requires
        o.wf(),
        a.wf(),
        a.in_s <= a.out_s,
        0 <= i < clips.len(),
    ensures
        ({
            let p = overlay_piece(o);
            &&& p.at == o.at && p.start == o.in_s && p.name == o.name@
            &&& o.speed == 1000 && o.in_s <= o.out_s ==> p.dur == o.out_s - o.in_s
            &&& p.url == Some("file://"@ + o.path@)
        }),
        ({
            let p = bed_piece(a);
            p.at == a.at && p.start == a.in_s && p.dur == a.out_s - a.in_s && p.url == Some("file://"@ + a.path@)
        }),
        caption_piece(t).at == t.at && caption_piece(t).dur == t.dur && caption_piece(t).name == t.text@
            && caption_piece(t).url is None,
        main_parts(clips).len() == clips.len(),
        main_parts(clips)[i] matches PartView::Item(p) && p.start == clips[i].in_s && p.url == Some(
            "file://"@ + clips[i].path@,
        ) && p.name == clips[i].name@,
{
    crate::track::lemma_run(o.in_s, o.out_s, o.speed);
    crate::cuts::lemma_unit_run(o.in_s, o.out_s);
    crate::cuts::lemma_unit_run(a.in_s, a.out_s);
}

/// Law: the items of a lane are those on it, each once and in order; what is on another
/// lane is not there.
pub proof fn law_lane_holds_its_items(s: Seq<OverlayItem>, b: Seq<AudioItem>, lane: int, n: int)
    requires
        0 <= n < s.len(),
        n < b.len(),
    ensures
        overlay_pieces(s, lane, 0).len() == 0 && bed_pieces(b, lane, 0).len() == 0,
        s[n].track == lane ==> overlay_pieces(s, lane, n + 1) == overlay_pieces(s, lane, n).push(overlay_piece(s[n])),
        s[n].track != lane ==> overlay_pieces(s, lane, n + 1) == overlay_pieces(s, lane, n),
        b[n].lane == lane ==> bed_pieces(b, lane, n + 1) == bed_pieces(b, lane, n).push(bed_piece(b[n])),
        b[n].lane != lane ==> bed_pieces(b, lane, n + 1) == bed_pieces(b, lane, n),
{
}

/// Law: the tracks go out in the order V1, the cutaway tracks, the audio lanes and the
/// captions, with picture and sound told apart.
pub proof fn law_timeline_order(r: Seq<OtioTrackView>, reel: Reel, k: int)
    requires
        is_timeline(r, reel),
        0 <= k < r.len(),
    ensures
        r.len() == reel.v_lanes + reel.a_lanes + 2,
        k == 0 ==> r[k].name == "V1"@ && r[k].video && r[k].parts.len() == reel.clips.len(),
        r[k].video <==> k <= reel.v_lanes || k + 1 == r.len(),
        k + 1 == r.len() ==> r[k].name == "Captions"@,
{
    let v = reel.v_lanes as int;
    if 1 <= k <= v {
        assert(r[k].video);
    } else if v < k <= v + reel.a_lanes {
        assert(!r[k].video);
    }
}

} // verus!
