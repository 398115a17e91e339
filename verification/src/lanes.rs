//! How many lanes the timeline shows, and the mixer strip each audio lane has.

use crate::model::{cards, AudioItem, Bus, Mixer, MixerView, OverlayItem, Reel, Snapshot, TitleView};
use vstd::prelude::*;

verus! {

/// The most lanes of each kind that a timeline may have.
#[derive(Clone, Copy, PartialEq, Eq, Structural, Debug)]
pub struct LaneLimits {
    pub video: u8,
    pub text: u8,
    pub audio: u8,
}

/// An untouched mixer strip.
pub open spec fn unity() -> Bus {
    Bus { gain: 1000, mute: false, solo: false }
}

/// The overlay lanes a track needs: V2 is the first.
pub open spec fn overlay_level(track: u8) -> u8 {
    if track >= 1 { (track - 1) as u8 } else { 0 }
}

/// The highest of `base` and the levels of the first `n` overlays.
pub open spec fn overlay_crest(s: Seq<OverlayItem>, base: u8, n: int) -> u8
    decreases n,
{
    if n <= 0 {
        base
    } else {
        higher(overlay_crest(s, base, n - 1), overlay_level(s[n - 1].track))
    }
}

/// The highest of `base` and the tracks of the first `n` titles.
pub open spec fn title_crest(s: Seq<TitleView>, base: u8, n: int) -> u8
    decreases n,
{
    if n <= 0 {
        base
    } else {
        higher(title_crest(s, base, n - 1), s[n - 1].track)
    }
}

/// The highest of `base` and the lanes of the first `n` beds.
pub open spec fn audio_crest(s: Seq<AudioItem>, base: u8, n: int) -> u8
    decreases n,
{
    if n <= 0 {
        base
    } else {
        higher(audio_crest(s, base, n - 1), s[n - 1].lane)
    }
}

pub open spec fn higher(a: u8, b: u8) -> u8 {
    if a >= b { a } else { b }
}

/// The mixer with a strip for V1 and one for each of `lanes` audio lanes; strips
/// that were missing are untouched ones.
pub open spec fn with_strips(m: MixerView, lanes: u8) -> MixerView {
    MixerView {
        tracks: if m.tracks.len() >= lanes + 1 {
            m.tracks
        } else {
            m.tracks + Seq::new((lanes + 1 - m.tracks.len()) as nat, |i: int| unity())
        },
        ..m
    }
}

/// A reel whose lane counts cover every item on it.
pub open spec fn normal(r: Reel) -> Reel {
    let a = audio_crest(r.audios, r.a_lanes, r.audios.len() as int);
    Reel {
        v_lanes: overlay_crest(r.overlays, r.v_lanes, r.overlays.len() as int),
        t_lanes: title_crest(r.titles, r.t_lanes, r.titles.len() as int),
        a_lanes: a,
        mixer: with_strips(r.mixer, a),
        ..r
    }
}

/// Law: after normalizing, every item lies on a lane that is shown and every
/// audio lane has a mixer strip; no count shrinks and no item changes.
pub proof fn law_normal_covers(r: Reel)
    ensures
        forall|i: int| 0 <= i < r.overlays.len() ==> overlay_level((#[trigger] r.overlays[i]).track) <= normal(r).v_lanes,
        forall|i: int| 0 <= i < r.titles.len() ==> (#[trigger] r.titles[i]).track <= normal(r).t_lanes,
        forall|i: int| 0 <= i < r.audios.len() ==> (#[trigger] r.audios[i]).lane <= normal(r).a_lanes,
        normal(r).mixer.tracks.len() >= normal(r).a_lanes + 1,
        normal(r).v_lanes >= r.v_lanes,
        normal(r).t_lanes >= r.t_lanes,
        normal(r).a_lanes >= r.a_lanes,
        forall|i: int|
            0 <= i < r.mixer.tracks.len() ==> normal(r).mixer.tracks[i] == #[trigger] r.mixer.tracks[i],
        normal(r).clips == r.clips,
        normal(r).overlays == r.overlays,
        normal(r).audios == r.audios,
        normal(r).titles == r.titles,
        normal(r).adjustments == r.adjustments,
        normal(r).markers == r.markers,
{
    lemma_overlay_crest(r.overlays, r.v_lanes, r.overlays.len() as int);
    lemma_title_crest(r.titles, r.t_lanes, r.titles.len() as int);
    lemma_audio_crest(r.audios, r.a_lanes, r.audios.len() as int);
}

/// Law: normalizing twice is normalizing once.
pub proof fn law_normal_twice(r: Reel)
    ensures
        normal(normal(r)) == normal(r),
{
    let n = normal(r);
    law_normal_covers(r);
    lemma_overlay_crest(r.overlays, n.v_lanes, r.overlays.len() as int);
    lemma_title_crest(r.titles, n.t_lanes, r.titles.len() as int);
    lemma_audio_crest(r.audios, n.a_lanes, r.audios.len() as int);
    lemma_overlay_crest(r.overlays, r.v_lanes, r.overlays.len() as int);
    lemma_title_crest(r.titles, r.t_lanes, r.titles.len() as int);
    lemma_audio_crest(r.audios, r.a_lanes, r.audios.len() as int);
    assert(normal(n) =~= n);
}

proof fn lemma_overlay_crest(s: Seq<OverlayItem>, base: u8, n: int)
    requires
        0 <= n <= s.len(),
    ensures
        overlay_crest(s, base, n) >= base,
        forall|i: int| 0 <= i < n ==> overlay_level((#[trigger] s[i]).track) <= overlay_crest(s, base, n),
        (forall|i: int| 0 <= i < n ==> overlay_level((#[trigger] s[i]).track) <= base) ==> overlay_crest(
            s,
            base,
            n,
        ) == base,
    decreases n,
{
    if n > 0 {
        lemma_overlay_crest(s, base, n - 1);
    }
}

proof fn lemma_title_crest(s: Seq<TitleView>, base: u8, n: int)
    requires
        0 <= n <= s.len(),
    ensures
        title_crest(s, base, n) >= base,
        forall|i: int| 0 <= i < n ==> (#[trigger] s[i]).track <= title_crest(s, base, n),
        (forall|i: int| 0 <= i < n ==> (#[trigger] s[i]).track <= base) ==> title_crest(s, base, n) == base,
    decreases n,
{
    if n > 0 {
        lemma_title_crest(s, base, n - 1);
    }
}

proof fn lemma_audio_crest(s: Seq<AudioItem>, base: u8, n: int)
    requires
        0 <= n <= s.len(),
    ensures
        audio_crest(s, base, n) >= base,
        forall|i: int| 0 <= i < n ==> (#[trigger] s[i]).lane <= audio_crest(s, base, n),
        (forall|i: int| 0 <= i < n ==> (#[trigger] s[i]).lane <= base) ==> audio_crest(s, base, n) == base,
    decreases n,
{
    if n > 0 {
        lemma_audio_crest(s, base, n - 1);
    }
}

impl Mixer {
    /// Give V1 and each of `lanes` audio lanes a strip.
    pub fn ensure_lanes(&mut self, lanes: u8)
        ensures
            final(self)@ == with_strips(old(self)@, lanes),
    {
        let ghost was = self.tracks@;
        let n: usize = lanes as usize + 1;
        while self.tracks.len() < n
            invariant
                n == lanes + 1,
                self.master == old(self).master,
                was.len() <= self.tracks.len(),
                self.tracks.len() > was.len() ==> self.tracks.len() <= n,
                self.tracks@ == was + Seq::new(
                    (self.tracks@.len() - was.len()) as nat,
                    |i: int| unity(),
                ),
            decreases n - self.tracks.len(),
        {
            self.tracks.push(Bus { gain: 1000, mute: false, solo: false });
            assert(self.tracks@ =~= was + Seq::new(
                (self.tracks@.len() - was.len()) as nat,
                |i: int| unity(),
            ));
        }
        assert(self.tracks@ =~= with_strips(old(self)@, lanes).tracks);
    }
}

fn max_level(a: u8, b: u8) -> (r: u8)
    ensures
        r == higher(a, b),
{
    if a >= b { a } else { b }
}

/// Grow the lane counts until they cover every item.
pub fn normalize_lanes(s: &mut Snapshot)
    ensures
        final(s)@ == normal(old(s)@),
{
    let ghost was = s@;
    let mut v: u8 = s.v_lanes;
    let mut i: usize = 0;
    while i < s.overlays.len()
        invariant
            *s == *old(s),
            i <= s.overlays.len(),
            v == overlay_crest(s.overlays@, s.v_lanes, i as int),
        decreases s.overlays.len() - i,
    {
        let t: u8 = s.overlays[i].track;
        v = max_level(v, if t >= 1 { t - 1 } else { 0 });
        i += 1;
    }
    let mut t: u8 = s.t_lanes;
    let mut i: usize = 0;
    while i < s.titles.len()
        invariant
            *s == *old(s),
            i <= s.titles.len(),
            t == title_crest(cards(s.titles@), s.t_lanes, i as int),
        decreases s.titles.len() - i,
    {
        t = max_level(t, s.titles[i].track);
        i += 1;
    }
    let mut a: u8 = s.a_lanes;
    let mut i: usize = 0;
    while i < s.audios.len()
        invariant
            *s == *old(s),
            i <= s.audios.len(),
            a == audio_crest(s.audios@, s.a_lanes, i as int),
        decreases s.audios.len() - i,
    {
        a = max_level(a, s.audios[i].lane);
        i += 1;
    }
    s.v_lanes = v;
    s.t_lanes = t;
    s.a_lanes = a;
    s.mixer.ensure_lanes(a);
    assert(s@ =~= normal(was));
}

/// The numbers from `first` on, `count` of them.
pub open spec fn counted(first: int, count: int) -> Seq<u8> {
    Seq::new(count as nat, |i: int| (first + i) as u8)
}

fn count_from(first: u8, count: u8) -> (r: Vec<u8>)
    requires
        first + count <= 256,
    ensures
        r@ == counted(first as int, count as int),
{
    let mut r: Vec<u8> = Vec::new();
    let mut i: u8 = 0;
    while i < count
        invariant
            i <= count,
            first + count <= 256,
            r@ == counted(first as int, i as int),
        decreases count - i,
    {
        r.push((first as u16 + i as u16) as u8);
        i += 1;
        assert(r@ =~= counted(first as int, i as int));
    }
    r
}

/// The overlay tracks that are shown, lowest first: V2 and up.
pub fn overlay_tracks(lanes: u8) -> (r: Vec<u8>)
    requires
        lanes <= 254,
    ensures
        r@ == counted(2, lanes as int),
{
    count_from(2, lanes)
}

/// The text tracks that are shown, lowest first: T1 and up.
pub fn title_tracks(lanes: u8) -> (r: Vec<u8>)
    ensures
        r@ == counted(1, lanes as int),
{
    count_from(1, lanes)
}

/// The audio tracks that are shown: A1 and up.
pub fn audio_tracks(lanes: u8) -> (r: Vec<u8>)
    ensures
        r@ == counted(1, lanes as int),
{
    count_from(1, lanes)
}

/// Law: a reel has lanes for all that is on it: no fewer than it had, and no more than
/// its highest item needs; the mixer has a strip for every audio lane and keeps those
/// it had.
pub proof fn law_lanes_fit(r: Reel)
    ensures
        ({
            let n = normal(r);
            &&& n == (Reel { v_lanes: n.v_lanes, t_lanes: n.t_lanes, a_lanes: n.a_lanes, mixer: n.mixer, ..r })
            &&& n.v_lanes >= r.v_lanes && n.t_lanes >= r.t_lanes && n.a_lanes >= r.a_lanes
            &&& n.v_lanes == r.v_lanes || exists|k: int|
                0 <= k < r.overlays.len() && (#[trigger] r.overlays[k]).track == n.v_lanes + 1
            &&& n.t_lanes == r.t_lanes || exists|k: int|
                0 <= k < r.titles.len() && (#[trigger] r.titles[k]).track == n.t_lanes
            &&& n.a_lanes == r.a_lanes || exists|k: int|
                0 <= k < r.audios.len() && (#[trigger] r.audios[k]).lane == n.a_lanes
            &&& n.mixer.tracks.len() > n.a_lanes
            &&& n.mixer.tracks.len() >= r.mixer.tracks.len()
            &&& forall|k: int| 0 <= k < r.mixer.tracks.len() ==> (#[trigger] n.mixer.tracks[k]) == r.mixer.tracks[k]
            &&& forall|k: int|
                r.mixer.tracks.len() <= k < n.mixer.tracks.len() ==> (#[trigger] n.mixer.tracks[k]).gain == 1000
                    && !n.mixer.tracks[k].mute && !n.mixer.tracks[k].solo
            &&& n.mixer.master == r.mixer.master
        }),
{
    lemma_overlay_crest_met(r.overlays, r.v_lanes, r.overlays.len() as int);
    lemma_title_crest_met(r.titles, r.t_lanes, r.titles.len() as int);
    lemma_audio_crest_met(r.audios, r.a_lanes, r.audios.len() as int);
}

proof fn lemma_overlay_crest_met(s: Seq<OverlayItem>, base: u8, n: int)
    requires
        0 <= n <= s.len(),
    ensures
        overlay_crest(s, base, n) >= base,
        overlay_crest(s, base, n) == base || exists|k: int|
            0 <= k < n && (#[trigger] s[k]).track == overlay_crest(s, base, n) + 1,
    decreases n,
{
    if n > 0 {
        lemma_overlay_crest_met(s, base, n - 1);
        let x = s[n - 1];
        assert(x == s[n - 1]);
    }
}

proof fn lemma_title_crest_met(s: Seq<TitleView>, base: u8, n: int)
    requires
        0 <= n <= s.len(),
    ensures
        title_crest(s, base, n) >= base,
        title_crest(s, base, n) == base || exists|k: int| 0 <= k < n && (#[trigger] s[k]).track == title_crest(s, base, n),
    decreases n,
{
    if n > 0 {
        lemma_title_crest_met(s, base, n - 1);
        let x = s[n - 1];
        assert(x == s[n - 1]);
    }
}

proof fn lemma_audio_crest_met(s: Seq<AudioItem>, base: u8, n: int)
    requires
        0 <= n <= s.len(),
    ensures
        audio_crest(s, base, n) >= base,
        audio_crest(s, base, n) == base || exists|k: int| 0 <= k < n && (#[trigger] s[k]).lane == audio_crest(s, base, n),
    decreases n,
{
    if n > 0 {
        lemma_audio_crest_met(s, base, n - 1);
        let x = s[n - 1];
        assert(x == s[n - 1]);
    }
}

/// Law: video tracks over the main one are counted from V2, text and audio lanes from
/// the first.
pub proof fn law_lane_numbers(lanes: u8, k: int)
    requires
        0 <= k < lanes <= 254,
    ensures
        counted(2, lanes as int).len() == lanes && counted(2, lanes as int)[k] == k + 2,
        counted(1, lanes as int).len() == lanes && counted(1, lanes as int)[k] == k + 1,
{
}

} // verus!
