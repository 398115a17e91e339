//! What preview and export are made of: the mixer folded in, disabled and
//! soloed-out items sorted out, lanes stacked from low to high.

use crate::model::{
    AdjustmentItem, AudioItem, Bus, Clip, Look, Mixer, MixerView, OverlayItem, Reel, Shaping,
    Snapshot, TitleItem, TitleView,
};
use crate::sorting::{by_number, order_by_number};
use crate::time::Time;
use crate::titles::{card_count, card_dur, card_start, is_segment, Segment};
use vstd::prelude::*;

verus! {

/// Whether any strip is soloed.
pub open spec fn strip_solo(m: MixerView) -> bool {
    exists|i: int| 0 <= i < m.tracks.len() && (#[trigger] m.tracks[i]).solo
}

/// The gain of a strip, in thousandths: none where it is muted or soloed out. A
/// strip that is missing counts as an untouched one.
pub open spec fn strip_gain(m: MixerView, track: int) -> int {
    let b = if 0 <= track < m.tracks.len() { m.tracks[track] } else { crate::lanes::unity() };
    if b.mute || (strip_solo(m) && !b.solo) { 0 } else { b.gain * m.master / 1000 }
}

/// Whether any item that is on is soloed.
pub open spec fn any_solo(r: Reel) -> bool {
    ||| exists|i: int| 0 <= i < r.clips.len() && (#[trigger] r.clips[i]).enabled && r.clips[i].solo
    ||| exists|i: int| 0 <= i < r.overlays.len() && (#[trigger] r.overlays[i]).enabled && r.overlays[i].solo
    ||| exists|i: int| 0 <= i < r.audios.len() && (#[trigger] r.audios[i]).enabled && r.audios[i].solo
}

/// A clip as it is rendered.
pub struct ClipSpec {
    pub path: String,
    pub in_s: Time,
    pub out_s: Time,
    pub speed: u32,
    pub reverse: bool,
    pub look: Look,
    /// Whether it shows without colour, because something else is soloed.
    pub grey: bool,
    pub framing: String,
    /// Gain in thousandths.
    pub volume: u128,
    pub denoise: u32,
    pub treat: Option<String>,
    pub transition: Option<String>,
    pub trans_dur: Time,
    pub has_audio: bool,
    pub enabled: bool,
}

/// A cutaway as it is rendered.
pub struct OverlaySpec {
    pub path: String,
    pub in_s: Time,
    pub out_s: Time,
    pub at: Time,
    pub speed: u32,
    pub reverse: bool,
    pub look: Look,
    pub grey: bool,
    pub framing: String,
    pub blend: String,
}

/// A rendered card as it is composited.
pub struct TitleSpec {
    pub png: String,
    pub at: Time,
    pub dur: Time,
    pub anim: Option<String>,
    pub fade_in: bool,
    pub fade_out: bool,
}

/// A bed as it is mixed.
pub struct AudioSpec {
    pub path: String,
    pub in_s: Time,
    pub out_s: Time,
    pub at: Time,
    pub volume: u128,
    pub vol_end: Option<u128>,
    pub fade_in: Time,
    pub fade_out: Time,
    pub shaping: Shaping,
    pub treat: Option<String>,
    pub lane: u8,
}

pub open spec fn scaled_volume(v: u32, gain: int) -> int {
    v * gain / 1000
}

/// A clip in the mix: its own sound follows V1's strip, and is silent (and its
/// picture grey) where something else is soloed.
pub open spec fn is_clip_spec(s: ClipSpec, c: Clip, gain: int, solo: bool) -> bool {
    let out = c.enabled && solo && !c.solo;
    &&& s.path == c.path
    &&& s.in_s == c.in_s
    &&& s.out_s == c.out_s
    &&& s.speed == c.speed
    &&& s.reverse == c.reverse
    &&& s.look == c.look
    &&& s.grey == out
    &&& s.framing == c.framing
    &&& s.volume == if out { 0 } else { scaled_volume(c.volume, gain) }
    &&& s.denoise == c.denoise
    &&& s.treat == c.treat
    &&& s.transition == c.transition
    &&& s.trans_dur == c.trans_dur
    &&& s.has_audio == c.has_audio
    &&& s.enabled == c.enabled
}

pub open spec fn is_overlay_spec(s: OverlaySpec, o: OverlayItem, solo: bool) -> bool {
    &&& s.path == o.path
    &&& s.in_s == o.in_s
    &&& s.out_s == o.out_s
    &&& s.at == o.at
    &&& s.speed == o.speed
    &&& s.reverse == o.reverse
    &&& s.look == o.look
    &&& s.grey == (solo && !o.solo)
    &&& s.framing == o.framing
    &&& s.blend == o.blend
}

/// Card `k` of `n` of a title: only the first slides on and fades in, only the
/// last fades out.
pub open spec fn is_title_spec(s: TitleSpec, t: TitleView, k: int, n: int) -> bool {
    &&& s.png == t.pngs[k]
    &&& s.at == card_start(t, k)
    &&& s.dur == card_dur(t, k)
    &&& s.anim == if k == 0 { t.style.anim } else { None }
    &&& s.fade_in == (k == 0)
    &&& s.fade_out == (k + 1 == n)
}

pub open spec fn is_audio_spec(s: AudioSpec, a: AudioItem, gain: int) -> bool {
    &&& s.path == a.path
    &&& s.in_s == a.in_s
    &&& s.out_s == a.out_s
    &&& s.at == a.at
    &&& s.volume == scaled_volume(a.volume, gain)
    &&& match a.vol_end {
        Some(v) => s.vol_end matches Some(w) && w == scaled_volume(v, gain),
        None => s.vol_end is None,
    }
    &&& s.fade_in == a.fade_in
    &&& s.fade_out == a.fade_out
    &&& s.shaping == a.shaping
    &&& s.treat == a.treat
    &&& s.lane == a.lane
}

/// The places of the cutaways that are on, among the first `n`.
pub open spec fn live_overlays(s: Seq<OverlayItem>, n: int) -> Seq<usize>
    decreases n,
{
    if n <= 0 {
        Seq::empty()
    } else if s[n - 1].enabled {
        live_overlays(s, n - 1).push((n - 1) as usize)
    } else {
        live_overlays(s, n - 1)
    }
}

/// The places of the titles that are on and rendered, among the first `n`.
pub open spec fn live_titles(s: Seq<TitleView>, n: int) -> Seq<usize>
    decreases n,
{
    if n <= 0 {
        Seq::empty()
    } else if s[n - 1].enabled && s[n - 1].pngs.len() > 0 {
        live_titles(s, n - 1).push((n - 1) as usize)
    } else {
        live_titles(s, n - 1)
    }
}

/// Whether a bed is heard.
pub open spec fn heard(a: AudioItem, m: MixerView, solo: bool) -> bool {
    a.enabled && !(solo && !a.solo) && strip_gain(m, a.lane as int) > 0
}

/// The places of the beds that are heard, among the first `n`.
pub open spec fn heard_beds(s: Seq<AudioItem>, m: MixerView, solo: bool, n: int) -> Seq<usize>
    decreases n,
{
    if n <= 0 {
        Seq::empty()
    } else if heard(s[n - 1], m, solo) {
        heard_beds(s, m, solo, n - 1).push((n - 1) as usize)
    } else {
        heard_beds(s, m, solo, n - 1)
    }
}

/// How many cards of a title are composited: as many as it has and were rendered.
pub open spec fn shown_cards(t: TitleView) -> int {
    if card_count(t) <= t.pngs.len() { card_count(t) as int } else { t.pngs.len() as int }
}

/// How many cards the first `n` titles of a list have.
pub open spec fn cards_before(s: Seq<TitleView>, list: Seq<usize>, n: int) -> int
    decreases n,
{
    if n <= 0 { 0 } else { cards_before(s, list, n - 1) + shown_cards(s[list[n - 1] as int]) }
}

/// Whether `r` holds the cards of the first `n` titles of a list, one title after
/// the other.
pub open spec fn are_title_specs(r: Seq<TitleSpec>, s: Seq<TitleView>, list: Seq<usize>, n: int) -> bool {
    &&& r.len() == cards_before(s, list, n)
    &&& forall|i: int, k: int|
        0 <= i < n && 0 <= k < shown_cards(s[list[i] as int]) ==> #[trigger] is_title_spec(
            r[cards_before(s, list, i) + k],
            s[list[i] as int],
            k,
            shown_cards(s[list[i] as int]),
        )
}

/// A list put in an order.
pub open spec fn arranged(list: Seq<usize>, order: Seq<usize>) -> Seq<usize> {
    Seq::new(order.len(), |k: int| list[order[k] as int])
}

/// The tracks of the overlays in a list.
pub open spec fn overlay_keys(s: Seq<OverlayItem>, list: Seq<usize>) -> Seq<Time> {
    Seq::new(list.len(), |k: int| s[list[k] as int].track as Time)
}

/// The tracks of the titles in a list.
pub open spec fn title_keys(s: Seq<TitleView>, list: Seq<usize>) -> Seq<Time> {
    Seq::new(list.len(), |k: int| s[list[k] as int].track as Time)
}

/// Everything preview and export need.
pub struct Mix {
    pub clips: Vec<ClipSpec>,
    pub overlays: Vec<OverlaySpec>,
    pub titles: Vec<TitleSpec>,
    pub audios: Vec<AudioSpec>,
    pub adjustments: Vec<AdjustmentItem>,
}

/// What preview and export are made of, gathered from a reel.
pub open spec fn is_mix(r: Mix, reel: Reel) -> bool {
    let solo = any_solo(reel);
    let gain = strip_gain(reel.mixer, 0);
    let o = reel.overlays;
    let live = live_overlays(o, o.len() as int);
    let t = reel.titles;
    let up = live_titles(t, t.len() as int);
    let a = reel.audios;
    let beds = heard_beds(a, reel.mixer, solo, a.len() as int);
    &&& r.clips@.len() == reel.clips.len()
    &&& forall|i: int|
        0 <= i < r.clips@.len() ==> is_clip_spec(#[trigger] r.clips@[i], reel.clips[i], gain, solo)
    &&& exists|order: Seq<usize>| #[trigger]
        by_number(order, overlay_keys(o, live)) && r.overlays@.len() == order.len() && forall|k: int|
            0 <= k < order.len() ==> is_overlay_spec(
                #[trigger] r.overlays@[k],
                o[arranged(live, order)[k] as int],
                solo,
            )
    &&& exists|order: Seq<usize>| #[trigger]
        by_number(order, title_keys(t, up)) && are_title_specs(
            r.titles@,
            t,
            arranged(up, order),
            order.len() as int,
        )
    &&& r.audios@.len() == beds.len()
    &&& forall|k: int|
        0 <= k < beds.len() ==> is_audio_spec(
            #[trigger] r.audios@[k],
            a[beds[k] as int],
            strip_gain(reel.mixer, a[beds[k] as int].lane as int),
        )
    &&& r.adjustments@ == reel.adjustments
}

impl Mixer {
    /// The gain of a strip: strip zero is V1, strip `n` is audio lane `n`.
    pub fn gain_of(&self, track: u8) -> (r: u64)
        ensures
            r == strip_gain(self@, track as int),
    {
        let mut solo: bool = false;
        let mut i: usize = 0;
        while i < self.tracks.len()
            invariant
                i <= self.tracks@.len(),
                solo == exists|k: int| 0 <= k < i && (#[trigger] self.tracks@[k]).solo,
            decreases self.tracks@.len() - i,
        {
            if self.tracks[i].solo {
                assert(self.tracks@[i as int].solo);
                solo = true;
            }
            i += 1;
        }
        let b: Bus = if (track as usize) < self.tracks.len() {
            self.tracks[track as usize]
        } else {
            Bus { gain: 1000, mute: false, solo: false }
        };
        if b.mute || (solo && !b.solo) {
            return 0;
        }
        assert(b.gain * self.master <= 0xffff_ffff * 0xffff_ffff) by (nonlinear_arith)
            requires
                b.gain <= 0xffff_ffff,
                self.master <= 0xffff_ffff,
        ;
        b.gain as u64 * self.master as u64 / 1000
    }
}

fn scale_volume(v: u32, gain: u64) -> (r: u128)
    ensures
        r == scaled_volume(v, gain as int),
{
    assert(v * gain <= 0xffff_ffff * 0xffff_ffff_ffff_ffff) by (nonlinear_arith)
        requires
            v <= 0xffff_ffff,
            gain <= 0xffff_ffff_ffff_ffff,
    ;
    v as u128 * gain as u128 / 1000
}

impl Clip {
    /// The clip as it is rendered.
    pub fn spec(&self, gain: u64, solo: bool) -> (r: ClipSpec)
        ensures
            is_clip_spec(r, *self, gain as int, solo),
    {
        let out: bool = self.enabled && solo && !self.solo;
        ClipSpec {
            path: self.path.clone(),
            in_s: self.in_s,
            out_s: self.out_s,
            speed: self.speed,
            reverse: self.reverse,
            look: self.look.clone(),
            grey: out,
            framing: self.framing.clone(),
            volume: if out { 0 } else { scale_volume(self.volume, gain) },
            denoise: self.denoise,
            treat: self.treat.clone(),
            transition: self.transition.clone(),
            trans_dur: self.trans_dur,
            has_audio: self.has_audio,
            enabled: self.enabled,
        }
    }
}

impl OverlayItem {
    /// The cutaway as it is rendered.
    pub fn spec(&self, solo: bool) -> (r: OverlaySpec)
        ensures
            is_overlay_spec(r, *self, solo),
    {
        OverlaySpec {
            path: self.path.clone(),
            in_s: self.in_s,
            out_s: self.out_s,
            at: self.at,
            speed: self.speed,
            reverse: self.reverse,
            look: self.look.clone(),
            grey: solo && !self.solo,
            framing: self.framing.clone(),
            blend: self.blend.clone(),
        }
    }
}

impl AudioItem {
    /// The bed as it is mixed.
    pub fn spec(&self, gain: u64) -> (r: AudioSpec)
        ensures
            is_audio_spec(r, *self, gain as int),
    {
        AudioSpec {
            path: self.path.clone(),
            in_s: self.in_s,
            out_s: self.out_s,
            at: self.at,
            volume: scale_volume(self.volume, gain),
            vol_end: match self.vol_end {
                Some(v) => Some(scale_volume(v, gain)),
                None => None,
            },
            fade_in: self.fade_in,
            fade_out: self.fade_out,
            shaping: self.shaping,
            treat: self.treat.clone(),
            lane: self.lane,
        }
    }
}

/// Law: what is switched off is in no mix: every cutaway that is rendered is on.
pub proof fn law_disabled_overlays_are_out(s: Seq<OverlayItem>, n: int)
    requires
        0 <= n <= s.len(),
        s.len() <= usize::MAX,
    ensures
        forall|k: int|
            0 <= k < live_overlays(s, n).len() ==> s[(#[trigger] live_overlays(s, n)[k]) as int].enabled,
        forall|i: int|
            0 <= i < n && (#[trigger] s[i]).enabled ==> live_overlays(s, n).contains(i as usize),
    decreases n,
{
    if n > 0 {
        law_disabled_overlays_are_out(s, n - 1);
        let p = live_overlays(s, n - 1);
        let q = live_overlays(s, n);
        assert forall|i: int| 0 <= i < n && (#[trigger] s[i]).enabled implies q.contains(i as usize) by {
            if i == n - 1 {
                assert(q[p.len() as int] == i as usize);
            } else {
                assert(p.contains(i as usize));
                let k = choose|k: int| 0 <= k < p.len() && p[k] == i as usize;
                assert(q[k] == i as usize);
            }
        }
    }
}

/// Law: what is rendered is read from the originals, never from a proxy: another
/// proxy changes nothing in the mix.
pub proof fn law_originals_are_rendered(
    c: Clip,
    o: OverlayItem,
    proxy: String,
    cs: ClipSpec,
    os: OverlaySpec,
    gain: int,
    solo: bool,
)
    ensures
        is_clip_spec(cs, c, gain, solo) ==> cs.path == c.path,
        is_overlay_spec(os, o, solo) ==> os.path == o.path,
        is_clip_spec(cs, c, gain, solo) <==> is_clip_spec(cs, Clip { proxy, ..c }, gain, solo),
        is_overlay_spec(os, o, solo) <==> is_overlay_spec(os, OverlayItem { proxy, ..o }, solo),
{
}

/// Law: with something soloed, no bed that is not soloed is heard.
pub proof fn law_solo_silences_the_rest(s: Seq<AudioItem>, m: MixerView, n: int)
    requires
        0 <= n <= s.len(),
        s.len() <= usize::MAX,
    ensures
        forall|k: int|
            0 <= k < heard_beds(s, m, true, n).len() ==> {
                let a = s[(#[trigger] heard_beds(s, m, true, n)[k]) as int];
                a.enabled && a.solo
            },
    decreases n,
{
    if n > 0 {
        law_solo_silences_the_rest(s, m, n - 1);
    }
}

/// Law: a muted strip has no gain, and where one is soloed neither has any other.
pub proof fn law_strip_gain(m: MixerView, track: int)
    requires
        0 <= track < m.tracks.len(),
    ensures
        m.tracks[track].mute ==> strip_gain(m, track) == 0,
        strip_solo(m) && !m.tracks[track].solo ==> strip_gain(m, track) == 0,
        !m.tracks[track].mute && !strip_solo(m) && m.tracks[track].gain == 1000 ==> strip_gain(m, track)
            == m.master,
{
}

/// The cards of one title.
fn title_specs(t: &TitleItem) -> (r: Vec<TitleSpec>)
    requires
        t@.wf(),
    ensures
        r@.len() == shown_cards(t@),
        forall|k: int| 0 <= k < r@.len() ==> is_title_spec(#[trigger] r@[k], t@, k, shown_cards(t@)),
{
    let segs: Vec<Segment> = t.segments();
    let n: usize = if segs.len() <= t.pngs.len() { segs.len() } else { t.pngs.len() };
    let mut r: Vec<TitleSpec> = Vec::new();
    let mut k: usize = 0;
    while k < n
        invariant
            k <= n,
            n == shown_cards(t@),
            segs@.len() == card_count(t@),
            n <= segs@.len(),
            n <= t.pngs@.len(),
            forall|j: int| 0 <= j < segs@.len() ==> is_segment(#[trigger] segs@[j], t@, j),
            r@.len() == k,
            forall|j: int| 0 <= j < k ==> is_title_spec(#[trigger] r@[j], t@, j, n as int),
        decreases n - k,
    {
        assert(is_segment(segs@[k as int], t@, k as int));
        r.push(
            TitleSpec {
                png: t.pngs[k].clone(),
                at: segs[k].at,
                dur: segs[k].dur,
                anim: if k == 0 { t.style.anim.clone() } else { None },
                fade_in: k == 0,
                fade_out: k == n - 1,
            },
        );
        k += 1;
    }
    r
}

proof fn lemma_cards_fit(s: Seq<TitleView>, list: Seq<usize>, i: int, n: int)
    requires
        0 <= i < n,
    ensures
        0 <= cards_before(s, list, i),
        cards_before(s, list, i) + shown_cards(s[list[i] as int]) <= cards_before(s, list, n),
    decreases n,
{
    if i == n - 1 {
        lemma_cards_nonneg(s, list, i);
    } else {
        lemma_cards_fit(s, list, i, n - 1);
    }
}

proof fn lemma_cards_nonneg(s: Seq<TitleView>, list: Seq<usize>, n: int)
    ensures
        0 <= cards_before(s, list, n),
    decreases n,
{
    if n > 0 {
        lemma_cards_nonneg(s, list, n - 1);
    }
}

impl Snapshot {
    /// Whether any item that is on is soloed.
    pub fn any_solo(&self) -> (r: bool)
        ensures
            r == any_solo(self@),
    {
        let mut i: usize = 0;
        while i < self.clips.len()
            invariant
                i <= self.clips@.len(),
                forall|k: int| 0 <= k < i ==> !((#[trigger] self@.clips[k]).enabled && self@.clips[k].solo),
            decreases self.clips@.len() - i,
        {
            if self.clips[i].enabled && self.clips[i].solo {
                assert(self@.clips[i as int].enabled);
                return true;
            }
            i += 1;
        }
        let mut i: usize = 0;
        while i < self.overlays.len()
            invariant
                i <= self.overlays@.len(),
                forall|k: int| 0 <= k < i ==> !((#[trigger] self@.overlays[k]).enabled && self@.overlays[k].solo),
            decreases self.overlays@.len() - i,
        {
            if self.overlays[i].enabled && self.overlays[i].solo {
                assert(self@.overlays[i as int].enabled);
                return true;
            }
            i += 1;
        }
        let mut i: usize = 0;
        while i < self.audios.len()
            invariant
                i <= self.audios@.len(),
                forall|k: int| 0 <= k < i ==> !((#[trigger] self@.audios[k]).enabled && self@.audios[k].solo),
            decreases self.audios@.len() - i,
        {
            if self.audios[i].enabled && self.audios[i].solo {
                assert(self@.audios[i as int].enabled);
                return true;
            }
            i += 1;
        }
        false
    }

    fn overlay_specs(&self, solo: bool) -> (r: Vec<OverlaySpec>)
        ensures
            ({
                let s = self@.overlays;
                let list = live_overlays(s, s.len() as int);
                exists|order: Seq<usize>| #[trigger]
                    by_number(order, overlay_keys(s, list)) && r@.len() == order.len() && forall|k: int|
                        0 <= k < order.len() ==> is_overlay_spec(
                            #[trigger] r@[k],
                            s[arranged(list, order)[k] as int],
                            solo,
                        )
            }),
    {
        let n: usize = self.overlays.len();
        let ghost s = self@.overlays;
        let mut list: Vec<usize> = Vec::new();
        let mut keys: Vec<Time> = Vec::new();
        let mut i: usize = 0;
        while i < n
            invariant
                i <= n,
                n == self.overlays@.len(),
                s == self@.overlays,
                list@ == live_overlays(s, i as int),
                keys@.len() == list@.len(),
                forall|k: int| 0 <= k < list@.len() ==> (#[trigger] list@[k]) < i && keys@[k] == s[list@[k] as int].track,
            decreases n - i,
        {
            if self.overlays[i].enabled {
                list.push(i);
                keys.push(self.overlays[i].track as Time);
            }
            i += 1;
        }
        assert(keys@ =~= overlay_keys(s, list@));
        let order: Vec<usize> = order_by_number(&keys);
        let mut r: Vec<OverlaySpec> = Vec::new();
        let mut k: usize = 0;
        while k < order.len()
            invariant
                k <= order@.len(),
                n == self.overlays@.len(),
                s == self@.overlays,
                list@ == live_overlays(s, n as int),
                by_number(order@, keys@),
                keys@.len() == list@.len(),
                forall|j: int| 0 <= j < list@.len() ==> (#[trigger] list@[j]) < n,
                r@.len() == k,
                forall|j: int|
                    0 <= j < k ==> is_overlay_spec(
                        #[trigger] r@[j],
                        s[arranged(list@, order@)[j] as int],
                        solo,
                    ),
            decreases order@.len() - k,
        {
            assert(order@[k as int] < list@.len());
            let at: usize = list[order[k]];
            assert(at == arranged(list@, order@)[k as int]);
            r.push(self.overlays[at].spec(solo));
            k += 1;
        }
        assert(by_number(order@, overlay_keys(s, live_overlays(s, s.len() as int))));
        r
    }

    fn all_title_specs(&self) -> (r: Vec<TitleSpec>)
        requires
            self@.wf(),
        ensures
            ({
                let s = self@.titles;
                let list = live_titles(s, s.len() as int);
                exists|order: Seq<usize>| #[trigger]
                    by_number(order, title_keys(s, list)) && are_title_specs(
                        r@,
                        s,
                        arranged(list, order),
                        order.len() as int,
                    )
            }),
    {
        let n: usize = self.titles.len();
        let ghost s = self@.titles;
        let mut list: Vec<usize> = Vec::new();
        let mut keys: Vec<Time> = Vec::new();
        let mut i: usize = 0;
        while i < n
            invariant
                i <= n,
                n == self.titles@.len(),
                s == self@.titles,
                list@ == live_titles(s, i as int),
                keys@.len() == list@.len(),
                forall|k: int| 0 <= k < list@.len() ==> (#[trigger] list@[k]) < i && keys@[k] == s[list@[k] as int].track,
            decreases n - i,
        {
            if self.titles[i].enabled && self.titles[i].pngs.len() > 0 {
                list.push(i);
                keys.push(self.titles[i].track as Time);
            }
            i += 1;
        }
        assert(keys@ =~= title_keys(s, list@));
        let order: Vec<usize> = order_by_number(&keys);
        let ghost places = arranged(list@, order@);
        let mut r: Vec<TitleSpec> = Vec::new();
        let mut k: usize = 0;
        assert(are_title_specs(r@, s, places, 0));
        while k < order.len()
            invariant
                k <= order@.len(),
                n == self.titles@.len(),
                s == self@.titles,
                self@.wf(),
                list@ == live_titles(s, n as int),
                by_number(order@, keys@),
                keys@.len() == list@.len(),
                places == arranged(list@, order@),
                forall|j: int| 0 <= j < list@.len() ==> (#[trigger] list@[j]) < n,
                are_title_specs(r@, s, places, k as int),
            decreases order@.len() - k,
        {
            assert(order@[k as int] < list@.len());
            let at: usize = list[order[k]];
            assert(at == places[k as int]);
            proof {
                crate::model::lemma_titles_ok_at(s, at as int);
            }
            let ghost before = r@;
            let mut more: Vec<TitleSpec> = title_specs(&self.titles[at]);
            let ghost extra = more@;
            r.append(&mut more);
            proof {
                assert(r@ =~= before + extra);
                assert forall|i: int, c: int|
                    0 <= i < k + 1 && 0 <= c < shown_cards(s[places[i] as int]) implies #[trigger] is_title_spec(
                    r@[cards_before(s, places, i) + c],
                    s[places[i] as int],
                    c,
                    shown_cards(s[places[i] as int]),
                ) by {
                    if i < k {
                        lemma_cards_fit(s, places, i, k as int);
                        assert(is_title_spec(
                            before[cards_before(s, places, i) + c],
                            s[places[i] as int],
                            c,
                            shown_cards(s[places[i] as int]),
                        ));
                    } else {
                        assert(is_title_spec(extra[c], s[at as int], c, shown_cards(s[at as int])));
                        assert(r@[before.len() + c] == extra[c]);
                    }
                }
            }
            k += 1;
        }
        assert(by_number(order@, title_keys(s, live_titles(s, s.len() as int))));
        r
    }

    fn audio_specs(&self, solo: bool) -> (r: Vec<AudioSpec>)
        ensures
            ({
                let s = self@.audios;
                let list = heard_beds(s, self@.mixer, solo, s.len() as int);
                &&& r@.len() == list.len()
                &&& forall|k: int|
                    0 <= k < list.len() ==> is_audio_spec(
                        #[trigger] r@[k],
                        s[list[k] as int],
                        strip_gain(self@.mixer, s[list[k] as int].lane as int),
                    )
            }),
    {
        let ghost s = self@.audios;
        let mut r: Vec<AudioSpec> = Vec::new();
        let mut i: usize = 0;
        while i < self.audios.len()
            invariant
                i <= self.audios@.len(),
                s == self@.audios,
                r@.len() == heard_beds(s, self@.mixer, solo, i as int).len(),
                forall|k: int|
                    0 <= k < r@.len() ==> is_audio_spec(
                        #[trigger] r@[k],
                        s[heard_beds(s, self@.mixer, solo, i as int)[k] as int],
                        strip_gain(
                            self@.mixer,
                            s[heard_beds(s, self@.mixer, solo, i as int)[k] as int].lane as int,
                        ),
                    ),
            decreases self.audios@.len() - i,
        {
            let a: &AudioItem = &self.audios[i];
            if a.enabled && !(solo && !a.solo) {
                let g: u64 = self.mixer.gain_of(a.lane);
                if g > 0 {
                    r.push(a.spec(g));
                }
            }
            i += 1;
        }
        r
    }

    /// Gather what preview and export are made of.
    pub fn gather_specs(&self) -> (r: Mix)
        requires
            self@.wf(),
        ensures
            is_mix(r, self@),
    {
        let solo: bool = self.any_solo();
        let gain: u64 = self.mixer.gain_of(0);
        let mut clips: Vec<ClipSpec> = Vec::new();
        let mut i: usize = 0;
        while i < self.clips.len()
            invariant
                i <= self.clips@.len(),
                clips@.len() == i,
                forall|k: int|
                    0 <= k < i ==> is_clip_spec(#[trigger] clips@[k], self@.clips[k], gain as int, solo),
            decreases self.clips@.len() - i,
        {
            clips.push(self.clips[i].spec(gain, solo));
            i += 1;
        }
        let adjustments: Vec<AdjustmentItem> = self.adjustments.clone();
        assert(adjustments@ =~= self.adjustments@);
        Mix {
            clips,
            overlays: self.overlay_specs(solo),
            titles: self.all_title_specs(),
            audios: self.audio_specs(solo),
            adjustments,
        }
    }
}

/// Nothing on a reel is soloed.
pub open spec fn unsoloed_reel(r: Reel) -> bool {
    &&& forall|i: int| 0 <= i < r.clips.len() ==> !(#[trigger] r.clips[i]).solo
    &&& forall|i: int| 0 <= i < r.overlays.len() ==> !(#[trigger] r.overlays[i]).solo
    &&& forall|i: int| 0 <= i < r.audios.len() ==> !(#[trigger] r.audios[i]).solo
}

/// A strip is heard: it is not muted, and no strip is soloed while it is not.
pub open spec fn strip_open(m: MixerView, track: int) -> bool {
    !m.tracks[track].mute && (m.tracks[track].solo || forall|i: int|
        0 <= i < m.tracks.len() ==> !(#[trigger] m.tracks[i]).solo)
}

/// Law: the strip of V1 scales the sound of every clip in the mix. A strip that is
/// muted or soloed out, and a master at nothing, silence all of them; fader and master
/// at unity leave each at its own level.
pub proof fn law_v1_strip_scales_every_clip(r: Mix, reel: Reel, i: int)
    requires
        is_mix(r, reel),
        0 <= i < reel.clips.len(),
        reel.mixer.tracks.len() > 0,
        unsoloed_reel(reel),
    ensures
        r.clips@.len() == reel.clips.len(),
        ({
            let m = reel.mixer;
            let v = r.clips@[i].volume as int;
            let own = reel.clips[i].volume as int;
            &&& v == own * strip_gain(m, 0) / 1000
            &&& !strip_open(m, 0) ==> v == 0
            &&& m.master == 0 ==> v == 0
            &&& strip_open(m, 0) ==> v == own * (m.tracks[0].gain * m.master / 1000) / 1000
            &&& strip_open(m, 0) && m.tracks[0].gain == 1000 && m.master == 1000 ==> v == own
            &&& !r.clips@[i].grey
        }),
{
    let m = reel.mixer;
    assert(is_clip_spec(r.clips@[i], reel.clips[i], strip_gain(m, 0), any_solo(reel)));
    assert(!any_solo(reel));
    let own = reel.clips[i].volume as int;
    if strip_solo(m) {
        let k = choose|k: int| 0 <= k < m.tracks.len() && (#[trigger] m.tracks[k]).solo;
        assert(m.tracks[k].solo);
    } else {
        assert forall|k: int| 0 <= k < m.tracks.len() implies !(#[trigger] m.tracks[k]).solo by {}
    }
    let g = m.tracks[0].gain as int;
    assert(m.master == 0 ==> g * m.master == 0) by (nonlinear_arith);
    assert(own * 0 / 1000 == 0) by (nonlinear_arith);
    assert(1000int * 1000 / 1000 == 1000);
    assert(own * 1000 / 1000 == own) by (nonlinear_arith);
}

/// Law: while a clip, cutaway or bed that is on is soloed, every clip that is on and
/// not soloed is grey and silent, and a soloed one is neither; solo that is off, or on
/// what is off, silences nothing.
pub proof fn law_solo_silences_other_clips(r: Mix, reel: Reel, i: int)
    requires
        is_mix(r, reel),
        0 <= i < reel.clips.len(),
    ensures
        ({
            let c = reel.clips[i];
            let s = r.clips@[i];
            let level = c.volume * strip_gain(reel.mixer, 0) / 1000;
            &&& c.enabled && !c.solo && (exists|k: int|
                0 <= k < reel.clips.len() && (#[trigger] reel.clips[k]).enabled && reel.clips[k].solo) ==> s.volume == 0
                && s.grey
            &&& c.enabled && !c.solo && (exists|k: int|
                0 <= k < reel.overlays.len() && (#[trigger] reel.overlays[k]).enabled && reel.overlays[k].solo)
                ==> s.volume == 0 && s.grey
            &&& c.enabled && !c.solo && (exists|k: int|
                0 <= k < reel.audios.len() && (#[trigger] reel.audios[k]).enabled && reel.audios[k].solo)
                ==> s.volume == 0 && s.grey
            &&& c.solo ==> s.volume == level && !s.grey
            &&& (forall|k: int| 0 <= k < reel.clips.len() && (#[trigger] reel.clips[k]).solo ==> !reel.clips[k].enabled)
                && (forall|k: int|
                0 <= k < reel.overlays.len() && (#[trigger] reel.overlays[k]).solo ==> !reel.overlays[k].enabled)
                && (forall|k: int|
                0 <= k < reel.audios.len() && (#[trigger] reel.audios[k]).solo ==> !reel.audios[k].enabled)
                ==> s.volume == level && !s.grey
        }),
{
    assert(is_clip_spec(r.clips@[i], reel.clips[i], strip_gain(reel.mixer, 0), any_solo(reel)));
}

/// Law: apart from its level, a clip is rendered as it stands on the track, in its
/// place.
pub proof fn law_clips_are_rendered_as_they_stand(r: Mix, reel: Reel, i: int)
    requires
        is_mix(r, reel),
        0 <= i < reel.clips.len(),
    ensures
        r.clips@.len() == reel.clips.len(),
        r.adjustments@ == reel.adjustments,
        ({
            let c = reel.clips[i];
            let s = r.clips@[i];
            &&& (s.path, s.in_s, s.out_s, s.speed, s.reverse) == (c.path, c.in_s, c.out_s, c.speed, c.reverse)
            &&& (s.look, s.framing, s.denoise, s.treat) == (c.look, c.framing, c.denoise, c.treat)
            &&& (s.transition, s.trans_dur, s.has_audio, s.enabled) == (
                c.transition,
                c.trans_dur,
                c.has_audio,
                c.enabled,
            )
        }),
{
    assert(is_clip_spec(r.clips@[i], reel.clips[i], strip_gain(reel.mixer, 0), any_solo(reel)));
}

/// Places in a list of `n`, rising.
pub open spec fn rising_places(list: Seq<usize>, n: int) -> bool {
    &&& forall|i: int| 0 <= i < list.len() ==> (#[trigger] list[i]) < n
    &&& forall|i: int, j: int| 0 <= i < j < list.len() ==> #[trigger] list[i] < #[trigger] list[j]
}

proof fn lemma_heard_beds(s: Seq<AudioItem>, m: MixerView, solo: bool, n: int)
    requires
        0 <= n <= s.len(),
        s.len() <= usize::MAX,
    ensures
        rising_places(heard_beds(s, m, solo, n), n),
        forall|i: int|
            0 <= i < n ==> (heard_beds(s, m, solo, n).contains(i as usize) <==> heard(#[trigger] s[i], m, solo)),
    decreases n,
{
    let q = heard_beds(s, m, solo, n);
    if n > 0 {
        lemma_heard_beds(s, m, solo, n - 1);
        let p = heard_beds(s, m, solo, n - 1);
        assert forall|i: int| 0 <= i < n implies (q.contains(i as usize) <==> heard(#[trigger] s[i], m, solo)) by {
            if i < n - 1 {
                if p.contains(i as usize) {
                    let k = choose|k: int| 0 <= k < p.len() && p[k] == i as usize;
                    assert(q[k] == i as usize);
                }
                if q.contains(i as usize) {
                    let k = choose|k: int| 0 <= k < q.len() && q[k] == i as usize;
                    assert(k < p.len());
                    assert(p[k] == i as usize);
                }
            } else if heard(s[i], m, solo) {
                assert(q[p.len() as int] == i as usize);
            } else if q.contains(i as usize) {
                let k = choose|k: int| 0 <= k < q.len() && q[k] == i as usize;
                assert(p[k] < n - 1);
            }
        }
    }
}

/// Law: the beds of the mix are, in order, those that are on, not soloed out, and on a
/// strip that lets something through; each is the bed as it stands, at its level times
/// the gain of its own lane's strip.
pub proof fn law_beds_follow_their_strips(r: Mix, reel: Reel) -> (list: Seq<usize>)
    requires
        is_mix(r, reel),
        reel.audios.len() <= usize::MAX,
    ensures
        rising_places(list, reel.audios.len() as int),
        r.audios@.len() == list.len(),
        forall|i: int|
            0 <= i < reel.audios.len() ==> (list.contains(i as usize) <==> {
                let a = #[trigger] reel.audios[i];
                a.enabled && (a.solo || !any_solo(reel)) && strip_gain(reel.mixer, a.lane as int) > 0
            }),
        forall|k: int|
            0 <= k < list.len() ==> {
                let a = reel.audios[list[k] as int];
                let s = #[trigger] r.audios@[k];
                let g = strip_gain(reel.mixer, a.lane as int);
                &&& (s.path, s.in_s, s.out_s, s.at, s.lane) == (a.path, a.in_s, a.out_s, a.at, a.lane)
                &&& (s.fade_in, s.fade_out, s.shaping, s.treat) == (a.fade_in, a.fade_out, a.shaping, a.treat)
                &&& s.volume == a.volume * g / 1000
                &&& a.vol_end is None ==> s.vol_end is None
                &&& a.vol_end matches Some(v) ==> s.vol_end matches Some(w) && w == v * g / 1000
            },
{
    let list = heard_beds(reel.audios, reel.mixer, any_solo(reel), reel.audios.len() as int);
    lemma_heard_beds(reel.audios, reel.mixer, any_solo(reel), reel.audios.len() as int);
    assert forall|k: int| 0 <= k < list.len() implies {
        let a = reel.audios[list[k] as int];
        let s = #[trigger] r.audios@[k];
        let g = strip_gain(reel.mixer, a.lane as int);
        &&& (s.path, s.in_s, s.out_s, s.at, s.lane) == (a.path, a.in_s, a.out_s, a.at, a.lane)
        &&& (s.fade_in, s.fade_out, s.shaping, s.treat) == (a.fade_in, a.fade_out, a.shaping, a.treat)
        &&& s.volume == a.volume * g / 1000
        &&& a.vol_end is None ==> s.vol_end is None
        &&& a.vol_end matches Some(v) ==> s.vol_end matches Some(w) && w == v * g / 1000
    } by {
        let a = reel.audios[list[k] as int];
        assert(is_audio_spec(r.audios@[k], a, strip_gain(reel.mixer, a.lane as int)));
    }
    list
}

/// Law: the gain of a strip is its fader times the master, and nothing where it is
/// muted or another strip is soloed and it is not. A strip that is missing is one at
/// unity.
pub proof fn law_strip_gain_is_fader_times_master(m: MixerView, track: int)
    requires
        0 <= track,
    ensures
        track < m.tracks.len() && !strip_open(m, track) ==> strip_gain(m, track) == 0,
        track < m.tracks.len() && strip_open(m, track) ==> 1000 * strip_gain(m, track) <= m.tracks[track].gain
            * m.master < 1000 * strip_gain(m, track) + 1000,
        track >= m.tracks.len() && (forall|i: int| 0 <= i < m.tracks.len() ==> !(#[trigger] m.tracks[i]).solo)
            ==> strip_gain(m, track) == m.master,
{
    if track < m.tracks.len() {
        let p = m.tracks[track].gain * m.master;
        assert(1000 * (p / 1000) <= p < 1000 * (p / 1000) + 1000);
        if strip_solo(m) {
            let k = choose|k: int| 0 <= k < m.tracks.len() && (#[trigger] m.tracks[k]).solo;
            assert(m.tracks[k].solo);
        }
    } else {
        assert(1000 * m.master / 1000 == m.master);
    }
}

/// Law: the cutaways of the mix are those that are on, each once and as it stands, the
/// lower track under the higher and on one track in the order they were added.
pub proof fn law_cutaways_are_rendered_by_track(r: Mix, reel: Reel) -> (list: Seq<usize>)
    requires
        is_mix(r, reel),
        reel.overlays.len() <= usize::MAX,
    ensures
        r.overlays@.len() == list.len(),
        forall|k: int| 0 <= k < list.len() ==> (#[trigger] list[k]) < reel.overlays.len(),
        forall|i: int| 0 <= i < reel.overlays.len() ==> (list.contains(i as usize) <==> (#[trigger] reel.overlays[i]).enabled),
        forall|j: int, k: int|
            0 <= j < k < list.len() ==> {
                let a = reel.overlays[#[trigger] list[j] as int].track;
                let b = reel.overlays[#[trigger] list[k] as int].track;
                a < b || (a == b && list[j] < list[k])
            },
        forall|k: int|
            0 <= k < list.len() ==> {
                let o = reel.overlays[list[k] as int];
                let s = #[trigger] r.overlays@[k];
                &&& (s.path, s.in_s, s.out_s, s.at, s.speed, s.reverse) == (
                    o.path,
                    o.in_s,
                    o.out_s,
                    o.at,
                    o.speed,
                    o.reverse,
                )
                &&& (s.look, s.framing, s.blend) == (o.look, o.framing, o.blend)
                &&& s.grey == (any_solo(reel) && !o.solo)
            },
{
    let o = reel.overlays;
    let live = live_overlays(o, o.len() as int);
    let order = choose|order: Seq<usize>| #[trigger]
        by_number(order, overlay_keys(o, live)) && r.overlays@.len() == order.len() && forall|k: int|
            0 <= k < order.len() ==> is_overlay_spec(
                #[trigger] r.overlays@[k],
                o[arranged(live, order)[k] as int],
                any_solo(reel),
            );
    let list = arranged(live, order);
    law_disabled_overlays_are_out(o, o.len() as int);
    lemma_live_overlays(o, o.len() as int);
    assert forall|i: int| 0 <= i < o.len() implies (list.contains(i as usize) <==> (#[trigger] o[i]).enabled) by {
        if o[i].enabled {
            assert(live.contains(i as usize));
            let k = choose|k: int| 0 <= k < live.len() && live[k] == i as usize;
            let v = k as usize;
            assert(k <= live[k]) by {
                lemma_rising(live, o.len() as int, k);
            }
            assert(v == k);
            assert(order.contains(v));
            let j = choose|j: int| 0 <= j < order.len() && order[j] == v;
            assert(list[j] == i as usize);
        }
        if list.contains(i as usize) {
            let j = choose|j: int| 0 <= j < list.len() && list[j] == i as usize;
            assert(order[j] < live.len());
            assert(o[live[order[j] as int] as int].enabled);
        }
    }
    assert forall|j: int, k: int| 0 <= j < k < list.len() implies {
        let a = o[#[trigger] list[j] as int].track;
        let b = o[#[trigger] list[k] as int].track;
        a < b || (a == b && list[j] < list[k])
    } by {
        assert(order[j] < live.len() && order[k] < live.len());
        assert(overlay_keys(o, live)[order[j] as int] == o[list[j] as int].track);
        assert(overlay_keys(o, live)[order[k] as int] == o[list[k] as int].track);
        if order[j] < order[k] {
            assert(live[order[j] as int] < live[order[k] as int]);
        }
    }
    assert forall|k: int| 0 <= k < list.len() implies (#[trigger] list[k]) < o.len() by {
        assert(order[k] < live.len());
        assert(live[order[k] as int] < o.len());
    }
    assert forall|k: int| 0 <= k < list.len() implies {
        let x = o[list[k] as int];
        let s = #[trigger] r.overlays@[k];
        &&& (s.path, s.in_s, s.out_s, s.at, s.speed, s.reverse) == (x.path, x.in_s, x.out_s, x.at, x.speed, x.reverse)
        &&& (s.look, s.framing, s.blend) == (x.look, x.framing, x.blend)
        &&& s.grey == (any_solo(reel) && !x.solo)
    } by {
        assert(is_overlay_spec(r.overlays@[k], o[list[k] as int], any_solo(reel)));
    }
    list
}

proof fn lemma_live_overlays(s: Seq<OverlayItem>, n: int)
    requires
        0 <= n <= s.len(),
        s.len() <= usize::MAX,
    ensures
        rising_places(live_overlays(s, n), n),
    decreases n,
{
    if n > 0 {
        lemma_live_overlays(s, n - 1);
    }
}

/// Law: a card in the mix lies in its title's span: it is up no earlier than its title
/// and no longer; only the first card of a title fades in, and only the last one out.
pub proof fn law_rendered_cards_lie_in_their_title(s: TitleSpec, t: TitleView, k: int)
    requires
        t.wf(),
        0 <= k < shown_cards(t),
        is_title_spec(s, t, k, shown_cards(t)),
    ensures
        t.at <= s.at,
        s.at + s.dur <= t.at + t.dur,
        s.png == t.pngs[k],
        k == 0 ==> s.at == t.at && s.fade_in && s.anim == t.style.anim,
        k > 0 ==> !s.fade_in && s.anim is None,
        s.fade_out == (k == shown_cards(t) - 1),
        card_count(t) == 1 ==> s.dur == t.dur,
{
    crate::titles::law_cards_tile_the_title(t, k);
    if k + 1 < card_count(t) {
        crate::titles::law_cards_tile_the_title(t, k + 1);
    }
    assert(0 * crate::titles::card_step(t) == 0) by (nonlinear_arith);
}

proof fn lemma_rising(list: Seq<usize>, n: int, k: int)
    requires
        rising_places(list, n),
        0 <= k < list.len(),
    ensures
        k <= list[k],
    decreases k,
{
    if k > 0 {
        lemma_rising(list, n, k - 1);
        assert(list[k - 1] < list[k]);
    }
}

proof fn lemma_live_titles(s: Seq<TitleView>, n: int)
    requires
        0 <= n <= s.len(),
        s.len() <= usize::MAX,
    ensures
        rising_places(live_titles(s, n), n),
        forall|i: int|
            0 <= i < n ==> (live_titles(s, n).contains(i as usize) <==> (#[trigger] s[i]).enabled && s[i].pngs.len() > 0),
    decreases n,
{
    if n > 0 {
        lemma_live_titles(s, n - 1);
        let p = live_titles(s, n - 1);
        let q = live_titles(s, n);
        assert forall|i: int| 0 <= i < n implies (q.contains(i as usize) <==> (#[trigger] s[i]).enabled && s[i].pngs.len()
            > 0) by {
            if i < n - 1 {
                if p.contains(i as usize) {
                    let k = choose|k: int| 0 <= k < p.len() && p[k] == i as usize;
                    assert(q[k] == i as usize);
                }
                if q.contains(i as usize) {
                    let k = choose|k: int| 0 <= k < q.len() && q[k] == i as usize;
                    assert(k < p.len());
                    assert(p[k] == i as usize);
                }
            } else if s[i].enabled && s[i].pngs.len() > 0 {
                assert(q[p.len() as int] == i as usize);
            } else if q.contains(i as usize) {
                let k = choose|k: int| 0 <= k < q.len() && q[k] == i as usize;
                assert(p[k] < n - 1);
            }
        }
    }
}

/// Law: the titles of the mix are those that are on and drawn, each once, the lower
/// track under the higher; each gives its cards one behind the other, at their times.
pub proof fn law_titles_are_rendered_by_track(r: Mix, reel: Reel) -> (list: Seq<usize>)
    requires
        is_mix(r, reel),
        reel.titles.len() <= usize::MAX,
    ensures
        r.titles@.len() == cards_before(reel.titles, list, list.len() as int),
        forall|k: int| 0 <= k < list.len() ==> (#[trigger] list[k]) < reel.titles.len(),
        forall|i: int|
            0 <= i < reel.titles.len() ==> (list.contains(i as usize) <==> (#[trigger] reel.titles[i]).enabled
                && reel.titles[i].pngs.len() > 0),
        forall|j: int, k: int|
            0 <= j < k < list.len() ==> {
                let a = reel.titles[#[trigger] list[j] as int].track;
                let b = reel.titles[#[trigger] list[k] as int].track;
                a < b || (a == b && list[j] < list[k])
            },
        forall|i: int, k: int|
            0 <= i < list.len() && 0 <= k < shown_cards(reel.titles[list[i] as int]) ==> {
                let s = #[trigger] r.titles@[cards_before(reel.titles, list, i) + k];
                let t = reel.titles[list[i] as int];
                &&& s.png == t.pngs[k]
                &&& s.at == card_start(t, k) && s.dur == card_dur(t, k)
                &&& s.fade_in == (k == 0)
            },
{
    let t = reel.titles;
    let up = live_titles(t, t.len() as int);
    let order = choose|order: Seq<usize>| #[trigger]
        by_number(order, title_keys(t, up)) && are_title_specs(r.titles@, t, arranged(up, order), order.len() as int);
    let list = arranged(up, order);
    lemma_live_titles(t, t.len() as int);
    assert forall|i: int| 0 <= i < t.len() implies (list.contains(i as usize) <==> (#[trigger] t[i]).enabled
        && t[i].pngs.len() > 0) by {
        if up.contains(i as usize) {
            let k = choose|k: int| 0 <= k < up.len() && up[k] == i as usize;
            let v = k as usize;
            assert(k <= up[k]) by {
                lemma_rising(up, t.len() as int, k);
            }
            assert(v == k);
            assert(order.contains(v));
            let j = choose|j: int| 0 <= j < order.len() && order[j] == v;
            assert(list[j] == i as usize);
        }
        if list.contains(i as usize) {
            let j = choose|j: int| 0 <= j < list.len() && list[j] == i as usize;
            assert(order[j] < up.len());
            assert(up[order[j] as int] == i as usize);
        }
    }
    assert forall|j: int, k: int| 0 <= j < k < list.len() implies {
        let a = t[#[trigger] list[j] as int].track;
        let b = t[#[trigger] list[k] as int].track;
        a < b || (a == b && list[j] < list[k])
    } by {
        assert(order[j] < up.len() && order[k] < up.len());
        assert(title_keys(t, up)[order[j] as int] == t[list[j] as int].track);
        assert(title_keys(t, up)[order[k] as int] == t[list[k] as int].track);
        if order[j] < order[k] {
            assert(up[order[j] as int] < up[order[k] as int]);
        }
    }
    assert forall|k: int| 0 <= k < list.len() implies (#[trigger] list[k]) < t.len() by {
        assert(order[k] < up.len());
        assert(up[order[k] as int] < t.len());
    }
    assert forall|i: int, k: int| 0 <= i < list.len() && 0 <= k < shown_cards(t[list[i] as int]) implies {
        let s = #[trigger] r.titles@[cards_before(t, list, i) + k];
        let c = t[list[i] as int];
        &&& s.png == c.pngs[k]
        &&& s.at == card_start(c, k) && s.dur == card_dur(c, k)
        &&& s.fade_in == (k == 0)
    } by {
        assert(is_title_spec(
            r.titles@[cards_before(t, list, i) + k],
            t[list[i] as int],
            k,
            shown_cards(t[list[i] as int]),
        ));
    }
    list
}

} // verus!
