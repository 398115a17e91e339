//! What the monitor shows at a reel position: the clip there, what lies over it,
//! the blend it is in, and the cards on top.

use crate::cuts::scrub_of;
use crate::mix::{any_solo, arranged, live_overlays, live_titles, overlay_keys, title_keys};
use crate::model::{AdjustmentItem, Clip, Look, OverlayItem, Reel, Snapshot, TitleItem, TitleView};
use crate::sorting::{by_number, order_by_number};
use crate::time::{on_axis, Time};
use crate::titles::{card_count, card_dur, card_start};
use crate::track::{
    blend_at, locate, located, run_length, run_of, source_in, source_of, transition_at,
};
use vstd::prelude::*;

verus! {

/// A picture to be read and drawn.
pub struct Layer {
    pub path: String,
    /// The source position.
    pub at: Time,
    pub framing: String,
    pub look: Look,
    /// Whether it shows without colour, because something else is soloed.
    pub grey: bool,
}

/// A card over the picture, with the title's span, which its fade follows.
pub struct CardLayer {
    pub png: String,
    pub at: Time,
    pub dur: Time,
}

/// The incoming half of a transition, and how far it has faded in, in thousandths.
pub struct BlendLayer {
    pub layer: Layer,
    pub alpha: Time,
}

/// What goes over the base picture.
pub struct Over {
    pub layers: Vec<Layer>,
    pub titles: Vec<CardLayer>,
    pub adjust: Vec<AdjustmentItem>,
    pub blend: Option<BlendLayer>,
}

/// What the monitor is to show.
pub enum MonitorPlan {
    /// Nothing to draw: the reel is empty.
    Keep,
    /// A black frame: the clip there is switched off.
    Black,
    /// A picture with what goes over it.
    Draw { base: Layer, over: Over },
}

/// The layer of a clip at a source position.
pub open spec fn is_clip_layer(l: Layer, c: Clip, at: int, solo: bool) -> bool {
    &&& l.path == scrub_of(c)
    &&& l.at == at
    &&& l.framing == c.framing
    &&& l.look == c.look
    &&& l.grey == (solo && !c.solo)
}

/// The file scrubbing a cutaway reads.
pub open spec fn overlay_scrub(o: OverlayItem) -> String {
    if o.proxy@.len() > 0 { o.proxy } else { o.path }
}

/// The layer of a cutaway at a reel position.
pub open spec fn is_overlay_layer(l: Layer, o: OverlayItem, t: Time, solo: bool) -> bool {
    &&& l.path == overlay_scrub(o)
    &&& l.at == source_in(o.in_s, o.out_s, o.speed, o.reverse, t - o.at)
    &&& l.framing == o.framing
    &&& l.look == o.look
    &&& l.grey == (solo && !o.solo)
}

/// Whether a cutaway is up at `t`.
pub open spec fn overlay_up(o: OverlayItem, t: Time) -> bool {
    o.enabled && o.at <= t < o.at + run_of(o.in_s, o.out_s, o.speed)
}

/// Whether a title is up at `t`.
pub open spec fn title_up(c: TitleView, t: Time) -> bool {
    c.enabled && c.at <= t < c.at + c.dur && c.pngs.len() > 0
}

/// Whether an adjustment layer changes the picture at `t`.
pub open spec fn layer_up(a: AdjustmentItem, t: Time) -> bool {
    a.enabled && a.at <= t < a.at + a.dur && (a.effect is Some || a.grade != 0)
}

/// The places of the cutaways up at `t`, among the first `n`.
pub open spec fn overlays_up(s: Seq<OverlayItem>, t: Time, n: int) -> Seq<usize>
    decreases n,
{
    if n <= 0 {
        Seq::empty()
    } else if overlay_up(s[n - 1], t) {
        overlays_up(s, t, n - 1).push((n - 1) as usize)
    } else {
        overlays_up(s, t, n - 1)
    }
}

/// The places of the titles up at `t`, among the first `n`.
pub open spec fn titles_up(s: Seq<TitleView>, t: Time, n: int) -> Seq<usize>
    decreases n,
{
    if n <= 0 {
        Seq::empty()
    } else if title_up(s[n - 1], t) {
        titles_up(s, t, n - 1).push((n - 1) as usize)
    } else {
        titles_up(s, t, n - 1)
    }
}

/// The adjustment layers at work at `t`, among the first `n`.
pub open spec fn layers_up(s: Seq<AdjustmentItem>, t: Time, n: int) -> Seq<AdjustmentItem>
    decreases n,
{
    if n <= 0 {
        Seq::empty()
    } else if layer_up(s[n - 1], t) {
        layers_up(s, t, n - 1).push(s[n - 1])
    } else {
        layers_up(s, t, n - 1)
    }
}

/// The card of a title that shows at `t`: the one of its run that is up, or the
/// last that was rendered.
pub open spec fn is_card(c: CardLayer, title: TitleView, t: Time) -> bool {
    &&& c.at == title.at
    &&& c.dur == title.dur
    &&& exists|k: int| 0 <= k < card_count(title) && #[trigger] card_start(title, k) <= t < card_start(title, k)
        + card_dur(title, k) && c.png == title.pngs[if k < title.pngs.len() { k } else { title.pngs.len() - 1 }]
}

/// The cutaways over the picture, the lowest track first; none where they are hidden.
pub open spec fn are_layers(r: Seq<Layer>, s: Seq<OverlayItem>, t: Time, solo: bool, show: bool) -> bool {
    let list = overlays_up(s, t, s.len() as int);
    if !show {
        r.len() == 0
    } else {
        exists|order: Seq<usize>| #[trigger]
            by_number(order, overlay_keys(s, list)) && r.len() == order.len() && forall|k: int|
                0 <= k < order.len() ==> is_overlay_layer(#[trigger] r[k], s[arranged(list, order)[k] as int], t, solo)
    }
}

/// The cards over the picture, the lowest track first; none where they are hidden.
pub open spec fn are_cards(r: Seq<CardLayer>, s: Seq<TitleView>, t: Time, show: bool) -> bool {
    let list = titles_up(s, t, s.len() as int);
    if !show {
        r.len() == 0
    } else {
        exists|order: Seq<usize>| #[trigger]
            by_number(order, title_keys(s, list)) && r.len() == order.len() && forall|k: int|
                0 <= k < order.len() ==> is_card(#[trigger] r[k], s[arranged(list, order)[k] as int], t)
    }
}

/// The incoming half of the transition at `t`, where there is one and its clip is on.
pub open spec fn is_blend(b: Option<BlendLayer>, clips: Seq<Clip>, t: Time, solo: bool) -> bool {
    match blend_at(clips, t as int) {
        None => b is None,
        Some((next, alpha, at)) => if clips[next].enabled {
            b matches Some(x) && x.alpha == alpha && is_clip_layer(x.layer, clips[next], at, solo)
        } else {
            b is None
        },
    }
}

/// What the monitor shows at `t`.
pub open spec fn is_plan(p: MonitorPlan, r: Reel, t: Time, show_titles: bool, show_overlays: bool) -> bool {
    let solo = any_solo(r);
    match located(r.clips, t as int) {
        Some((i, at)) => if !r.clips[i].enabled {
            p is Black
        } else {
            &&& p matches MonitorPlan::Draw { base, over }
            &&& is_clip_layer(base, r.clips[i], at, solo)
            &&& are_layers(over.layers@, r.overlays, t, solo, show_overlays)
            &&& are_cards(over.titles@, r.titles, t, show_titles)
            &&& over.adjust@ == layers_up(r.adjustments, t, r.adjustments.len() as int)
            &&& is_blend(over.blend, r.clips, t, solo)
        },
        None => if !show_overlays || overlays_up(r.overlays, t, r.overlays.len() as int).len() == 0 {
            p is Keep
        } else {
            &&& p matches MonitorPlan::Draw { base, over }
            &&& are_layers(seq![base] + over.layers@, r.overlays, t, solo, true)
            &&& are_cards(over.titles@, r.titles, t, show_titles)
            &&& over.adjust@ == layers_up(r.adjustments, t, r.adjustments.len() as int)
            &&& over.blend is None
        },
    }
}

/// A plan that shows one frame of a cutaway's source, in its look and with nothing over it.
pub open spec fn is_source_frame(p: MonitorPlan, o: OverlayItem, at: Time) -> bool {
    &&& p matches MonitorPlan::Draw { base, over }
    &&& base.path == overlay_scrub(o)
    &&& base.at == at
    &&& base.framing == o.framing
    &&& base.look == o.look
    &&& !base.grey
    &&& over.layers@.len() == 0
    &&& over.titles@.len() == 0
    &&& over.adjust@.len() == 0
    &&& over.blend is None
}

impl OverlayItem {
    /// The plan that shows the frame of the source at `at`.
    pub(crate) fn source_frame(&self, at: Time) -> (r: MonitorPlan)
        ensures
            is_source_frame(r, *self, at),
    {
        let base: Layer = Layer {
            path: self.scrub_path(),
            at,
            framing: self.framing.clone(),
            look: self.look.clone(),
            grey: false,
        };
        let over: Over = Over { layers: Vec::new(), titles: Vec::new(), adjust: Vec::new(), blend: None };
        MonitorPlan::Draw { base, over }
    }

    /// The file scrubbing reads.
    pub fn scrub_path(&self) -> (r: String)
        ensures
            r == overlay_scrub(*self),
    {
        if !self.proxy.as_str().is_empty() { self.proxy.clone() } else { self.path.clone() }
    }

    /// How long the cutaway runs on the reel.
    pub fn trimmed(&self) -> (r: Time)
        requires
            self.wf(),
        ensures
            r == run_of(self.in_s, self.out_s, self.speed),
            0 <= r <= crate::track::LONGEST_RUN,
    {
        run_length(self.in_s, self.out_s, self.speed)
    }

    fn layer(&self, t: Time, solo: bool) -> (r: Layer)
        requires
            self.wf(),
            on_axis(t),
        ensures
            is_overlay_layer(r, *self, t, solo),
    {
        Layer {
            path: self.scrub_path(),
            at: source_of(self.in_s, self.out_s, self.speed, self.reverse, t - self.at),
            framing: self.framing.clone(),
            look: self.look.clone(),
            grey: solo && !self.solo,
        }
    }
}

impl Clip {
    fn layer(&self, at: Time, solo: bool) -> (r: Layer)
        ensures
            is_clip_layer(r, *self, at as int, solo),
    {
        Layer {
            path: self.scrub_path(),
            at,
            framing: self.framing.clone(),
            look: self.look.clone(),
            grey: solo && !self.solo,
        }
    }
}

impl TitleItem {
    fn card(&self, t: Time) -> (r: CardLayer)
        requires
            self@.wf(),
            on_axis(t),
            title_up(self@, t),
        ensures
            is_card(r, self@, t),
    {
        let n: usize = self.pngs.len();
        let k: usize = match self.card_at(t) {
            Some(k) => k,
            None => 0,
        };
        assert(card_start(self@, k as int) <= t);
        let p: usize = if k < n { k } else { n - 1 };
        CardLayer { png: self.pngs[p].clone(), at: self.at, dur: self.dur }
    }
}

impl Snapshot {
    fn layers_at(&self, t: Time, solo: bool) -> (r: Vec<Layer>)
        requires
            self@.wf(),
            on_axis(t),
        ensures
            are_layers(r@, self@.overlays, t, solo, true),
            r@.len() == overlays_up(self@.overlays, t, self@.overlays.len() as int).len(),
    {
        let n: usize = self.overlays.len();
        let ghost s = self@.overlays;
        let mut list: Vec<usize> = Vec::new();
        let mut keys: Vec<Time> = Vec::new();
        let mut i: usize = 0;
        while i < n
            invariant
                i <= n,
                n == self.overlays@.len(),
                s == self@.overlays,
                self@.wf(),
                on_axis(t),
                list@ == overlays_up(s, t, i as int),
                keys@.len() == list@.len(),
                forall|k: int| 0 <= k < list@.len() ==> (#[trigger] list@[k]) < i && keys@[k] == s[list@[k] as int].track,
            decreases n - i,
        {
            proof {
                crate::model::lemma_overlays_ok_at(s, i as int);
            }
            let o: &OverlayItem = &self.overlays[i];
            if o.enabled && o.at <= t && t < o.at + o.trimmed() {
                list.push(i);
                keys.push(self.overlays[i].track as Time);
            }
            i += 1;
        }
        assert(keys@ =~= overlay_keys(s, list@));
        let order: Vec<usize> = order_by_number(&keys);
        let mut r: Vec<Layer> = Vec::new();
        let mut k: usize = 0;
        while k < order.len()
            invariant
                k <= order@.len(),
                n == self.overlays@.len(),
                s == self@.overlays,
                self@.wf(),
                on_axis(t),
                by_number(order@, keys@),
                keys@.len() == list@.len(),
                forall|j: int| 0 <= j < list@.len() ==> (#[trigger] list@[j]) < n,
                r@.len() == k,
                forall|j: int|
                    0 <= j < k ==> is_overlay_layer(
                        #[trigger] r@[j],
                        s[arranged(list@, order@)[j] as int],
                        t,
                        solo,
                    ),
            decreases order@.len() - k,
        {
            assert(order@[k as int] < list@.len());
            let at: usize = list[order[k]];
            assert(at == arranged(list@, order@)[k as int]);
            proof {
                crate::model::lemma_overlays_ok_at(s, at as int);
            }
            r.push(self.overlays[at].layer(t, solo));
            k += 1;
        }
        assert(by_number(order@, overlay_keys(s, overlays_up(s, t, s.len() as int))));
        r
    }

    fn cards_at(&self, t: Time) -> (r: Vec<CardLayer>)
        requires
            self@.wf(),
            on_axis(t),
        ensures
            are_cards(r@, self@.titles, t, true),
    {
        let n: usize = self.titles.len();
        let ghost s = self@.titles;
        let mut list: Vec<usize> = Vec::new();
        let mut keys: Vec<Time> = Vec::new();
        let mut i: usize = 0;
        while i < n
            invariant
                i <= n,
                n == self.titles@.len(),
                s == self@.titles,
                self@.wf(),
                on_axis(t),
                list@ == titles_up(s, t, i as int),
                keys@.len() == list@.len(),
                forall|k: int|
                    0 <= k < list@.len() ==> (#[trigger] list@[k]) < i && keys@[k] == s[list@[k] as int].track
                        && title_up(s[list@[k] as int], t),
            decreases n - i,
        {
            proof {
                crate::model::lemma_titles_ok_at(s, i as int);
            }
            let c: &TitleItem = &self.titles[i];
            if c.enabled && c.at <= t && t < c.at + c.dur && c.pngs.len() > 0 {
                list.push(i);
                keys.push(self.titles[i].track as Time);
            }
            i += 1;
        }
        assert(keys@ =~= title_keys(s, list@));
        let order: Vec<usize> = order_by_number(&keys);
        let mut r: Vec<CardLayer> = Vec::new();
        let mut k: usize = 0;
        while k < order.len()
            invariant
                k <= order@.len(),
                n == self.titles@.len(),
                s == self@.titles,
                self@.wf(),
                on_axis(t),
                by_number(order@, keys@),
                keys@.len() == list@.len(),
                forall|j: int|
                    0 <= j < list@.len() ==> (#[trigger] list@[j]) < n && title_up(s[list@[j] as int], t),
                r@.len() == k,
                forall|j: int|
                    0 <= j < k ==> is_card(#[trigger] r@[j], s[arranged(list@, order@)[j] as int], t),
            decreases order@.len() - k,
        {
            assert(order@[k as int] < list@.len());
            let at: usize = list[order[k]];
            assert(at == arranged(list@, order@)[k as int]);
            proof {
                crate::model::lemma_titles_ok_at(s, at as int);
                assert(title_up(s[at as int], t));
            }
            r.push(self.titles[at].card(t));
            k += 1;
        }
        assert(by_number(order@, title_keys(s, titles_up(s, t, s.len() as int))));
        r
    }

    fn adjust_at(&self, t: Time) -> (r: Vec<AdjustmentItem>)
        requires
            self@.wf(),
            on_axis(t),
        ensures
            r@ == layers_up(self@.adjustments, t, self@.adjustments.len() as int),
    {
        let mut r: Vec<AdjustmentItem> = Vec::new();
        let mut i: usize = 0;
        while i < self.adjustments.len()
            invariant
                i <= self.adjustments@.len(),
                self@.wf(),
                r@ == layers_up(self@.adjustments, t, i as int),
            decreases self.adjustments@.len() - i,
        {
            proof {
                crate::model::lemma_adjustments_ok_at(self@.adjustments, i as int);
            }
            let a: &AdjustmentItem = &self.adjustments[i];
            if a.enabled && a.at <= t && t < a.at + a.dur && (a.effect.is_some() || a.grade != 0) {
                r.push(a.clone());
            }
            i += 1;
        }
        r
    }

    fn blend_layer(&self, t: Time, solo: bool) -> (r: Option<BlendLayer>)
        requires
            self@.wf(),
            on_axis(t),
        ensures
            is_blend(r, self@.clips, t, solo),
    {
        match transition_at(&self.clips, t) {
            Some((next, alpha, at)) => if self.clips[next].enabled {
                Some(BlendLayer { layer: self.clips[next].layer(at, solo), alpha })
            } else {
                None
            },
            None => None,
        }
    }

    /// What the monitor shows at `t`: as the export will have it, so that stacks,
    /// blends and cards read the same.
    pub fn refresh_monitor(&self, t: Time, show_titles: bool, show_overlays: bool) -> (r: MonitorPlan)
        requires
            self@.wf(),
            on_axis(t),
        ensures
            is_plan(r, self@, t, show_titles, show_overlays),
    {
        let solo: bool = self.any_solo();
        let titles: Vec<CardLayer> = if show_titles { self.cards_at(t) } else { Vec::new() };
        let mut layers: Vec<Layer> = if show_overlays { self.layers_at(t, solo) } else { Vec::new() };
        let adjust: Vec<AdjustmentItem> = self.adjust_at(t);
        match locate(&self.clips, t) {
            Some((i, at)) => {
                if !self.clips[i].enabled {
                    return MonitorPlan::Black;
                }
                let base: Layer = self.clips[i].layer(at, solo);
                let blend: Option<BlendLayer> = self.blend_layer(t, solo);
                MonitorPlan::Draw { base, over: Over { layers, titles, adjust, blend } }
            },
            None => {
                if layers.len() == 0 {
                    return MonitorPlan::Keep;
                }
                let ghost all = layers@;
                let base: Layer = layers.remove(0);
                assert(seq![base] + layers@ =~= all);
                MonitorPlan::Draw { base, over: Over { layers, titles, adjust, blend: None } }
            },
        }
    }
}

/// Whether item `a` lies under item `b`: on a lower track, or before it on the same.
pub open spec fn under_item(tracks: Seq<Time>, a: usize, b: usize) -> bool {
    tracks[a as int] < tracks[b as int] || (tracks[a as int] == tracks[b as int] && a < b)
}

/// What is shown lies as in what is rendered: it is part of it, and what lies
/// under something in one lies under it in the other.
pub open spec fn stacked_alike(shown: Seq<usize>, rendered: Seq<usize>) -> bool {
    &&& forall|x: usize| #[trigger] shown.contains(x) ==> rendered.contains(x)
    &&& forall|i: int, j: int, a: int, b: int|
        0 <= i < shown.len() && 0 <= j < shown.len() && 0 <= a < rendered.len() && 0 <= b < rendered.len()
            && #[trigger] shown[i] == #[trigger] rendered[a] && #[trigger] shown[j] == #[trigger] rendered[b] ==> (i < j
            <==> a < b)
}

/// A list of places in rising order.
spec fn listed(list: Seq<usize>, n: int) -> bool {
    &&& forall|k: int| 0 <= k < list.len() ==> (#[trigger] list[k]) < n
    &&& forall|j: int, k: int| 0 <= j < k < list.len() ==> #[trigger] list[j] < #[trigger] list[k]
}

/// A list put in the order of its tracks is stacked from low to high, and holds
/// what it held.
proof fn lemma_arranged(list: Seq<usize>, keys: Seq<Time>, order: Seq<usize>, tracks: Seq<Time>)
    requires
        listed(list, tracks.len() as int),
        keys.len() == list.len(),
        forall|k: int| 0 <= k < list.len() ==> #[trigger] keys[k] == tracks[list[k] as int],
        by_number(order, keys),
    ensures
        forall|i: int, j: int|
            0 <= i < j < order.len() ==> under_item(
                tracks,
                #[trigger] arranged(list, order)[i],
                #[trigger] arranged(list, order)[j],
            ),
        forall|x: usize| #[trigger] arranged(list, order).contains(x) <==> list.contains(x),
{
    let all = arranged(list, order);
    assert forall|i: int, j: int| 0 <= i < j < order.len() implies under_item(
        tracks,
        #[trigger] all[i],
        #[trigger] all[j],
    ) by {
        let (a, b) = (order[i] as int, order[j] as int);
        assert(keys[a] == tracks[list[a] as int] && keys[b] == tracks[list[b] as int]);
    }
    assert forall|x: usize| #[trigger] all.contains(x) <==> list.contains(x) by {
        if all.contains(x) {
            let i = choose|i: int| 0 <= i < all.len() && all[i] == x;
            assert(list[order[i] as int] == x);
        }
        if list.contains(x) {
            let k = choose|k: int| 0 <= k < list.len() && list[k] == x;
            lemma_listed_len(list, tracks.len() as int);
            assert(order.contains(k as usize));
            let i = choose|i: int| 0 <= i < order.len() && order[i] == k as usize;
            assert(all[i] == x);
        }
    }
}

/// Two lists of items, one part of the other, are stacked alike.
proof fn lemma_alike(shown: Seq<usize>, rendered: Seq<usize>, tracks: Seq<Time>)
    requires
        forall|i: int, j: int|
            0 <= i < j < shown.len() ==> under_item(tracks, #[trigger] shown[i], #[trigger] shown[j]),
        forall|i: int, j: int|
            0 <= i < j < rendered.len() ==> under_item(tracks, #[trigger] rendered[i], #[trigger] rendered[j]),
        forall|x: usize| #[trigger] shown.contains(x) ==> rendered.contains(x),
    ensures
        stacked_alike(shown, rendered),
{
    assert forall|i: int, j: int, a: int, b: int|
        0 <= i < shown.len() && 0 <= j < shown.len() && 0 <= a < rendered.len() && 0 <= b < rendered.len()
            && #[trigger] shown[i] == #[trigger] rendered[a] && #[trigger] shown[j] == #[trigger] rendered[b] implies (i
        < j <==> a < b) by {
        if i < j {
            assert(under_item(tracks, shown[i], shown[j]));
            if b < a {
                assert(under_item(tracks, rendered[b], rendered[a]));
            }
        } else if a < b {
            assert(under_item(tracks, rendered[a], rendered[b]));
            if j < i {
                assert(under_item(tracks, shown[j], shown[i]));
            }
        }
    }
}

/// Law: cutaways lie over each other on the monitor as they do in the export, and
/// the monitor shows those of the export that are up.
pub proof fn law_overlays_preview_as_rendered(s: Seq<OverlayItem>, t: Time, shown: Seq<usize>, rendered: Seq<usize>)
    requires
        s.len() <= usize::MAX,
        by_number(shown, overlay_keys(s, overlays_up(s, t, s.len() as int))),
        by_number(rendered, overlay_keys(s, live_overlays(s, s.len() as int))),
    ensures
        ({
            let m = arranged(overlays_up(s, t, s.len() as int), shown);
            let x = arranged(live_overlays(s, s.len() as int), rendered);
            &&& stacked_alike(m, x)
            &&& forall|k: usize| #[trigger] m.contains(k) <==> x.contains(k) && overlay_up(s[k as int], t)
        }),
{
    let n = s.len() as int;
    let tracks = Seq::new(s.len(), |i: int| s[i].track as Time);
    let up = overlays_up(s, t, n);
    let live = live_overlays(s, n);
    lemma_overlays_listed(s, t, n);
    lemma_arranged(up, overlay_keys(s, up), shown, tracks);
    lemma_arranged(live, overlay_keys(s, live), rendered, tracks);
    lemma_alike(arranged(up, shown), arranged(live, rendered), tracks);
}

/// Law: cards lie over each other on the monitor as they do in the export, and the
/// monitor shows those of the export that are up.
pub proof fn law_cards_preview_as_rendered(s: Seq<TitleView>, t: Time, shown: Seq<usize>, rendered: Seq<usize>)
    requires
        s.len() <= usize::MAX,
        by_number(shown, title_keys(s, titles_up(s, t, s.len() as int))),
        by_number(rendered, title_keys(s, live_titles(s, s.len() as int))),
    ensures
        ({
            let m = arranged(titles_up(s, t, s.len() as int), shown);
            let x = arranged(live_titles(s, s.len() as int), rendered);
            &&& stacked_alike(m, x)
            &&& forall|k: usize| #[trigger] m.contains(k) <==> x.contains(k) && title_up(s[k as int], t)
        }),
{
    let n = s.len() as int;
    let tracks = Seq::new(s.len(), |i: int| s[i].track as Time);
    let up = titles_up(s, t, n);
    let live = live_titles(s, n);
    lemma_titles_listed(s, t, n);
    lemma_arranged(up, title_keys(s, up), shown, tracks);
    lemma_arranged(live, title_keys(s, live), rendered, tracks);
    lemma_alike(arranged(up, shown), arranged(live, rendered), tracks);
}

/// A list of places is no longer than there are places.
proof fn lemma_listed_len(list: Seq<usize>, n: int)
    requires
        listed(list, n),
        0 <= n,
    ensures
        list.len() <= n,
        list.len() > 0 ==> list.len() <= list.last() + 1,
    decreases list.len(),
{
    if list.len() > 0 {
        assert(list[list.len() - 1] < n);
    }
    if list.len() > 1 {
        lemma_listed_len(list.drop_last(), n);
        assert(list[list.len() - 2] < list[list.len() - 1]);
    }
}

proof fn lemma_overlays_listed(s: Seq<OverlayItem>, t: Time, n: int)
    requires
        0 <= n <= s.len(),
        s.len() <= usize::MAX,
    ensures
        listed(overlays_up(s, t, n), n),
        listed(live_overlays(s, n), n),
        forall|k: usize|
            #[trigger] overlays_up(s, t, n).contains(k) <==> live_overlays(s, n).contains(k) && overlay_up(s[k as int], t),
    decreases n,
{
    if n > 0 {
        lemma_overlays_listed(s, t, n - 1);
        let last = (n - 1) as usize;
        lemma_grown(overlays_up(s, t, n - 1), overlays_up(s, t, n), last, overlay_up(s[n - 1], t));
        lemma_grown(live_overlays(s, n - 1), live_overlays(s, n), last, s[n - 1].enabled);
    }
}

proof fn lemma_titles_listed(s: Seq<TitleView>, t: Time, n: int)
    requires
        0 <= n <= s.len(),
        s.len() <= usize::MAX,
    ensures
        listed(titles_up(s, t, n), n),
        listed(live_titles(s, n), n),
        forall|k: usize|
            #[trigger] titles_up(s, t, n).contains(k) <==> live_titles(s, n).contains(k) && title_up(s[k as int], t),
    decreases n,
{
    if n > 0 {
        lemma_titles_listed(s, t, n - 1);
        let last = (n - 1) as usize;
        lemma_grown(titles_up(s, t, n - 1), titles_up(s, t, n), last, title_up(s[n - 1], t));
        lemma_grown(live_titles(s, n - 1), live_titles(s, n), last, s[n - 1].enabled && s[n - 1].pngs.len() > 0);
    }
}

/// A list that took the next place, or did not.
proof fn lemma_grown(was: Seq<usize>, is: Seq<usize>, last: usize, took: bool)
    requires
        is == if took { was.push(last) } else { was },
    ensures
        forall|k: usize| #[trigger] is.contains(k) <==> was.contains(k) || (took && k == last),
{
    assert forall|k: usize| #[trigger] is.contains(k) <==> was.contains(k) || (took && k == last) by {
        if was.contains(k) {
            let i = choose|i: int| 0 <= i < was.len() && was[i] == k;
            assert(is[i] == k);
        }
        if took && k == last {
            assert(is[was.len() as int] == k);
        }
    }
}

/// Law: the monitor draws the clip whose part of the reel holds the position, at the
/// source position it shows there; a clip that is off shows black, and a reel without
/// clips and cutaways leaves the picture as it is.
pub proof fn law_monitor_shows_the_clip(p: MonitorPlan, r: Reel, t: Time, titles: bool, overlays: bool)
    requires
        is_plan(p, r, t, titles, overlays),
        crate::model::sound(r.clips),
        t >= 0,
    ensures
        r.clips.len() > 0 ==> {
            let i = crate::track::shown(r.clips, t as int);
            let c = r.clips[i];
            &&& p is Black <==> !c.enabled
            &&& p matches MonitorPlan::Draw { base, over } ==> {
                &&& base.path == (if c.proxy@.len() > 0 { c.proxy } else { c.path })
                &&& base.at == crate::track::source_at(c, t - crate::track::start(r.clips, i))
                &&& base.look == c.look && base.framing == c.framing
                &&& base.grey == (any_solo(r) && !c.solo)
            }
            &&& !(p is Keep)
        },
        r.clips.len() == 0 && r.overlays.len() == 0 ==> p is Keep,
        r.clips.len() == 0 && !overlays ==> p is Keep,
{
    if r.clips.len() > 0 {
        crate::track::law_shown(r.clips, t as int);
    }
}

/// Law: the cutaways on the monitor are exactly those that are on and whose span holds
/// the position, the lower track under the higher, each at the source position it shows
/// there.
pub proof fn law_monitor_shows_the_cutaways(layers: Seq<Layer>, s: Seq<OverlayItem>, t: Time, solo: bool) -> (list: Seq<usize>)
    requires
        are_layers(layers, s, t, solo, true),
        s.len() <= usize::MAX,
    ensures
        layers.len() == list.len(),
        forall|k: int| 0 <= k < list.len() ==> (#[trigger] list[k]) < s.len(),
        forall|i: int|
            0 <= i < s.len() ==> (list.contains(i as usize) <==> (#[trigger] s[i]).enabled && s[i].at <= t < s[i].at + run_of(
                s[i].in_s,
                s[i].out_s,
                s[i].speed,
            )),
        forall|j: int, k: int|
            0 <= j < k < list.len() ==> {
                let a = s[#[trigger] list[j] as int].track;
                let b = s[#[trigger] list[k] as int].track;
                a < b || (a == b && list[j] < list[k])
            },
        forall|k: int|
            0 <= k < list.len() ==> {
                let o = s[list[k] as int];
                let l = #[trigger] layers[k];
                &&& l.path == (if o.proxy@.len() > 0 { o.proxy } else { o.path })
                &&& l.at == source_in(o.in_s, o.out_s, o.speed, o.reverse, t - o.at)
                &&& l.look == o.look && l.framing == o.framing && l.grey == (solo && !o.solo)
            },
{
    let n = s.len() as int;
    let up = overlays_up(s, t, n);
    let tracks = Seq::new(s.len(), |i: int| s[i].track as Time);
    let order = choose|order: Seq<usize>| #[trigger]
        by_number(order, overlay_keys(s, up)) && layers.len() == order.len() && forall|k: int|
            0 <= k < order.len() ==> is_overlay_layer(#[trigger] layers[k], s[arranged(up, order)[k] as int], t, solo);
    lemma_overlays_listed(s, t, n);
    lemma_arranged(up, overlay_keys(s, up), order, tracks);
    let list = arranged(up, order);
    crate::mix::law_disabled_overlays_are_out(s, n);
    lemma_overlays_up(s, t, n);
    assert forall|j: int, k: int| 0 <= j < k < list.len() implies {
        let a = s[#[trigger] list[j] as int].track;
        let b = s[#[trigger] list[k] as int].track;
        a < b || (a == b && list[j] < list[k])
    } by {
        assert(up[order[j] as int] < n && up[order[k] as int] < n);
        assert(under_item(tracks, list[j], list[k]));
    }
    assert forall|k: int| 0 <= k < list.len() implies (#[trigger] list[k]) < s.len() by {
        assert(up[order[k] as int] < n);
    }
    assert forall|k: int| 0 <= k < list.len() implies {
        let o = s[list[k] as int];
        let l = #[trigger] layers[k];
        &&& l.path == (if o.proxy@.len() > 0 { o.proxy } else { o.path })
        &&& l.at == source_in(o.in_s, o.out_s, o.speed, o.reverse, t - o.at)
        &&& l.look == o.look && l.framing == o.framing && l.grey == (solo && !o.solo)
    } by {
        assert(is_overlay_layer(layers[k], s[list[k] as int], t, solo));
    }
    list
}

proof fn lemma_overlays_up(s: Seq<OverlayItem>, t: Time, n: int)
    requires
        0 <= n <= s.len(),
        s.len() <= usize::MAX,
    ensures
        forall|i: int| 0 <= i < n ==> (overlays_up(s, t, n).contains(i as usize) <==> overlay_up(#[trigger] s[i], t)),
        forall|k: int| 0 <= k < overlays_up(s, t, n).len() ==> (#[trigger] overlays_up(s, t, n)[k]) < n,
    decreases n,
{
    if n > 0 {
        lemma_overlays_up(s, t, n - 1);
        let p = overlays_up(s, t, n - 1);
        let q = overlays_up(s, t, n);
        lemma_grown(p, q, (n - 1) as usize, overlay_up(s[n - 1], t));
        assert forall|i: int| 0 <= i < n implies (q.contains(i as usize) <==> overlay_up(#[trigger] s[i], t)) by {
            if i == n - 1 && p.contains(i as usize) {
                let k = choose|k: int| 0 <= k < p.len() && p[k] == i as usize;
                assert(p[k] < n - 1);
            }
        }
    }
}

/// Law: the titles on the monitor are those that are on, drawn, and up at the position;
/// each shows the card whose turn it is.
pub proof fn law_monitor_shows_the_titles(cards: Seq<CardLayer>, s: Seq<TitleView>, t: Time) -> (list: Seq<usize>)
    requires
        are_cards(cards, s, t, true),
        s.len() <= usize::MAX,
    ensures
        cards.len() == list.len(),
        forall|k: int| 0 <= k < list.len() ==> (#[trigger] list[k]) < s.len(),
        forall|i: int|
            0 <= i < s.len() ==> (list.contains(i as usize) <==> (#[trigger] s[i]).enabled && s[i].pngs.len() > 0 && s[i].at
                <= t < s[i].at + s[i].dur),
        forall|j: int, k: int|
            0 <= j < k < list.len() ==> {
                let a = s[#[trigger] list[j] as int].track;
                let b = s[#[trigger] list[k] as int].track;
                a < b || (a == b && list[j] < list[k])
            },
        forall|k: int|
            0 <= k < list.len() ==> {
                let c = #[trigger] cards[k];
                let title = s[list[k] as int];
                &&& c.at == title.at && c.dur == title.dur
                &&& title.pngs.contains(c.png)
            },
{
    let n = s.len() as int;
    let up = titles_up(s, t, n);
    let tracks = Seq::new(s.len(), |i: int| s[i].track as Time);
    let order = choose|order: Seq<usize>| #[trigger]
        by_number(order, title_keys(s, up)) && cards.len() == order.len() && forall|k: int|
            0 <= k < order.len() ==> is_card(#[trigger] cards[k], s[arranged(up, order)[k] as int], t);
    lemma_titles_listed(s, t, n);
    lemma_arranged(up, title_keys(s, up), order, tracks);
    let list = arranged(up, order);
    lemma_titles_up(s, t, n);
    assert forall|j: int, k: int| 0 <= j < k < list.len() implies {
        let a = s[#[trigger] list[j] as int].track;
        let b = s[#[trigger] list[k] as int].track;
        a < b || (a == b && list[j] < list[k])
    } by {
        assert(up[order[j] as int] < n && up[order[k] as int] < n);
        assert(under_item(tracks, list[j], list[k]));
    }
    assert forall|k: int| 0 <= k < list.len() implies (#[trigger] list[k]) < s.len() by {
        assert(up[order[k] as int] < n);
    }
    assert forall|k: int| 0 <= k < list.len() implies {
        let c = #[trigger] cards[k];
        let title = s[list[k] as int];
        &&& c.at == title.at && c.dur == title.dur
        &&& title.pngs.contains(c.png)
    } by {
        let title = s[list[k] as int];
        assert(is_card(cards[k], title, t));
        assert(list.contains(list[k]));
        assert(up.contains(list[k]));
        assert(title_up(title, t));
        let j = choose|j: int| 0 <= j < card_count(title) && #[trigger] card_start(title, j) <= t < card_start(title, j)
            + card_dur(title, j) && cards[k].png == title.pngs[if j < title.pngs.len() { j } else { title.pngs.len() - 1 }];
        assert(title.pngs[if j < title.pngs.len() { j } else { title.pngs.len() - 1 }] == cards[k].png);
    }
    list
}

proof fn lemma_titles_up(s: Seq<TitleView>, t: Time, n: int)
    requires
        0 <= n <= s.len(),
        s.len() <= usize::MAX,
    ensures
        forall|i: int| 0 <= i < n ==> (titles_up(s, t, n).contains(i as usize) <==> title_up(#[trigger] s[i], t)),
        forall|k: int| 0 <= k < titles_up(s, t, n).len() ==> (#[trigger] titles_up(s, t, n)[k]) < n,
    decreases n,
{
    if n > 0 {
        lemma_titles_up(s, t, n - 1);
        let p = titles_up(s, t, n - 1);
        let q = titles_up(s, t, n);
        lemma_grown(p, q, (n - 1) as usize, title_up(s[n - 1], t));
        assert forall|i: int| 0 <= i < n implies (q.contains(i as usize) <==> title_up(#[trigger] s[i], t)) by {
            if i == n - 1 && p.contains(i as usize) {
                let k = choose|k: int| 0 <= k < p.len() && p[k] == i as usize;
                assert(p[k] < n - 1);
            }
        }
    }
}

/// Law: a layer works on the picture while it is on, up, and has an effect or a grade;
/// layers keep their order.
pub proof fn law_monitor_applies_the_layers(s: Seq<AdjustmentItem>, t: Time, n: int)
    requires
        0 <= n < s.len(),
    ensures
        layers_up(s, t, 0).len() == 0,
        s[n].enabled && s[n].at <= t < s[n].at + s[n].dur && (s[n].effect is Some || s[n].grade != 0) ==> layers_up(
            s,
            t,
            n + 1,
        ) == layers_up(s, t, n).push(s[n]),
        !s[n].enabled || t < s[n].at || t >= s[n].at + s[n].dur || (s[n].effect is None && s[n].grade == 0) ==> layers_up(
            s,
            t,
            n + 1,
        ) == layers_up(s, t, n),
{
}

/// Law: while an in or out point of a cutaway is set, the monitor shows that source
/// position of it alone, with its own look and nothing over it.
pub proof fn law_peek_shows_the_source(p: MonitorPlan, o: OverlayItem, at: Time)
    requires
        is_source_frame(p, o, at),
    ensures
        p matches MonitorPlan::Draw { base, over } && {
            &&& base.at == at && base.look == o.look && base.framing == o.framing && !base.grey
            &&& o.proxy@.len() == 0 ==> base.path == o.path
            &&& o.proxy@.len() > 0 ==> base.path == o.proxy
            &&& over.layers@.len() == 0 && over.titles@.len() == 0 && over.adjust@.len() == 0 && over.blend is None
        },
{
}

} // verus!
