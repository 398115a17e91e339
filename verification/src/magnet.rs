//! The magnetic timeline: items on the other lanes are anchored to the main-track
//! clip under their start and ride along when that clip moves.

use crate::model::{audios_ok, cards, overlays_ok, titles_ok, AudioItem, OverlayItem, Reel, Snapshot, TitleItem, TitleView};
use crate::time::{on_axis, place, placed, Time, AXIS_END};
use vstd::prelude::*;

verus! {

/// The clip whose old span holds `at`, looking from span `k` on.
pub open spec fn anchor_from(at: Time, spans: Seq<(Time, Time)>, k: int) -> Option<int>
    decreases spans.len() - k,
{
    if k < 0 || k >= spans.len() {
        None
    } else if spans[k].0 <= at < spans[k].1 {
        Some(k)
    } else {
        anchor_from(at, spans, k + 1)
    }
}

/// The clip an item is anchored to: the first whose old span holds its start.
pub open spec fn anchor(at: Time, spans: Seq<(Time, Time)>) -> Option<int> {
    anchor_from(at, spans, 0)
}

/// How far an item rides: as far as the clip it is anchored to moved. An item past
/// the track, or on a clip that is gone, holds its position.
pub open spec fn rider_delta(at: Time, spans: Seq<(Time, Time)>, starts: Seq<Option<Time>>) -> int {
    match anchor(at, spans) {
        Some(k) => match starts[k] {
            Some(s) => s - spans[k].0,
            None => 0,
        },
        None => 0,
    }
}

/// Where an item stands after the ride.
pub open spec fn ridden(at: Time, spans: Seq<(Time, Time)>, starts: Seq<Option<Time>>) -> Time {
    placed(at + rider_delta(at, spans, starts)) as Time
}

/// A reel after its overlays, beds and titles rode along.
#[verifier::opaque]
pub open spec fn carried(r: Reel, spans: Seq<(Time, Time)>, starts: Seq<Option<Time>>) -> Reel {
    Reel {
        overlays: Seq::new(
            r.overlays.len(),
            |i: int| OverlayItem { at: ridden(r.overlays[i].at, spans, starts), ..r.overlays[i] },
        ),
        audios: Seq::new(
            r.audios.len(),
            |i: int| AudioItem { at: ridden(r.audios[i].at, spans, starts), ..r.audios[i] },
        ),
        titles: Seq::new(
            r.titles.len(),
            |i: int| TitleView { at: ridden(r.titles[i].at, spans, starts), ..r.titles[i] },
        ),
        ..r
    }
}

/// A ride changes nothing but where overlays, beds and titles start.
pub proof fn lemma_carried(r: Reel, spans: Seq<(Time, Time)>, starts: Seq<Option<Time>>)
    ensures
        carried(r, spans, starts).clips == r.clips,
        carried(r, spans, starts).adjustments == r.adjustments,
        carried(r, spans, starts).markers == r.markers,
        carried(r, spans, starts).mixer == r.mixer,
        carried(r, spans, starts).v_lanes == r.v_lanes,
        carried(r, spans, starts).t_lanes == r.t_lanes,
        carried(r, spans, starts).a_lanes == r.a_lanes,
        carried(r, spans, starts).overlays.len() == r.overlays.len(),
        carried(r, spans, starts).audios.len() == r.audios.len(),
        carried(r, spans, starts).titles.len() == r.titles.len(),
{
    reveal(carried);
}

/// Spans and new starts that a ride can work with.
pub open spec fn rideable(spans: Seq<(Time, Time)>, starts: Seq<Option<Time>>) -> bool {
    &&& spans.len() == starts.len()
    &&& forall|i: int| 0 <= i < spans.len() ==> on_axis((#[trigger] spans[i]).0)
    &&& forall|i: int| 0 <= i < starts.len() ==> (#[trigger] starts[i] matches Some(s) ==> on_axis(s))
}

/// Law: an item anchored to a clip that is still there keeps its distance from the
/// clip's start, wherever the clip went.
pub proof fn law_riders_keep_their_offset(
    at: Time,
    spans: Seq<(Time, Time)>,
    starts: Seq<Option<Time>>,
    k: int,
)
    requires
        on_axis(at),
        rideable(spans, starts),
        anchor(at, spans) == Some(k),
        starts[k] matches Some(s) && s + (at - spans[k].0) <= AXIS_END,
    ensures
        ridden(at, spans, starts) - starts[k]->0 == at - spans[k].0,
{
    lemma_anchor(at, spans, 0);
}

/// Law: an item past the track, and one whose clip is gone, stays where it is.
pub proof fn law_unattached_items_stay(at: Time, spans: Seq<(Time, Time)>, starts: Seq<Option<Time>>)
    requires
        on_axis(at),
        rideable(spans, starts),
        anchor(at, spans) matches Some(k) ==> starts[k] is None,
    ensures
        ridden(at, spans, starts) == at,
{
}

/// Law: when no clip moves, nothing rides.
pub proof fn law_no_move_no_ride(at: Time, spans: Seq<(Time, Time)>, starts: Seq<Option<Time>>)
    requires
        on_axis(at),
        rideable(spans, starts),
        forall|k: int| 0 <= k < spans.len() ==> #[trigger] starts[k] == Some(spans[k].0),
    ensures
        ridden(at, spans, starts) == at,
{
    lemma_anchor(at, spans, 0);
}

proof fn lemma_anchor(at: Time, spans: Seq<(Time, Time)>, k: int)
    requires
        0 <= k,
    ensures
        anchor_from(at, spans, k) matches Some(j) ==> k <= j < spans.len() && spans[j].0 <= at < spans[j].1,
    decreases spans.len() - k,
{
    if k < spans.len() {
        lemma_anchor(at, spans, k + 1);
    }
}

/// How far an item at `at` rides, given where the clips were and where each starts now.
pub fn magnet_delta(at: Time, spans: &Vec<(Time, Time)>, starts: &Vec<Option<Time>>) -> (r: Time)
    requires
        on_axis(at),
        rideable(spans@, starts@),
    ensures
        r == rider_delta(at, spans@, starts@),
        -AXIS_END <= r <= AXIS_END,
{
    let mut k: usize = 0;
    while k < spans.len()
        invariant
            k <= spans.len(),
            rideable(spans@, starts@),
            anchor(at, spans@) == anchor_from(at, spans@, k as int),
        decreases spans.len() - k,
    {
        if spans[k].0 <= at && at < spans[k].1 {
            assert(on_axis(spans@[k as int].0));
            return match starts[k] {
                Some(s) => {
                    assert(starts@[k as int] == Some(s));
                    s - spans[k].0
                },
                None => 0,
            };
        }
        k += 1;
    }
    0
}

fn ride_to(at: Time, spans: &Vec<(Time, Time)>, starts: &Vec<Option<Time>>) -> (r: Time)
    requires
        on_axis(at),
        rideable(spans@, starts@),
    ensures
        r == ridden(at, spans@, starts@),
        on_axis(r),
{
    place(at + magnet_delta(at, spans, starts))
}

fn ride_overlays(items: &mut Vec<OverlayItem>, spans: &Vec<(Time, Time)>, starts: &Vec<Option<Time>>)
    requires
        overlays_ok(old(items)@),
        rideable(spans@, starts@),
    ensures
        final(items)@ == Seq::new(
            old(items)@.len(),
            |k: int| OverlayItem { at: ridden(old(items)@[k].at, spans@, starts@), ..old(items)@[k] },
        ),
        overlays_ok(final(items)@),
{
    let ghost was = items@;
    proof {
        reveal(crate::model::overlays_ok);
    }
    let mut i: usize = 0;
    while i < items.len()
        invariant
            rideable(spans@, starts@),
            i <= items.len(),
            items.len() == was.len(),
            forall|k: int| 0 <= k < was.len() ==> (#[trigger] was[k]).wf(),
            forall|k: int|
                0 <= k < i ==> #[trigger] items@[k] == (OverlayItem {
                    at: ridden(was[k].at, spans@, starts@),
                    ..was[k]
                }) && items[k].wf(),
            forall|k: int| i <= k < was.len() ==> #[trigger] items@[k] == was[k],
        decreases items.len() - i,
    {
        assert(was[i as int].wf());
        let at: Time = ride_to(items[i].at, spans, starts);
        items[i].at = at;
        i += 1;
    }
}

fn ride_audios(items: &mut Vec<AudioItem>, spans: &Vec<(Time, Time)>, starts: &Vec<Option<Time>>)
    requires
        audios_ok(old(items)@),
        rideable(spans@, starts@),
    ensures
        final(items)@ == Seq::new(
            old(items)@.len(),
            |k: int| AudioItem { at: ridden(old(items)@[k].at, spans@, starts@), ..old(items)@[k] },
        ),
        audios_ok(final(items)@),
{
    let ghost was = items@;
    proof {
        reveal(crate::model::audios_ok);
    }
    let mut i: usize = 0;
    while i < items.len()
        invariant
            rideable(spans@, starts@),
            i <= items.len(),
            items.len() == was.len(),
            forall|k: int| 0 <= k < was.len() ==> (#[trigger] was[k]).wf(),
            forall|k: int|
                0 <= k < i ==> #[trigger] items@[k] == (AudioItem {
                    at: ridden(was[k].at, spans@, starts@),
                    ..was[k]
                }) && items[k].wf(),
            forall|k: int| i <= k < was.len() ==> #[trigger] items@[k] == was[k],
        decreases items.len() - i,
    {
        assert(was[i as int].wf());
        let at: Time = ride_to(items[i].at, spans, starts);
        items[i].at = at;
        i += 1;
    }
}

fn ride_titles(items: &mut Vec<TitleItem>, spans: &Vec<(Time, Time)>, starts: &Vec<Option<Time>>)
    requires
        titles_ok(cards(old(items)@)),
        rideable(spans@, starts@),
    ensures
        cards(final(items)@) == Seq::new(
            old(items)@.len(),
            |k: int| TitleView { at: ridden(old(items)@[k].at, spans@, starts@), ..old(items)@[k]@ },
        ),
        titles_ok(cards(final(items)@)),
{
    let ghost was = items@;
    proof {
        reveal(crate::model::titles_ok);
    }
    let mut i: usize = 0;
    while i < items.len()
        invariant
            rideable(spans@, starts@),
            i <= items.len(),
            items.len() == was.len(),
            titles_ok(cards(was)),
            forall|k: int|
                0 <= k < i ==> (#[trigger] items@[k])@ == (TitleView {
                    at: ridden(was[k].at, spans@, starts@),
                    ..was[k]@
                }) && items[k]@.wf(),
            forall|k: int| i <= k < was.len() ==> #[trigger] items@[k] == was[k],
        decreases items.len() - i,
    {
        proof {
            crate::model::lemma_titles_ok_at(cards(was), i as int);
        }
        let at: Time = ride_to(items[i].at, spans, starts);
        items[i].at = at;
        i += 1;
    }
}

/// Carry the items of the other lanes along with the clips they are anchored to.
pub fn ride(reel: &mut Snapshot, spans: &Vec<(Time, Time)>, starts: &Vec<Option<Time>>)
    requires
        old(reel)@.wf(),
        rideable(spans@, starts@),
    ensures
        final(reel)@ == carried(old(reel)@, spans@, starts@),
        final(reel)@.wf(),
{
    let ghost was = reel@;
    proof {
        reveal(carried);
    }
    ride_overlays(&mut reel.overlays, spans, starts);
    ride_audios(&mut reel.audios, spans, starts);
    ride_titles(&mut reel.titles, spans, starts);
    let ghost to = carried(was, spans@, starts@);
    assert(reel@.overlays =~= to.overlays);
    assert(reel@.audios =~= to.audios);
    assert(reel@.titles =~= to.titles);
}

} // verus!
