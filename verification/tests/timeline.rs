//! Where clips lie on the reel, and the rules on a single span.

use morreel::edges::{
    cut_local, freeze_place, media_edge_resize, replay_span, snap_to, still_edge_resize, title_dur_to_end,
    title_edge_resize, FreezePlace,
};
use morreel::magnet::magnet_delta;
use morreel::model::{Clip, Look};
use morreel::time::{fmt_clip_dur, fmt_t, Time};
use morreel::track::{block_map, extents, fade_in, insert_index, locate, spans, start_of, total_of, transition_at};
use morreel::trims::can_join_clips;

/// Seconds as time.
fn s(x: f64) -> Time {
    (x * 3_000_000.0).round() as Time
}

fn clip(in_s: f64, out_s: f64) -> Clip {
    Clip {
        path: String::new(),
        name: String::new(),
        duration: s(out_s),
        in_s: s(in_s),
        out_s: s(out_s),
        has_audio: true,
        look: Look::default(),
        framing: "Crop".to_string(),
        speed: 1000,
        reverse: false,
        volume: 1000,
        denoise: 0,
        treat: None,
        transition: None,
        trans_dur: s(0.5),
        thumb: String::new(),
        wave: String::new(),
        proxy: String::new(),
        group: 0,
        enabled: true,
        solo: false,
    }
}

/// `a` seconds, then `b` seconds joined by a `d`-second dissolve.
fn dissolved(a: f64, b: f64, d: f64) -> Vec<Clip> {
    let mut second = clip(0.0, b);
    second.transition = Some("Cross dissolve".to_string());
    second.trans_dur = s(d);
    vec![clip(0.0, a), second]
}

#[test]
fn a_transition_takes_its_length_off_the_timeline() {
    // Cuts: each clip owns everything it runs for.
    let cut = vec![clip(0.0, 5.0), clip(0.0, 4.0)];
    assert_eq!(extents(&cut), vec![s(5.0), s(4.0)]);

    // A 1 s dissolve overlaps the join, so the outgoing clip owns 1 s less
    // and the reel is 1 s shorter. The extents still tile the timeline.
    let fade = dissolved(5.0, 4.0, 1.0);
    assert_eq!(extents(&fade), vec![s(4.0), s(4.0)]);
    assert_eq!(extents(&fade).iter().sum::<Time>(), s(8.0));

    // The playhead maps through the shortened timeline.
    assert_eq!(locate(&fade, s(3.9)), Some((0, s(3.9))));
    assert_eq!(locate(&fade, s(4.0)), Some((1, s(0.0))));
    assert_eq!(locate(&fade, s(6.0)), Some((1, s(2.0))));

    // A cut is a cut no matter what length is stored against it.
    let mut none = dissolved(5.0, 4.0, 1.0);
    none[1].transition = None;
    assert_eq!(extents(&none), vec![s(5.0), s(4.0)]);

    // Nothing precedes the first clip, so its transition is inert.
    let mut lead = vec![clip(0.0, 5.0), clip(0.0, 4.0)];
    lead[0].transition = Some("Cross dissolve".to_string());
    lead[0].trans_dur = s(1.0);
    assert_eq!(extents(&lead), vec![s(5.0), s(4.0)]);
    assert_eq!(fade_in(&lead, 0), 0);
}

#[test]
fn a_transition_longer_than_its_clips_is_clamped() {
    let greedy = dissolved(1.0, 1.0, 30.0);
    assert!(fade_in(&greedy, 1) < s(1.0), "not clamped: {}", fade_in(&greedy, 1));
    assert!(extents(&greedy).iter().all(|d| *d > 0), "{:?}", extents(&greedy));
    assert!(extents(&greedy).iter().sum::<Time>() > 0);
}

#[test]
fn fmt_clip_dur_prefers_seconds_under_a_minute() {
    assert_eq!(fmt_clip_dur(s(4.0)), "4.0s");
    assert_eq!(fmt_clip_dur(s(0.5)), "0.5s");
    assert_eq!(fmt_clip_dur(s(90.0)), "1:30.0");
    assert_eq!(fmt_clip_dur(s(5400.0)), "1.5h");
}

#[test]
fn clock_labels_count_minutes_seconds_and_tenths() {
    assert_eq!(fmt_t(0), "0:00.0");
    assert_eq!(fmt_t(s(61.25)), "1:01.3");
}

#[test]
fn freeze_place_splits_when_there_is_room_on_both_sides() {
    assert_eq!(
        freeze_place(s(0.0), s(10.0), s(4.0), s(0.1)),
        Some(FreezePlace::Split { local: s(4.0) })
    );
    assert_eq!(freeze_place(s(0.0), s(10.0), s(0.05), s(0.1)), Some(FreezePlace::Before));
    assert_eq!(freeze_place(s(0.0), s(10.0), s(9.95), s(0.1)), Some(FreezePlace::After));
    assert_eq!(freeze_place(s(0.0), s(0.15), s(0.07), s(0.1)), Some(FreezePlace::After));
    assert_eq!(freeze_place(s(1.0), s(5.0), s(0.5), s(0.1)), None);
}

#[test]
fn can_join_clips_requires_same_source_and_abutting_range() {
    let mut base = clip(0.0, 5.0);
    base.path = "/x.mp4".into();
    base.name = "x".into();
    base.duration = s(20.0);
    let right = Clip { in_s: s(5.0), out_s: s(10.0), ..base.clone() };
    assert!(can_join_clips(&base, &right), "split halves should join");
    let gap = Clip { in_s: s(5.1), out_s: s(10.0), ..base.clone() };
    assert!(!can_join_clips(&base, &gap), "gap in source is not a clean join");
    let other = Clip { path: "/y.mp4".into(), in_s: s(5.0), out_s: s(10.0), ..base.clone() };
    assert!(!can_join_clips(&base, &other), "different files never join");
}

#[test]
fn replay_span_takes_up_to_requested_source() {
    assert_eq!(replay_span(s(0.0), s(10.0), s(5.0), s(1.5)), Some((s(3.5), s(5.0))));
    assert_eq!(replay_span(s(0.0), s(10.0), s(1.0), s(1.5)), Some((s(0.0), s(1.0))));
    assert_eq!(replay_span(s(0.0), s(10.0), s(0.05), s(1.5)), None);
}

#[test]
fn title_edge_resize_from_either_side() {
    // Right edge: only duration changes.
    assert_eq!(title_edge_resize(s(2.0), s(4.0), false, s(1.5)), (s(2.0), s(5.5)));
    assert_eq!(title_edge_resize(s(2.0), s(4.0), false, s(-10.0)), (s(2.0), s(0.3)));
    // Left edge: right edge stays put (at + dur fixed).
    assert_eq!(title_edge_resize(s(2.0), s(4.0), true, s(1.0)), (s(3.0), s(3.0)));
    assert_eq!(title_edge_resize(s(2.0), s(4.0), true, s(-1.0)), (s(1.0), s(5.0)));
    // Can't drag past the origin or collapse under the minimum hold.
    assert_eq!(title_edge_resize(s(0.5), s(2.0), true, s(-2.0)), (s(0.0), s(2.5)));
    let (at, dur) = title_edge_resize(s(2.0), s(4.0), true, s(100.0));
    assert_eq!(at + dur, s(6.0));
    assert_eq!(dur, s(0.3));
}

#[test]
fn title_dur_to_end_reaches_reel_out_point() {
    assert_eq!(title_dur_to_end(s(2.0), s(10.0)), s(8.0));
    assert_eq!(title_dur_to_end(s(0.0), s(12.5)), s(12.5));
    assert_eq!(title_dur_to_end(s(15.0), s(10.0)), s(0.3));
}

#[test]
fn media_edge_resize_free_and_sequential() {
    let r = media_edge_resize(s(5.0), s(1.0), s(5.0), s(10.0), 1000, true, s(1.0), true);
    assert_eq!(r, (s(6.0), s(2.0), s(5.0)));
    let r = media_edge_resize(s(5.0), s(1.0), s(5.0), s(10.0), 1000, false, s(2.0), true);
    assert_eq!(r, (s(5.0), s(1.0), s(7.0)));
    let r = media_edge_resize(s(0.0), s(1.0), s(5.0), s(10.0), 1000, true, s(0.5), false);
    assert_eq!(r, (s(0.0), s(1.5), s(5.0)));
    let (_, inn, out) = media_edge_resize(s(0.0), s(0.0), s(4.0), s(20.0), 2000, false, s(1.0), false);
    assert_eq!(inn, s(0.0));
    assert_eq!(out, s(6.0));
}

#[test]
fn still_edge_resize_stretches_either_side() {
    let r = still_edge_resize(s(5.0), s(0.0), s(5.0), 1000, false, s(100.0));
    assert_eq!(r, (s(5.0), s(0.0), s(105.0)));
    let r = still_edge_resize(s(5.0), s(0.0), s(5.0), 1000, true, s(-3.0));
    assert_eq!(r, (s(2.0), s(0.0), s(8.0)));
    let (_, inn, out) = still_edge_resize(s(0.0), s(0.0), s(10.0), 2000, false, s(3.0));
    assert_eq!((inn, out), (s(0.0), s(16.0)));
}

#[test]
fn transition_at_reports_where_the_blend_has_got_to() {
    let fade = dissolved(5.0, 4.0, 1.0);
    assert_eq!(transition_at(&fade, s(2.0)), None, "before the overlap");
    let (idx, p, src) = transition_at(&fade, s(3.0)).unwrap();
    assert_eq!(idx, 1, "the blend brings in the second clip");
    assert_eq!(p, 0, "it has just started");
    assert_eq!(src, 0, "from the incoming clip's first frame");

    let (_, p, src) = transition_at(&fade, s(3.5)).unwrap();
    assert_eq!(p, 500, "halfway");
    assert_eq!(src, s(0.5), "half a second into the incoming clip");

    assert_eq!(transition_at(&fade, s(4.5)), None);
    assert_eq!(transition_at(&vec![clip(0.0, 5.0), clip(0.0, 4.0)], s(4.9)), None);
}

#[test]
fn drops_land_between_clips_once_a_transition_has_moved_them() {
    let fade = dissolved(5.0, 4.0, 1.0);
    assert_eq!(insert_index(&fade, s(1.0)), 0);
    assert_eq!(insert_index(&fade, s(3.0)), 1);
    assert_eq!(insert_index(&fade, s(7.0)), 2);
}

#[test]
fn locate_maps_global_time_to_clip_and_source_time() {
    let clips = vec![clip(1.0, 3.0), clip(0.0, 5.0)];
    assert_eq!(locate(&clips, s(0.0)), Some((0, s(1.0))));
    assert_eq!(locate(&clips, s(1.5)), Some((0, s(2.5))));
    assert_eq!(locate(&clips, s(2.0)), Some((1, s(0.0))));
    assert_eq!(locate(&clips, s(6.0)), Some((1, s(4.0))));
    assert_eq!(locate(&clips, s(99.0)), Some((1, s(5.0))));
    assert_eq!(locate(&vec![], s(0.0)), None);
}

#[test]
fn cut_local_requires_min_on_both_sides() {
    assert_eq!(cut_local(s(1.0), s(5.0), s(3.0), s(0.1)), Some(s(3.0)));
    assert_eq!(cut_local(s(1.0), s(5.0), s(1.05), s(0.1)), None);
    assert_eq!(cut_local(s(1.0), s(5.0), s(4.95), s(0.1)), None);
    assert_eq!(cut_local(s(1.0), s(5.0), s(1.1), s(0.1)), Some(s(1.1)));
    assert_eq!(cut_local(s(1.0), s(5.0), s(0.0), s(0.1)), None);
    assert_eq!(cut_local(s(1.0), s(5.0), s(9.0), s(0.1)), None);
}

#[test]
fn magnet_delta_rides_v1_edits() {
    // two clips on the timeline: [0,2) and [2,5)
    let old = vec![(s(0.0), s(2.0)), (s(2.0), s(5.0))];
    // swap: clip 0 now starts at 3.0, clip 1 at 0.0
    let swapped = vec![Some(s(3.0)), Some(s(0.0))];
    assert_eq!(magnet_delta(s(1.0), &old, &swapped), s(3.0));
    assert_eq!(magnet_delta(s(2.5), &old, &swapped), s(-2.0));
    assert_eq!(magnet_delta(s(7.0), &old, &swapped), s(0.0));
    // delete clip 0 (2s): clip 1 slides to 0; clip 0's riders hold position
    let deleted = vec![None, Some(s(0.0))];
    assert_eq!(magnet_delta(s(1.0), &old, &deleted), s(0.0));
    assert_eq!(magnet_delta(s(3.0), &old, &deleted), s(-2.0));
    // out-trim clip 0 to [0,1.5): clip 1 slides left 0.5, clip 0 riders stay
    let trimmed = vec![Some(s(0.0)), Some(s(1.5))];
    assert_eq!(magnet_delta(s(1.0), &old, &trimmed), s(0.0));
    assert_eq!(magnet_delta(s(2.0), &old, &trimmed), s(-0.5));
}

#[test]
fn speed_retimes_the_timeline() {
    let mut c = clip(0.0, 4.0);
    assert_eq!(c.trimmed(), s(4.0));
    c.speed = 2000;
    assert_eq!(c.trimmed(), s(2.0)); // 4 s of source in 2 s of reel
    c.speed = 500;
    assert_eq!(c.trimmed(), s(8.0)); // slow motion stretches it

    let mut c = clip(0.0, 4.0);
    c.speed = 2000;
    let clips = vec![c];
    assert_eq!(locate(&clips, s(0.0)), Some((0, s(0.0))));
    assert_eq!(locate(&clips, s(1.0)), Some((0, s(2.0))));
    assert_eq!(locate(&clips, s(2.0)), Some((0, s(4.0))));
}

#[test]
fn drop_position_picks_an_insertion_point_not_a_time() {
    let clips = vec![clip(0.0, 2.0), clip(0.0, 3.0)];
    assert_eq!(insert_index(&clips, s(0.0)), 0);
    assert_eq!(insert_index(&clips, s(0.9)), 0);
    assert_eq!(insert_index(&clips, s(1.5)), 1);
    assert_eq!(insert_index(&clips, s(3.0)), 1);
    assert_eq!(insert_index(&clips, s(4.0)), 2);
    assert_eq!(insert_index(&clips, s(99.0)), 2);
    assert_eq!(insert_index(&vec![], s(5.0)), 0);
}

#[test]
fn snap_pulls_only_within_tolerance() {
    let targets = vec![s(0.0), s(5.0), s(12.0)];
    assert_eq!(snap_to(s(5.08), &targets, s(0.1)), s(5.0));
    assert_eq!(snap_to(s(5.4), &targets, s(0.1)), s(5.4));
    assert_eq!(snap_to(s(4.95), &targets, s(0.1)), s(5.0));
    assert_eq!(snap_to(s(11.0), &vec![s(10.0), s(12.0)], s(2.0)), s(10.0));
    assert_eq!(snap_to(s(11.5), &vec![s(10.0), s(12.0)], s(2.0)), s(12.0));
    assert_eq!(snap_to(s(3.0), &vec![], s(1.0)), s(3.0));
}

#[test]
fn block_map_reorders() {
    // move clips [1,2] of 0..5 to the front: new order 1,2,0,3,4
    assert_eq!((0..5).map(|k| block_map(k, 1, 2, 0)).collect::<Vec<_>>(), vec![2, 0, 1, 3, 4]);
    // move clip [0] to the end: new order 1,2,3,4,0
    assert_eq!((0..5).map(|k| block_map(k, 0, 1, 4)).collect::<Vec<_>>(), vec![4, 0, 1, 2, 3]);
    // no-op move keeps identity
    assert_eq!((0..4).map(|k| block_map(k, 1, 2, 1)).collect::<Vec<_>>(), vec![0, 1, 2, 3]);
}

#[test]
fn spans_tile_the_reel() {
    let fade = dissolved(5.0, 4.0, 1.0);
    assert_eq!(spans(&fade), vec![(0, s(4.0)), (s(4.0), s(8.0))]);
    assert_eq!(start_of(&fade, 1), s(4.0));
    assert_eq!(total_of(&fade), s(8.0));
}

#[test]
fn a_reversed_clip_plays_from_its_tail() {
    let mut c = clip(1.0, 5.0);
    c.reverse = true;
    assert_eq!(c.source_pos(0), s(5.0));
    assert_eq!(c.source_pos(s(1.0)), s(4.0));
    assert_eq!(c.source_pos(s(9.0)), s(1.0));
}
