//! Edits of the reel, one after another.

use morreel::adds::Probed;
use morreel::beds::{lane_tag, BedEdit};
use morreel::editor::Editor;
use morreel::holds::FREEZE_HOLD;
use morreel::inspect::{Band, ClipEdit, LayerEdit, OverlayEdit, StripEdit};
use morreel::lanes::{normalize_lanes, LaneLimits};
use morreel::model::{
    AdjustmentItem, AudioItem, Clip, Look, OverlayItem, Phase, Sel, Shape, Shaping, Snapshot, TitleItem,
    TitleStyle, Transform,
};
use morreel::looks::{mirror_label, mirrored};
use morreel::monitor::MonitorPlan;
use morreel::moves::block_of;
use morreel::time::{Time, FRAME};
use morreel::track::{start_of, total_of};

fn s(x: f64) -> Time {
    (x * 3_000_000.0).round() as Time
}

fn clip(name: &str, in_s: f64, out_s: f64) -> Clip {
    Clip {
        path: format!("/m/{name}.mp4"),
        name: name.to_string(),
        duration: s(20.0),
        in_s: s(in_s),
        out_s: s(out_s),
        has_audio: true,
        look: Look::default(),
        framing: "Crop".to_string(),
        speed: 1000,
        reverse: false,
        volume: 1000,
        denoise: 0,
        treat: None,
        transition: None,
        trans_dur: s(0.5),
        thumb: String::new(),
        wave: String::new(),
        proxy: String::new(),
        group: 0,
        enabled: true,
        solo: false,
    }
}

fn cutaway(name: &str, at: f64, len: f64) -> OverlayItem {
    OverlayItem {
        path: format!("/m/{name}.mp4"),
        name: name.to_string(),
        duration: s(20.0),
        in_s: 0,
        out_s: s(len),
        at: s(at),
        look: Look::default(),
        framing: "Crop".to_string(),
        speed: 1000,
        reverse: false,
        blend: String::new(),
        track: 2,
        proxy: String::new(),
        group: 0,
        enabled: true,
        solo: false,
    }
}

fn bed(name: &str, at: f64, len: f64) -> AudioItem {
    AudioItem {
        path: format!("/m/{name}.mp3"),
        name: name.to_string(),
        duration: s(30.0),
        in_s: 0,
        out_s: s(len),
        at: s(at),
        volume: 1000,
        vol_end: None,
        fade_in: 0,
        fade_out: 0,
        shaping: Shaping::default(),
        treat: None,
        lane: 1,
        wave: String::new(),
        group: 0,
        enabled: true,
        solo: false,
    }
}

fn card() -> TitleItem {
    TitleItem {
        text: "Hi".to_string(),
        kind: "Text".to_string(),
        at: 0,
        dur: s(3.0),
        style: TitleStyle {
            font: "Sans".to_string(),
            font_size: 110,
            color: "White".to_string(),
            pos: "Middle".to_string(),
            y_frac: None,
            align: "Centre".to_string(),
            anim: None,
            reveal: false,
            karaoke: false,
            karaoke_color: "Gold".to_string(),
            boxed: false,
            box_opacity: 550,
            outline: 0,
            outline_color: "Black".to_string(),
            bevel: "Cameo".to_string(),
            bevel_size: 21,
            soften: 4,
            depth: 100,
            angle: 120,
            altitude: 30,
            hi_opacity: 750,
            sh_opacity: 750,
        },
        shape: Shape { across: 0, width: 1000, height: 1000 },
        caption: false,
        group: 0,
        track: 1,
        enabled: true,
        pngs: vec![],
    }
}

fn editor(clips: Vec<Clip>) -> Editor {
    let mut reel = Snapshot::new(1, 1, 2);
    reel.clips = clips;
    Editor::new(reel, LaneLimits { video: 4, text: 4, audio: 4 })
}

fn names(ed: &Editor) -> Vec<&str> {
    ed.reel.clips.iter().map(|c| c.name.as_str()).collect()
}

#[test]
fn normalize_lanes_grows_counts_from_items() {
    let mut o = cutaway("x", 0.0, 1.0);
    o.track = 5; // V5 → need 4 overlay lanes (V2..V5)
    let mut a = bed("y", 0.0, 1.0);
    a.lane = 4;
    let mut s = Snapshot::new(1, 1, 1);
    s.overlays = vec![o];
    s.audios = vec![a];
    s.titles = vec![TitleItem { track: 3, ..card() }];
    normalize_lanes(&mut s);
    assert_eq!(s.v_lanes, 4); // tracks 2..=5
    assert_eq!(s.t_lanes, 3);
    assert_eq!(s.a_lanes, 4);
    assert!(s.mixer.tracks.len() >= 5); // V1 + A1..A4
    normalize_lanes(&mut s);
    assert_eq!((s.v_lanes, s.t_lanes, s.a_lanes), (4, 3, 4));
}

#[test]
fn undo_and_redo_walk_the_same_steps() {
    let mut ed = editor(vec![clip("a", 0.0, 4.0), clip("b", 0.0, 2.0)]);
    ed.undo();
    assert_eq!(ed.status, "Nothing to undo.");
    ed.selected = Some(Sel::Main(0));
    ed.delete_sel();
    assert_eq!(names(&ed), vec!["b"]);
    ed.undo();
    assert_eq!(names(&ed), vec!["a", "b"]);
    assert_eq!(ed.status, "Undo.");
    ed.redo();
    assert_eq!(names(&ed), vec!["b"]);
    assert_eq!(ed.status, "Redo.");
    ed.redo();
    assert_eq!(ed.status, "Nothing to redo.");
}

#[test]
fn one_drag_is_one_undo_step_and_the_history_has_a_depth() {
    let mut ed = editor(vec![clip("a", 0.0, 4.0)]);
    ed.push_undo("speed0");
    ed.push_undo("speed0");
    assert_eq!(ed.undo_stack.len(), 1);
    ed.end_interaction();
    ed.push_undo("speed0");
    assert_eq!(ed.undo_stack.len(), 2);
    for _ in 0..100 {
        ed.push_undo("");
    }
    assert_eq!(ed.undo_stack.len(), 64);
}

#[test]
fn a_split_makes_two_clips_of_one_and_a_join_undoes_it() {
    let mut ed = editor(vec![clip("a", 1.0, 5.0)]);
    ed.seek_to(s(1.5));
    let poster = ed.split_at_playhead().expect("a new poster");
    assert_eq!((poster.index, poster.at), (1, s(2.5)));
    assert_eq!(ed.reel.clips.len(), 2);
    assert_eq!(ed.reel.clips[0].out_s, s(2.5));
    assert_eq!(ed.reel.clips[1].in_s, s(2.5));
    assert_eq!(total_of(&ed.reel.clips), s(4.0));
    assert_eq!(ed.selected, Some(Sel::Main(1)));
    ed.land_poster(&poster, "data:x".to_string());
    assert_eq!(ed.reel.clips[1].thumb, "data:x");
    ed.selected = Some(Sel::Main(0));
    ed.join_clips();
    assert_eq!(ed.reel.clips.len(), 1);
    assert_eq!((ed.reel.clips[0].in_s, ed.reel.clips[0].out_s), (s(1.0), s(5.0)));
    assert_eq!(ed.status, "Joined halves of a.");
}

#[test]
fn what_rides_on_a_clip_follows_it() {
    let mut ed = editor(vec![clip("a", 0.0, 2.0), clip("b", 0.0, 3.0)]);
    ed.reel.overlays.push(cutaway("o", 2.5, 1.0));
    ed.reel.audios.push(bed("m", 9.0, 1.0));
    ed.selected = Some(Sel::Main(0));
    ed.delete_sel();
    assert_eq!(ed.reel.overlays[0].at, s(0.5), "it rode with its clip");
    assert_eq!(ed.reel.audios[0].at, s(9.0), "past the track nothing rides");
    ed.undo();
    ed.toggle_magnet();
    ed.selected = Some(Sel::Main(0));
    ed.delete_sel();
    assert_eq!(ed.reel.overlays[0].at, s(2.5), "with the magnet off it stays");
}

#[test]
fn trims_follow_the_playhead() {
    let mut ed = editor(vec![clip("a", 0.0, 4.0), clip("b", 0.0, 2.0)]);
    ed.seek_to(s(1.0));
    assert!(ed.set_edge_here(false).is_some());
    assert_eq!(ed.reel.clips[0].in_s, s(1.0));
    assert_eq!(ed.status, "In point set — a now starts at 0:00.0.");
    ed.seek_to(s(2.0));
    ed.set_edge_here(true);
    assert_eq!(ed.reel.clips[0].out_s, s(3.0));
    let mut none = editor(vec![]);
    assert!(none.set_edge_here(true).is_none());
    assert_eq!(none.status, "Add a clip first — I/O trim the clip under the playhead.");
}

#[test]
fn a_ripple_trim_moves_an_edge_by_frames() {
    let mut ed = editor(vec![clip("a", 1.0, 5.0)]);
    ed.ripple_trim(true, 3);
    assert_eq!(ed.status, "Select a clip first to ripple-trim.");
    ed.selected = Some(Sel::Main(0));
    ed.ripple_trim(true, 3);
    assert_eq!(ed.reel.clips[0].out_s, s(5.0) + 3 * FRAME);
    ed.ripple_trim(false, -3);
    assert_eq!(ed.reel.clips[0].in_s, s(1.0) - 3 * FRAME);
}

#[test]
fn clips_swap_places_and_blocks_move_together() {
    let mut ed = editor(vec![clip("a", 0.0, 1.0), clip("b", 0.0, 1.0), clip("c", 0.0, 1.0)]);
    ed.selected = Some(Sel::Main(0));
    ed.move_sel(1);
    assert_eq!(names(&ed), vec!["b", "a", "c"]);
    assert_eq!(ed.selected, Some(Sel::Main(1)));
    ed.move_sel(5);
    assert_eq!(names(&ed), vec!["b", "a", "c"]);
    ed.reel.clips[0].group = 7;
    ed.reel.clips[1].group = 7;
    assert_eq!(block_of(&ed.reel.clips, 1), (0, 2));
    assert_eq!(block_of(&ed.reel.clips, 2), (2, 1));
    ed.move_block(0, 2, 1);
    assert_eq!(names(&ed), vec!["c", "b", "a"]);
}

#[test]
fn a_group_moves_as_one_and_stops_at_the_start() {
    let mut ed = editor(vec![clip("a", 0.0, 9.0)]);
    ed.reel.overlays.push(cutaway("o", 1.0, 1.0));
    ed.reel.audios.push(bed("m", 4.0, 1.0));
    ed.group_marked();
    assert_eq!(ed.status, "Ctrl+click two or more timeline items, then Ctrl+G to group them.");
    ed.toggle_mark(Sel::Over(0));
    ed.toggle_mark(Sel::Aud(0));
    ed.group_marked();
    let g = ed.reel.group_of(Sel::Over(0));
    assert!(g != 0 && g == ed.reel.group_of(Sel::Aud(0)));
    ed.shift_lane(Sel::Over(0), s(-3.0));
    assert_eq!((ed.reel.overlays[0].at, ed.reel.audios[0].at), (0, s(3.0)));
    ed.selected = Some(Sel::Aud(0));
    ed.ungroup_sel();
    assert_eq!(ed.reel.group_of(Sel::Over(0)), 0);
    assert_eq!(ed.status, "Ungrouped.");
}

#[test]
fn a_layer_groups_and_moves_with_the_rest() {
    let mut ed = editor(vec![clip("a", 0.0, 9.0)]);
    ed.reel.overlays.push(cutaway("o", 1.0, 1.0));
    ed.reel.adjustments.push(AdjustmentItem::new(s(2.0), s(1.0)));
    ed.toggle_mark(Sel::Over(0));
    ed.toggle_mark(Sel::Adjust(0));
    ed.group_marked();
    assert!(ed.reel.adjustments[0].group != 0);
    assert_eq!(ed.reel.adjustments[0].group, ed.reel.overlays[0].group);
    ed.shift_lane(Sel::Over(0), s(1.0));
    assert_eq!((ed.reel.overlays[0].at, ed.reel.adjustments[0].at), (s(2.0), s(3.0)));
    ed.selected = Some(Sel::Adjust(0));
    ed.ungroup_sel();
    assert_eq!((ed.reel.adjustments[0].group, ed.reel.overlays[0].group), (0, 0));
}

#[test]
fn a_split_off_the_selected_item_cuts_the_main_track() {
    let mut ed = editor(vec![clip("a", 0.0, 8.0)]);
    ed.reel.overlays.push(cutaway("o", 1.0, 2.0));
    ed.seek_to(s(2.0));
    ed.selected = Some(Sel::Over(0));
    assert!(ed.split_at_playhead().is_none());
    assert_eq!((ed.reel.overlays.len(), ed.reel.clips.len()), (2, 1), "inside it the cutaway is cut");
    ed.seek_to(s(6.0));
    ed.selected = Some(Sel::Over(0));
    assert!(ed.split_at_playhead().is_some());
    assert_eq!((ed.reel.overlays.len(), ed.reel.clips.len()), (2, 2), "past it the clip is cut");
    ed.reel.audios.push(bed("m", 0.0, 2.0));
    ed.seek_to(s(2.0));
    ed.selected = Some(Sel::Aud(0));
    ed.split_at_playhead();
    assert_eq!((ed.reel.audios.len(), ed.reel.clips.len()), (1, 3), "its end is outside it");
}

#[test]
fn a_second_solo_press_clears_every_solo() {
    let mut ed = editor(vec![clip("a", 0.0, 4.0), clip("b", 0.0, 4.0)]);
    ed.reel.audios.push(bed("m", 0.0, 2.0));
    ed.selected = Some(Sel::Main(0));
    ed.toggle_solo_sel();
    ed.selected = Some(Sel::Aud(0));
    ed.toggle_solo_sel();
    assert!(ed.reel.clips[0].solo && ed.reel.audios[0].solo);
    ed.toggle_solo_sel();
    assert!(!ed.reel.clips[0].solo && !ed.reel.audios[0].solo);
}

#[test]
fn nudges_and_jumps() {
    let mut ed = editor(vec![clip("a", 0.0, 2.0), clip("b", 0.0, 3.0)]);
    ed.reel.overlays.push(cutaway("o", 1.0, 1.0));
    ed.nudge_item(1);
    assert_eq!(ed.status, "Select a cutaway, title, bed or FX layer to nudge.");
    ed.selected = Some(Sel::Main(0));
    ed.nudge_item(1);
    assert_eq!(ed.status, "V1 clips are magnetic — nudge a cutaway, title, bed or FX layer instead.");
    ed.selected = Some(Sel::Over(0));
    ed.nudge_item(2);
    assert_eq!(ed.reel.overlays[0].at, s(1.0) + 2 * FRAME);
    ed.seek_to(s(1.0));
    ed.jump_edit(1);
    assert_eq!(ed.playhead, s(2.0));
    ed.jump_edit(-1);
    assert_eq!(ed.playhead, 0);
    ed.nudge(s(-1.0));
    assert_eq!(ed.playhead, 0);
    ed.step_sel(1);
    assert_eq!(ed.selected, Some(Sel::Main(1)));
}

#[test]
fn a_freeze_is_held_between_two_halves() {
    let mut ed = editor(vec![clip("a", 0.0, 4.0)]);
    ed.seek_to(s(2.0));
    let job = ed.add_freeze_frame().expect("a frame to take");
    assert_eq!(ed.status, "Capturing freeze frame from a…");
    ed.land_freeze(&job, Ok("/tmp/f.png".to_string()), String::new());
    assert_eq!(ed.reel.clips.len(), 3);
    assert_eq!(ed.reel.clips[1].path, "/tmp/f.png");
    assert_eq!(total_of(&ed.reel.clips), s(4.0) + FREEZE_HOLD);
    ed.land_freeze(&job, Err("no".to_string()), String::new());
    assert_eq!(ed.status, "Freeze frame failed: no");
    let mut none = editor(vec![]);
    assert!(none.add_freeze_frame().is_none());
    assert_eq!(none.status, "Park the playhead on a V1 clip to freeze a frame.");
}

#[test]
fn a_replay_shows_the_lead_up_at_half_speed() {
    let mut ed = editor(vec![clip("a", 0.0, 4.0)]);
    ed.seek_to(s(2.0));
    ed.instant_replay();
    let slow: Vec<&Clip> = ed.reel.clips.iter().filter(|c| c.speed == 500).collect();
    assert_eq!(slow.len(), 1);
    assert_eq!((slow[0].in_s, slow[0].out_s), (s(0.5), s(2.0)));
    ed.seek_to(0);
    ed.instant_replay();
    assert_eq!(ed.status, "Need a bit more clip before the playhead to replay.");
}

#[test]
fn a_dissolve_shortens_the_reel() {
    let mut ed = editor(vec![clip("a", 0.0, 4.0), clip("b", 0.0, 4.0)]);
    ed.selected = Some(Sel::Main(1));
    ed.add_cross_dissolve();
    assert_eq!(ed.reel.clips[1].transition, Some("Cross dissolve".to_string()));
    assert!(total_of(&ed.reel.clips) < s(8.0));
    ed.edit_clip(1, ClipEdit::TransitionLength(s(2.0)));
    assert_eq!(total_of(&ed.reel.clips), s(6.0));
    ed.edit_clip(1, ClipEdit::Transition(None));
    assert_eq!(total_of(&ed.reel.clips), s(8.0));
}

#[test]
fn silence_is_cut_out() {
    let mut ed = editor(vec![clip("a", 0.0, 6.0)]);
    ed.selected = Some(Sel::Main(0));
    assert_eq!(ed.autocut_targets(true), vec![0]);
    ed.run_autocut(&vec![Some(vec![(s(0.0), s(1.0)), (s(3.0), s(5.0))])], &vec![]);
    assert_eq!(ed.reel.clips.len(), 2);
    assert_eq!(total_of(&ed.reel.clips), s(3.0));
    assert_eq!((ed.reel.clips[1].in_s, ed.reel.clips[1].out_s), (s(3.0), s(5.0)));
    ed.run_autocut(&vec![Some(vec![]), Some(vec![])], &vec![]);
    assert_eq!(ed.status, "Auto-cut would remove everything — raise the threshold or lower min silence.");
}

#[test]
fn muting_disabling_and_soloing_toggle() {
    let mut ed = editor(vec![clip("a", 0.0, 4.0)]);
    ed.mute_sel();
    assert_eq!(ed.status, "Select a V1 clip or A-lane bed to mute.");
    ed.selected = Some(Sel::Main(0));
    ed.mute_sel();
    assert_eq!((ed.reel.clips[0].volume, ed.status.as_str()), (0, "a muted."));
    ed.mute_sel();
    assert_eq!((ed.reel.clips[0].volume, ed.status.as_str()), (1000, "a unmuted."));
    ed.toggle_disable_sel();
    assert!(!ed.reel.clips[0].enabled);
    ed.toggle_disable_sel();
    assert!(ed.reel.clips[0].enabled);
    ed.toggle_solo_sel();
    assert!(ed.reel.any_solo());
    ed.toggle_solo_sel();
    assert!(!ed.reel.any_solo(), "a second press lets everything be heard again");
    ed.toggle_solo_sel();
    ed.clear_all_solos();
    assert!(!ed.reel.any_solo());
    assert_eq!(ed.status, "Solo off — full mix restored.");
}

#[test]
fn looks_are_pasted_and_reset() {
    let mut ed = editor(vec![clip("a", 0.0, 4.0), clip("b", 0.0, 4.0)]);
    ed.paste_attrs();
    assert_eq!(ed.status, "Copy a clip or cutaway first (Ctrl+C), then paste its look.");
    ed.selected = Some(Sel::Main(0));
    ed.apply_effect("Warm".to_string());
    ed.set_effect_amount(500);
    ed.set_selected_grade(3);
    ed.copy_sel();
    ed.selected = Some(Sel::Main(1));
    ed.paste_attrs();
    let l = &ed.reel.clips[1].look;
    assert_eq!((l.effect.clone(), l.effect_amount, l.grade), (Some("Warm".to_string()), 500, 3));
    ed.selected = Some(Sel::Main(1));
    ed.reset_attrs();
    assert_eq!(ed.reel.clips[1].look.effect, None);
    assert_eq!(ed.reel.clips[1].look.transform, Transform::default());
}

#[test]
fn bands_backdrops_and_pushes() {
    let mut ed = editor(vec![clip("a", 0.0, 4.0)]);
    ed.selected = Some(Sel::Main(0));
    ed.set_band(Band::High);
    let t = ed.selected_xf().unwrap();
    assert_eq!((t.scale_y, t.y, t.cover), (340, -220, true));
    ed.set_band(Band::Fill);
    assert_eq!(ed.selected_xf().unwrap(), Transform::default());
    assert_eq!(ed.status, "Filling the frame.");
    ed.set_background(2, "Navy");
    assert_eq!(ed.reel.clips[0].look.transform.bg, 2);
    assert_eq!(ed.status, "Background: Navy — shows behind a banded clip.");
    ed.selected = Some(Sel::Main(0));
    ed.set_ken_burns(true);
    assert!(ed.reel.clips[0].look.transform.scale.is_animated());
    let back = mirrored(mirrored(Transform::default(), "Both"), "None");
    assert_eq!(back, Transform::default());
    assert_eq!(mirror_label(&mirrored(back, "Across")), "Across");
}

#[test]
fn copies_are_pasted_at_the_playhead() {
    let mut ed = editor(vec![clip("a", 0.0, 4.0)]);
    ed.paste_sel();
    assert_eq!(ed.status, "Clipboard is empty — copy a timeline item first.");
    ed.reel.overlays.push(cutaway("o", 1.0, 1.0));
    ed.selected = Some(Sel::Over(0));
    ed.copy_sel();
    assert_eq!(ed.status, "Cutaway copied — Ctrl+V pastes at the playhead.");
    ed.seek_to(s(2.0));
    ed.paste_sel();
    assert_eq!(ed.reel.overlays[1].at, s(2.0));
    assert_eq!(ed.reel.overlays[1].name, "o");
}

#[test]
fn markers_are_dropped_once_and_kept_in_order() {
    let mut ed = editor(vec![clip("a", 0.0, 9.0)]);
    ed.seek_to(s(3.0));
    ed.drop_marker();
    ed.drop_marker();
    ed.seek_to(s(1.0));
    ed.drop_marker();
    assert_eq!(ed.reel.markers, vec![s(1.0), s(3.0)]);
    assert_eq!(ed.status, "Marker at 0:01.0 (2 total) — tap M on the beat while it plays.");
    ed.clear_markers();
    assert!(ed.reel.markers.is_empty());
}

#[test]
fn files_come_in_on_their_lanes() {
    let mut ed = editor(vec![]);
    let file = Probed { path: "/m/v.mp4".to_string(), duration: s(8.0), out_s: s(8.0), has_audio: true };
    ed.begin_import();
    ed.import_one_clip(&file, "thumb".to_string(), None);
    ed.end_import(1, &vec![]);
    assert_eq!(names(&ed), vec!["v.mp4"]);
    assert_eq!(ed.status, "1 added — 1 clip(s) on the timeline.");
    ed.add_overlay_path(&file, s(1.0), 3);
    assert_eq!(ed.reel.overlays[0].at, s(1.0));
    ed.add_audio_path(&file, s(2.0), 2);
    assert_eq!((ed.reel.audios[0].lane, ed.reel.audios[0].at), (2, s(2.0)));
    let mute = Probed { path: "/m/v.mp4".to_string(), duration: s(8.0), out_s: s(8.0), has_audio: false };
    ed.add_audio_path(&mute, 0, 1);
    assert_eq!(ed.status, "v.mp4 has no audio stream.");
    ed.add_v_track();
    ed.add_t_track();
    assert_eq!(ed.status, "Added text track T2.");
    ed.add_a_track();
    assert_eq!(ed.status, "Added audio track A3.");
}

#[test]
fn an_inspector_edit_rides_only_where_the_length_changes() {
    let mut ed = editor(vec![clip("a", 0.0, 4.0), clip("b", 0.0, 4.0)]);
    ed.reel.overlays.push(cutaway("o", 5.0, 1.0));
    ed.edit_clip(0, ClipEdit::Speed(2000));
    assert_eq!((start_of(&ed.reel.clips, 1), ed.reel.overlays[0].at), (s(2.0), s(3.0)));
    ed.edit_clip(0, ClipEdit::Speed(1));
    assert_eq!(ed.reel.clips[0].speed, 50);
    ed.edit_clip(0, ClipEdit::Reverse);
    assert!(ed.reel.clips[0].reverse);
    ed.edit_clip(0, ClipEdit::Volume(700));
    ed.edit_clip(0, ClipEdit::Denoise(200));
    ed.edit_clip(0, ClipEdit::Treat(Some("Warm".to_string())));
    ed.edit_clip(0, ClipEdit::Framing("Fit".to_string()));
    ed.edit_clip(0, ClipEdit::Effect(Some("B&W".to_string())));
    let c = &ed.reel.clips[0];
    assert_eq!((c.volume, c.denoise, c.framing.as_str()), (700, 200, "Fit"));
    assert_eq!(c.look.effect, Some("B&W".to_string()));
}

#[test]
fn a_cutaway_keeps_a_tenth_of_a_second() {
    let mut ed = editor(vec![clip("a", 0.0, 9.0)]);
    ed.reel.overlays.push(cutaway("o", 1.0, 2.0));
    ed.reel.overlays[0].proxy = "/p/o.mp4".to_string();
    match ed.edit_overlay(0, OverlayEdit::In(s(5.0))) {
        Some(MonitorPlan::Draw { base, over }) => {
            assert_eq!((base.path.as_str(), base.at, base.framing.as_str()), ("/p/o.mp4", s(1.9), "Crop"));
            assert!(over.layers.is_empty() && over.titles.is_empty() && over.blend.is_none());
        }
        _ => panic!("the new point is shown"),
    }
    assert_eq!(ed.reel.overlays[0].in_s, s(1.9));
    assert_eq!((ed.undo_stack.len(), ed.undo_tag.as_str()), (1, "oin0"));
    ed.edit_overlay(0, OverlayEdit::In(s(6.0)));
    assert_eq!(ed.undo_stack.len(), 1, "one drag of one slider is one step");
    match ed.edit_overlay(0, OverlayEdit::Out(s(1.0))) {
        Some(MonitorPlan::Draw { base, .. }) => assert_eq!(base.at, s(2.0)),
        _ => panic!("the new point is shown"),
    }
    assert_eq!(ed.reel.overlays[0].out_s, s(2.0));
    assert!(ed.edit_overlay(0, OverlayEdit::Track(9)).is_none());
    assert_eq!(ed.reel.overlays[0].track, 2);
    ed.edit_overlay(0, OverlayEdit::At(s(3.0)));
    assert_eq!((ed.reel.overlays[0].at, ed.undo_tag.as_str()), (s(3.0), "opos0"));
}

#[test]
fn layers_and_strips_are_changed() {
    let mut ed = editor(vec![clip("a", 0.0, 9.0)]);
    ed.reel.adjustments.push(AdjustmentItem::new(0, s(1.0)));
    ed.seek_to(s(2.0));
    ed.edit_layer(0, LayerEdit::StartAtPlayhead);
    assert_eq!(ed.reel.adjustments[0].at, s(2.0));
    ed.edit_layer(0, LayerEdit::WholeReel);
    assert_eq!((ed.reel.adjustments[0].at, ed.reel.adjustments[0].dur), (0, s(9.0)));
    ed.edit_strip(1, StripEdit::Mute);
    ed.edit_strip(2, StripEdit::Solo);
    ed.edit_strip(0, StripEdit::Gain(500));
    ed.set_master(800);
    let m = &ed.reel.mixer;
    assert!(m.tracks[1].mute && m.tracks[2].solo);
    assert_eq!((m.tracks[0].gain, m.master), (500, 800));
    assert_eq!(m.gain_of(0), 0, "another strip is soloed");
}

#[test]
fn a_bed_is_shaped() {
    let mut ed = editor(vec![clip("a", 0.0, 9.0)]);
    ed.reel.audios.push(bed("m", 1.0, 10.0));
    ed.edit_bed(0, BedEdit::FadeBoth);
    assert_eq!((ed.reel.audios[0].fade_in, ed.reel.audios[0].fade_out), (s(0.5), s(0.5)));
    ed.edit_bed(0, BedEdit::NoFades);
    assert_eq!(ed.reel.audios[0].fade_in, 0);
    ed.edit_bed(0, BedEdit::Polish);
    let a = &ed.reel.audios[0];
    assert_eq!((a.treat.clone(), a.shaping.denoise, a.shaping.compress), (Some("Voice enhance".to_string()), 350, 350));
    ed.edit_bed(0, BedEdit::Earlier);
    assert_eq!(ed.reel.audios[0].at, s(1.0) - FRAME);
    ed.edit_bed(0, BedEdit::Later);
    ed.edit_bed(0, BedEdit::Lane(9));
    assert_eq!(ed.reel.audios[0].lane, 2);
    ed.seek_to(s(3.0));
    ed.sync_bed(0);
    assert_eq!((ed.reel.audios[0].at, ed.status.as_str()), (s(3.0), "Synced A2 start to 0:03.0."));
    assert_eq!(lane_tag(0), "A1");
    ed.edit_bed(0, BedEdit::In(s(1.0)));
    assert_eq!(ed.undo_tag, "ain0");
    let steps = ed.undo_stack.len();
    ed.edit_bed(0, BedEdit::In(s(1.5)));
    assert_eq!(ed.undo_stack.len(), steps);
    ed.edit_bed(0, BedEdit::VolumeEnd(300));
    assert!(ed.begin_normalize(0).is_some());
    ed.land_loudness(0, Ok((-203, 2066)));
    assert_eq!((ed.reel.audios[0].volume, ed.reel.audios[0].vol_end), (2066, None));
    assert_eq!(ed.status, "Normalized to −14 LUFS (was -20.3; gain 2.07×).");
    ed.land_loudness(0, Err("no".to_string()));
    assert_eq!(ed.status, "Normalize failed: no");
    assert!(ed.begin_normalize(4).is_none());
}

#[test]
fn seeking_follows_the_picture_only_in_its_phases() {
    let mut ed = editor(vec![clip("a", 0.0, 2.0), clip("b", 0.0, 2.0)]);
    ed.seek_to(s(3.0));
    assert_eq!(ed.selected, Some(Sel::Main(1)));
    ed.phase = Phase::Audio;
    ed.seek_to(s(1.0));
    assert_eq!(ed.selected, Some(Sel::Main(1)));
    ed.select_clip(0);
    assert_eq!((ed.selected, ed.playhead), (Some(Sel::Main(0)), 0));
    ed.phase = Phase::Cut;
    ed.selected = None;
    ed.seek_to(s(3.0));
    ed.selected = None;
    ed.pick_step(Phase::Style);
    assert_eq!(ed.selected, Some(Sel::Main(1)));
    assert_eq!(ed.sel_key_time(), Some(s(1.0)));
}
