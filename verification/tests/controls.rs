//! Keys, knobs, tiles, layouts, projects and hand-offs.

use morreel::adds::poster_time;
use morreel::editor::Editor;
use morreel::hub::{hub_buttons, HubAction, Manifest, PluginKind, RowEvent};
use morreel::keyframes::{Animated, Interp};
use morreel::knobs::{transform_knobs, XfKnob};
use morreel::lanes::LaneLimits;
use morreel::menus::{ctx_rows, switch_labels, Doing, ItemRow, MenuRow};
use morreel::model::{AudioItem, Clip, Look, Sel, Shape, Shaping, Snapshot, TitleItem, TitleStyle, Transform};
use morreel::otio::{snapshot_to_otio, Part};
use morreel::saved::{timeline_dirty, ProjectSettings, QuitAct};
use morreel::shelf::preset_layouts;
use morreel::shortcuts::{command_for, help_key, Command, KeyScheme};
use morreel::tiles::{item_class, resize, ClipAppear};
use morreel::time::{Time, FRAME};

fn s(x: f64) -> Time {
    (x * 3_000_000.0).round() as Time
}

fn clip(in_s: f64, out_s: f64) -> Clip {
    Clip {
        path: "/m/a.mp4".to_string(),
        name: "a".to_string(),
        duration: s(20.0),
        in_s: s(in_s),
        out_s: s(out_s),
        has_audio: true,
        look: Look::default(),
        framing: "Crop".to_string(),
        speed: 1000,
        reverse: false,
        volume: 1000,
        denoise: 0,
        treat: None,
        transition: None,
        trans_dur: s(0.5),
        thumb: String::new(),
        wave: String::new(),
        proxy: String::new(),
        group: 0,
        enabled: true,
        solo: false,
    }
}

fn bed(name: &str, at: f64, len: f64) -> AudioItem {
    AudioItem {
        path: format!("/m/{name}.mp3"),
        name: name.to_string(),
        duration: s(30.0),
        in_s: 0,
        out_s: s(len),
        at: s(at),
        volume: 1000,
        vol_end: None,
        fade_in: 0,
        fade_out: 0,
        shaping: Shaping::default(),
        treat: None,
        lane: 1,
        wave: "data:w".to_string(),
        group: 0,
        enabled: true,
        solo: false,
    }
}

fn card() -> TitleItem {
    TitleItem {
        text: "Hi".to_string(),
        kind: "Text".to_string(),
        at: 0,
        dur: s(3.0),
        style: TitleStyle {
            font: "Sans".to_string(),
            font_size: 110,
            color: "White".to_string(),
            pos: "Middle".to_string(),
            y_frac: None,
            align: "Centre".to_string(),
            anim: None,
            reveal: false,
            karaoke: false,
            karaoke_color: "Gold".to_string(),
            boxed: false,
            box_opacity: 550,
            outline: 0,
            outline_color: "Black".to_string(),
            bevel: "Cameo".to_string(),
            bevel_size: 21,
            soften: 4,
            depth: 100,
            angle: 120,
            altitude: 30,
            hi_opacity: 750,
            sh_opacity: 750,
        },
        shape: Shape { across: 0, width: 1000, height: 1000 },
        caption: false,
        group: 0,
        track: 1,
        enabled: true,
        pngs: vec!["/cache/card.png".to_string()],
    }
}

fn editor(clips: Vec<Clip>) -> Editor {
    let mut reel = Snapshot::new(1, 1, 2);
    reel.clips = clips;
    Editor::new(reel, LaneLimits { video: 4, text: 4, audio: 4 })
}

#[test]
fn keyframe_velocity_cycles_and_reports() {
    // Arm a scale curve with two keys, the second (at t=1) defaulting to Smooth.
    let mut a = Animated::Const(1000).toggle_key(s(0.0), 1000); // first diamond → Curve
    a = a.write(s(1.0), 1500); // animated now → keys t=1 at Smooth
    assert_eq!(a.key_interp(s(1.0)), Some(Interp::Smooth));
    a = a.cycle_interp(s(1.0));
    assert_eq!(a.key_interp(s(1.0)), Some(Interp::Linear));
    a = a.cycle_interp(s(1.0));
    assert_eq!(a.key_interp(s(1.0)), Some(Interp::Hold));
    a = a.cycle_interp(s(1.0));
    assert_eq!(a.key_interp(s(1.0)), Some(Interp::Smooth)); // wraps
    // Cycling changes only the ease, not the value: pulling the first key leaves it.
    let left = a.clone().toggle_key(s(0.0), 1000).toggle_key(s(1.0), 0);
    assert_eq!(left, Animated::Const(1500));
    // No key at this time → nothing to report or cycle.
    assert_eq!(a.key_interp(s(0.5)), None);
    assert_eq!(a.clone().cycle_interp(s(0.5)), a);
}

#[test]
fn transform_knob_table_writes_each_field_once() {
    let mut ed = editor(vec![clip(0.0, 4.0)]);
    ed.selected = Some(Sel::Main(0));
    for (i, knob) in transform_knobs(true).into_iter().enumerate() {
        ed.write_knob(knob, i as i32 + 1);
    }
    let t = ed.selected_xf().unwrap();
    // Knob order (place → size → spin → anchor → opacity), so field i gets i+1.
    assert_eq!(
        (t.x, t.y, t.scale_x, t.scale_y, t.rotation, t.anchor_x, t.anchor_y),
        (1, 2, 4, 5, 6, 7, 8)
    );
    assert_eq!((t.scale, t.opacity), (Animated::Const(3), Animated::Const(9)));
    // V1 has nothing underneath it, so opacity is not offered there.
    assert_eq!(transform_knobs(false).len(), 8);
    assert_eq!(transform_knobs(true).len(), 9);
    assert!(!transform_knobs(false).iter().any(|k| k.label() == "Opacity"));

    // Every slider's range must contain the value it starts at, or the
    // control would jump the moment it is touched.
    let d = Transform::default();
    let starts = [d.x, d.y, 1000, d.scale_x, d.scale_y, d.rotation, d.anchor_x, d.anchor_y, 1000];
    assert_eq!((d.scale, d.opacity), (Animated::Const(1000), Animated::Const(1000)));
    for (knob, value) in transform_knobs(true).into_iter().zip(starts) {
        let (min, max) = knob.range();
        assert!(value >= min && value <= max, "{} default {value} is outside {min}..{max}", knob.label());
    }
}

#[test]
fn keys_are_dropped_at_the_playhead_of_the_selected_item() {
    let mut ed = editor(vec![clip(0.0, 4.0)]);
    ed.seek_to(s(1.0));
    ed.selected = Some(Sel::Main(0));
    assert!(!ed.field_animated(XfKnob::Scale));
    ed.toggle_key(XfKnob::Scale, 1000);
    assert!(ed.field_animated(XfKnob::Scale) && !ed.field_animated(XfKnob::Opacity));
    assert_eq!(ed.sel_key_interp(XfKnob::Scale), Some(Interp::Smooth));
    ed.cycle_velocity(XfKnob::Scale);
    assert_eq!(ed.sel_key_interp(XfKnob::Scale), Some(Interp::Linear));
    ed.toggle_key(XfKnob::Scale, 1000);
    assert!(!ed.field_animated(XfKnob::Scale));
    assert_eq!(ed.selected_xf().unwrap().scale, Animated::Const(1000));
    assert!(XfKnob::Scale.keyable() && !XfKnob::Rotation.keyable());
}

#[test]
fn item_class_marks_disabled_and_solo() {
    assert!(item_class("mr-clip", true, false, true, false).contains("disabled"));
    assert!(item_class("mr-clip", false, false, false, true).contains("solo"));
    assert!(!item_class("mr-clip", false, false, false, false).contains("disabled"));
}

#[test]
fn clip_appear_heights_scale_and_modes_hide_strips() {
    assert_eq!(ClipAppear::FilmWave.heights(1000), (72_000, 22_000));
    assert_eq!(ClipAppear::FilmWave.heights(2000), (144_000, 44_000));
    assert!(!ClipAppear::Wave.show_film());
    assert!(ClipAppear::Wave.show_wave());
    assert!(ClipAppear::Film.show_film());
    assert!(!ClipAppear::Film.show_wave());
    assert!(ClipAppear::Labels.labels_only());
    assert_eq!(ClipAppear::all().len(), 6);
    assert_eq!(ClipAppear::FilmWave.lane_height(1000, true), 94_000);
    assert_eq!(ClipAppear::FilmWave.lane_height(1000, false), 72_000);
}

#[test]
fn clips_are_drawn_between_half_and_twice_their_size() {
    assert_eq!(resize(1000, true), 1150);
    assert_eq!(resize(1000, false), 850);
    assert_eq!(resize(1900, true), 2000);
    assert_eq!(resize(600, false), 500);
}

#[test]
fn key_schemes_round_trip_and_remap_only_the_blade() {
    // Persistence id round-trips; an unknown id falls back to the default.
    for k in KeyScheme::all() {
        assert_eq!(KeyScheme::from_id(k.id()), k);
    }
    assert_eq!(KeyScheme::from_id("nonsense"), KeyScheme::MorReel);

    // Each editor spells the blade differently — that's the whole point.
    let splits: Vec<&str> = KeyScheme::all().iter().map(|k| k.split()).collect();
    assert_eq!(splits, vec!["S", "Ctrl+\\", "Ctrl+K", "Ctrl+B"]);

    // The help table only swaps the blade row; everything else is scheme-blind.
    assert_eq!(help_key("S", "Split at playhead", KeyScheme::Premiere), "Ctrl+K");
    assert_eq!(help_key("Space", "Play / pause", KeyScheme::Premiere), "Space");
}

#[test]
fn keys_do_what_the_help_says() {
    let own = KeyScheme::MorReel;
    assert_eq!(command_for("S", own), Some(Command::Split));
    assert_eq!(command_for("S", KeyScheme::Premiere), None);
    assert_eq!(command_for("Ctrl+K", KeyScheme::Premiere), Some(Command::Split));
    assert_eq!(command_for("ArrowLeft", own), Some(Command::Nudge(s(-0.1))));
    assert_eq!(command_for("Shift+ArrowRight", own), Some(Command::Nudge(s(1.0))));
    assert_eq!(command_for(",", own), Some(Command::Nudge(-FRAME)));
    assert_eq!(command_for("Shift+.", own), Some(Command::NudgeItem(1)));
    assert_eq!(command_for("Ctrl+Shift+,", own), Some(Command::NudgeItem(-10)));
    assert_eq!(command_for("Alt+.", own), Some(Command::Trim { out: true, frames: 1 }));
    assert_eq!(command_for("Shift+Alt+,", own), Some(Command::Trim { out: false, frames: -1 }));
    assert_eq!(command_for("Ctrl+Alt+6", own), Some(Command::Appear(ClipAppear::Labels)));
    assert_eq!(command_for("Ctrl+Q", own), Some(Command::Quit));
    assert_eq!(command_for("Q", own), None);
    assert_eq!(
        KeyScheme::FinalCut.chosen(),
        "Keyboard layout: Final Cut Pro — split is now Ctrl+B"
    );
}

#[test]
fn otio_export_is_valid_and_carries_clips_and_captions() {
    let mut c = clip(0.0, 2.0);
    c.path = "/media/shot.mp4".to_string();
    c.name = "shot".to_string();
    let mut title = card();
    title.text = "hello world".to_string();
    title.at = s(1.0);
    title.dur = s(2.0);
    let mut snap = Snapshot::new(1, 1, 2);
    snap.clips = vec![c];
    snap.titles = vec![title];

    let tracks = snapshot_to_otio(&snap);
    let names: Vec<&str> = tracks.iter().map(|t| t.name.as_str()).collect();
    assert_eq!(names, vec!["V1", "V2", "A1", "A2", "Captions"]);
    assert_eq!(tracks.len(), 5); // V1 V2 A1 A2 Captions

    // V1's clip references the media by a file:// URL at its source span.
    match &tracks[0].parts[0] {
        Part::Item(p) => {
            assert_eq!(p.url.as_deref(), Some("file:///media/shot.mp4"));
            assert_eq!(p.dur / FRAME, 60); // 2s @ 30fps
        }
        Part::Gap(_) => panic!("a clip was there"),
    }

    // The caption lands on the Captions track, gapped to its start at 1s.
    let caps = &tracks[4].parts;
    assert!(matches!(caps[0], Part::Gap(t) if t == s(1.0))); // 0..1s
    match &caps[1] {
        Part::Item(p) => {
            assert_eq!(p.name, "hello world");
            assert_eq!(p.url, None);
        }
        Part::Gap(_) => panic!("a caption was there"),
    }
}

#[test]
fn a_lane_is_handed_off_in_the_order_of_its_times() {
    let mut snap = Snapshot::new(1, 1, 2);
    snap.audios = vec![bed("late", 6.0, 2.0), bed("early", 1.0, 3.0)];
    let tracks = snapshot_to_otio(&snap);
    assert!(!tracks[2].video);
    let mut at = 0;
    let mut starts = vec![];
    for p in &tracks[2].parts {
        match p {
            Part::Gap(t) => at += *t,
            Part::Item(p) => {
                starts.push((p.name.clone(), at));
                at += p.dur;
            }
        }
    }
    assert_eq!(starts, vec![("early".to_string(), s(1.0)), ("late".to_string(), s(6.0))]);
    assert!(tracks[3].parts.is_empty());
}

#[test]
fn layout_presets_are_distinct_arrangements() {
    let all = preset_layouts();
    // The presets are real arrangement changes, not relabels: Focus hides the
    // inspector, Editing docks it, Floating floats it.
    let get = |n: &str| all.iter().find(|l| l.name == n).unwrap().panel;
    assert!(!get("Focus").open);
    assert!(get("Editing").open && !get("Editing").float);
    assert!(get("Floating").float);
}

#[test]
fn a_project_keeps_the_edit_and_drops_what_can_be_made_again() {
    let mut c = clip(1.0, 3.0);
    c.speed = 1500;
    c.volume = 250;
    c.thumb = "data:image/jpeg;base64,AAAA".to_string(); // derived, must not persist
    c.proxy = "/cache/proxy.mp4".to_string();
    let mut ed = editor(vec![c]);
    ed.reel.titles.push(card());
    ed.reel.audios.push(bed("m", 0.0, 2.0));
    ed.reel.markers = vec![s(2.5)];
    let mut settings = ProjectSettings::default();
    settings.platform = "Reels".to_string();
    let project = ed.reel.to_project(&settings);
    let r = &project.snap.clips[0];
    assert!(r.thumb.is_empty() && r.proxy.is_empty(), "derived data should reload empty");
    assert!(project.snap.titles[0].pngs.is_empty() && project.snap.audios[0].wave.is_empty());

    let mut other = editor(vec![]);
    let mut seen = ProjectSettings::default();
    assert_eq!(seen.platform, "All platforms");
    other.open_project(&mut seen, Ok((project, 0)), "reel");
    assert_eq!(other.reel.markers, vec![s(2.5)], "beat markers should save with the project");
    let r = &other.reel.clips[0];
    assert_eq!((r.in_s, r.out_s, r.speed, r.volume), (s(1.0), s(3.0), 1500, 250));
    assert_eq!(seen.platform, "Reels");
    assert!(!timeline_dirty(&other.reel, Some(&ed.reel)), "what was saved is what is open");
    other.open_project(&mut seen, Err("no such file".to_string()), "reel");
    assert_eq!(seen.platform, "Reels");
    assert_eq!(other.reel.clips.len(), 1);
}

#[test]
fn quitting_asks_before_work_is_lost() {
    let mut ed = editor(vec![]);
    assert_eq!(ed.quit(false, true, None), QuitAct::Close);
    assert_eq!(ed.quit(true, true, None), QuitAct::Ask);
    assert_eq!(ed.quit(true, true, Some(false)), QuitAct::Stay);
    assert_eq!(ed.quit(true, true, Some(true)), QuitAct::Close);
    assert_eq!(ed.quit(true, false, None), QuitAct::Stay);
    assert_eq!(ed.status, "Save the reel first (File → Save), then Quit.");
}

#[test]
fn a_plugin_row_offers_what_can_be_done() {
    assert_eq!(hub_buttons(false, false), vec![("Install".to_string(), HubAction::Install)]);
    assert_eq!(
        hub_buttons(true, true),
        vec![("Enabled".to_string(), HubAction::Disable), ("Remove".to_string(), HubAction::Uninstall)]
    );
    assert_eq!(hub_buttons(true, false)[0], ("Disabled".to_string(), HubAction::Enable));
}

#[test]
fn a_plugin_row_calls_back_once_per_click() {
    let m = Manifest {
        id: "grain".to_string(),
        kind: PluginKind::Bundle,
        install: None,
        run: None,
        effects: Some(1),
    };
    assert_eq!(m.on_row(true, true, RowEvent::Render), None);
    assert_eq!(m.on_row(false, false, RowEvent::Click(0)), Some(("grain".to_string(), HubAction::Install)));
    assert_eq!(m.on_row(false, false, RowEvent::Click(1)), None);
    assert_eq!(m.on_row(true, true, RowEvent::Click(0)), Some(("grain".to_string(), HubAction::Disable)));
    assert_eq!(m.on_row(true, false, RowEvent::Click(0)), Some(("grain".to_string(), HubAction::Enable)));
    assert_eq!(m.on_row(true, false, RowEvent::Click(1)), Some(("grain".to_string(), HubAction::Uninstall)));
    // The place a button is drawn at is the place it is clicked at.
    for (k, (_, action)) in hub_buttons(true, true).into_iter().enumerate() {
        assert_eq!(m.on_row(true, true, RowEvent::Click(k)).unwrap().1, action);
    }
}

const IDLE: Doing = Doing {
    exporting: false,
    importing: false,
    listening: false,
    transcribing: false,
    monitor_out: false,
    inspector_open: true,
};

#[test]
fn menu_rows_can_be_picked_when_they_can_do_something() {
    let mut ed = editor(vec![]);
    for row in [MenuRow::SaveProject, MenuRow::Export, MenuRow::Undo, MenuRow::Copy, MenuRow::Split, MenuRow::Beats] {
        assert!(!ed.menu_enabled(row, IDLE), "{row:?} on an empty reel");
    }
    assert!(ed.menu_enabled(MenuRow::OpenProject, IDLE) && ed.menu_enabled(MenuRow::Quit, IDLE));
    ed.reel.clips.push(clip(0.0, 4.0));
    ed.selected = Some(Sel::Main(0));
    assert!(ed.menu_enabled(MenuRow::Export, IDLE) && ed.menu_enabled(MenuRow::Detach, IDLE));
    let busy = Doing { exporting: true, ..IDLE };
    assert!(!ed.menu_enabled(MenuRow::Export, busy) && ed.menu_enabled(MenuRow::SaveProject, busy));
    assert!(!ed.menu_enabled(MenuRow::AddClips, Doing { importing: true, ..IDLE }));
    assert!(!ed.menu_enabled(MenuRow::Autocut, Doing { listening: true, ..IDLE }));
    assert!(!ed.menu_enabled(MenuRow::Captions, Doing { transcribing: true, ..IDLE }));
    assert!(!ed.menu_enabled(MenuRow::Paste, IDLE));
    ed.copy_sel();
    assert!(ed.menu_enabled(MenuRow::Paste, IDLE) && ed.menu_enabled(MenuRow::PasteLook, IDLE));
    ed.toggle_solo_sel();
    assert!(ed.menu_enabled(MenuRow::ClearSolos, IDLE) && ed.menu_enabled(MenuRow::Undo, IDLE));
    ed.reel.titles.push(card());
    assert!(!ed.menu_enabled(MenuRow::RemoveCaptions, IDLE));
    ed.reel.titles[0].caption = true;
    assert!(ed.menu_enabled(MenuRow::RemoveCaptions, IDLE));
    assert!(ed.menu_enabled(MenuRow::AddVideoTrack, IDLE));
    ed.reel.v_lanes = 4;
    assert!(!ed.menu_enabled(MenuRow::AddVideoTrack, IDLE));
}

#[test]
fn an_items_menu_offers_what_fits_it() {
    let mut ed = editor(vec![clip(0.0, 2.0), clip(2.0, 4.0)]);
    assert!(!ctx_rows(Sel::Main(0)).contains(&ItemRow::Dissolve));
    assert!(ctx_rows(Sel::Main(1)).contains(&ItemRow::Dissolve));
    assert!(ed.ctx_enabled(Sel::Main(0), ItemRow::Join, false), "the halves abut");
    assert!(!ed.ctx_enabled(Sel::Main(0), ItemRow::MoveLeft, false));
    assert!(ed.ctx_enabled(Sel::Main(0), ItemRow::MoveRight, false));
    assert!(!ed.ctx_enabled(Sel::Main(1), ItemRow::MoveRight, false));
    ed.reel.clips[1].in_s = s(3.0);
    assert!(!ed.ctx_enabled(Sel::Main(0), ItemRow::Join, false));
    ed.reel.clips[0].has_audio = false;
    assert!(!ed.ctx_enabled(Sel::Main(0), ItemRow::Mute, false));
    ed.reel.audios.push(bed("m", 0.0, 2.0));
    assert!(ed.ctx_enabled(Sel::Aud(0), ItemRow::Mute, false));
    assert!(ed.ctx_enabled(Sel::Aud(0), ItemRow::TrackUp, false));
    assert!(!ed.ctx_enabled(Sel::Aud(0), ItemRow::TrackDown, false));
    ed.reel.titles.push(card());
    assert!(!ed.ctx_enabled(Sel::Title(0), ItemRow::AddText, true));
    assert!(!ed.ctx_enabled(Sel::Title(0), ItemRow::Ungroup, false));
    assert!(ctx_rows(Sel::Adjust(0)).is_empty());
    assert_eq!(switch_labels(true, true), ("Disable", "Unsolo"));
}

#[test]
fn a_poster_is_taken_early_in_the_file() {
    assert_eq!(poster_time(s(5.0)), s(0.5));
    assert_eq!(poster_time(s(60.0)), s(1.0));
}
