//! Dragging on the timeline, playing, recording, rendering, and the panels around.

use morreel::adds::TitlePreset;
use morreel::drags::Drags;
use morreel::editor::Editor;
use morreel::hub::{kind_label, toggle_action, HubAction, HubChange, Manifest, PluginKind, Stickers};
use morreel::lanes::LaneLimits;
use morreel::live::{ask_for, frame_target, Ask};
use morreel::model::{AudioItem, Clip, Look, OverlayItem, Phase, Sel, Shape, Shaping, Snapshot, TitleItem, TitleStyle};
use morreel::monitor::MonitorPlan;
use morreel::palette::{effect_groups, Effect};
use morreel::playback::{Player, Tick};
use morreel::project::{export_name, subtitle};
use morreel::queues::{Latest, Line, Settling};
use morreel::ruler::{calc_scale, ruler_ticks, zoom_by};
use morreel::saved::timeline_dirty;
use morreel::shelf::{shelve_preset, Layout, Panel};
use morreel::sound::{MicAct, MicEvent, RecordAct, Recorder};
use morreel::sorting::{comes_before, order_by_number, order_by_text, sort_times};
use morreel::text::{decimal, join, trim};
use morreel::time::Time;
use morreel::upload::over_limits;
use morreel::workspace::{float_default_geom, menu_row_class, next_track, phase_for_selection, Guide};

fn s(x: f64) -> Time {
    (x * 3_000_000.0).round() as Time
}

fn clip(name: &str, len: f64) -> Clip {
    Clip {
        path: format!("/m/{name}.mp4"),
        name: name.to_string(),
        duration: s(20.0),
        in_s: 0,
        out_s: s(len),
        has_audio: true,
        look: Look::default(),
        framing: "Crop".to_string(),
        speed: 1000,
        reverse: false,
        volume: 1000,
        denoise: 0,
        treat: None,
        transition: None,
        trans_dur: s(0.5),
        thumb: String::new(),
        wave: String::new(),
        proxy: String::new(),
        group: 0,
        enabled: true,
        solo: false,
    }
}

fn cutaway(at: f64, len: f64) -> OverlayItem {
    OverlayItem {
        path: "/m/o.mp4".to_string(),
        name: "o".to_string(),
        duration: s(20.0),
        in_s: 0,
        out_s: s(len),
        at: s(at),
        look: Look::default(),
        framing: "Crop".to_string(),
        speed: 1000,
        reverse: false,
        blend: String::new(),
        track: 2,
        proxy: String::new(),
        group: 0,
        enabled: true,
        solo: false,
    }
}

fn bed(at: f64, len: f64) -> AudioItem {
    AudioItem {
        path: "/m/m.mp3".to_string(),
        name: "m".to_string(),
        duration: s(30.0),
        in_s: 0,
        out_s: s(len),
        at: s(at),
        volume: 1000,
        vol_end: Some(500),
        fade_in: 0,
        fade_out: 0,
        shaping: Shaping::default(),
        treat: None,
        lane: 1,
        wave: String::new(),
        group: 0,
        enabled: true,
        solo: false,
    }
}

fn card(text: &str) -> TitleItem {
    TitleItem {
        text: text.to_string(),
        kind: "Text".to_string(),
        at: 0,
        dur: s(3.0),
        style: TitleStyle {
            font: "Sans".to_string(),
            font_size: 110,
            color: "White".to_string(),
            pos: "Middle".to_string(),
            y_frac: None,
            align: "Centre".to_string(),
            anim: None,
            reveal: false,
            karaoke: false,
            karaoke_color: "Gold".to_string(),
            boxed: false,
            box_opacity: 550,
            outline: 0,
            outline_color: "Black".to_string(),
            bevel: "Off".to_string(),
            bevel_size: 21,
            soften: 4,
            depth: 100,
            angle: 120,
            altitude: 30,
            hi_opacity: 750,
            sh_opacity: 750,
        },
        shape: Shape { across: 0, width: 1000, height: 1000 },
        caption: false,
        group: 0,
        track: 1,
        enabled: true,
        pngs: vec![],
    }
}

fn editor(clips: Vec<Clip>) -> Editor {
    let mut reel = Snapshot::new(1, 3, 2);
    reel.clips = clips;
    Editor::new(reel, LaneLimits { video: 4, text: 4, audio: 4 })
}

/// A hundred pixels a second.
const SCALE: u32 = 100_000;

#[test]
fn a_clip_is_dragged_past_the_middle_of_its_neighbour() {
    let mut ed = editor(vec![clip("a", 2.0), clip("b", 2.0), clip("c", 2.0)]);
    let mut d = Drags::new();
    d.grab(&mut ed, Sel::Main(0), 0, 0);
    // Inside the dead zone nothing moves.
    d.on_move(&mut ed, 3_000, 0, SCALE);
    assert_eq!(ed.reel.clips[0].name, "a");
    // Its middle passes that of the second clip, and not yet that of the third.
    d.on_move(&mut ed, 90_000, 0, SCALE);
    let names: Vec<&str> = ed.reel.clips.iter().map(|c| c.name.as_str()).collect();
    assert_eq!(names, vec!["b", "a", "c"]);
    assert_eq!(ed.selected, Some(Sel::Main(1)));
    d.release();
    assert!(d.moved && d.slide.is_none());
}

#[test]
fn a_press_inside_the_dead_zone_is_a_click() {
    let mut ed = editor(vec![clip("a", 2.0)]);
    ed.reel.overlays.push(cutaway(1.0, 1.0));
    let mut d = Drags::new();
    d.grab(&mut ed, Sel::Over(0), 0, 0);
    d.on_move(&mut ed, 3_000, 0, SCALE);
    assert_eq!(ed.reel.overlays[0].at, s(1.0));
    d.release();
    assert!(!d.moved);
    assert!(ed.undo_stack.is_empty());
}

#[test]
fn an_item_snaps_to_a_cut_while_it_slides() {
    let mut ed = editor(vec![clip("a", 2.0), clip("b", 2.0)]);
    ed.reel.overlays.push(cutaway(1.0, 1.0));
    ed.playhead = s(4.0);
    let mut d = Drags::new();
    d.grab(&mut ed, Sel::Over(0), 0, 0);
    // 96 px is 0.96 s: within six pixels of the cut at 2 s.
    d.on_move(&mut ed, 96_000, 0, SCALE);
    assert_eq!(ed.reel.overlays[0].at, s(2.0));
    d.drop_all();
    assert!(d.slide.is_none());
}

#[test]
fn a_card_hops_between_lanes() {
    let mut ed = editor(vec![clip("a", 9.0)]);
    ed.reel.titles.push(card("Hi"));
    let mut d = Drags::new();
    d.grab(&mut ed, Sel::Title(0), 0, 100_000);
    // Two lanes up, at 36 px each.
    d.on_move(&mut ed, 0, 28_000, SCALE);
    assert_eq!(ed.reel.titles[0].track, 3);
    assert!(d.moved);
    d.on_move(&mut ed, 0, 300_000, SCALE);
    assert_eq!(ed.reel.titles[0].track, 1);
}

#[test]
fn edges_are_dragged_from_where_they_were_grabbed() {
    let mut ed = editor(vec![clip("a", 4.0), clip("b", 4.0)]);
    ed.reel.overlays.push(cutaway(5.0, 4.0));
    let mut d = Drags::new();
    d.grab_edge(&mut ed, Sel::Over(0), true, 0);
    assert_eq!(ed.undo_tag, "olen0");
    d.on_move(&mut ed, 50_000, 0, SCALE);
    d.on_move(&mut ed, 100_000, 0, SCALE);
    assert_eq!((ed.reel.overlays[0].at, ed.reel.overlays[0].in_s), (s(6.0), s(1.0)));
    d.release();
    assert!(d.moved);
    d.grab_edge(&mut ed, Sel::Main(0), false, 0);
    d.on_move(&mut ed, -100_000, 0, SCALE);
    assert_eq!(ed.reel.clips[0].out_s, s(3.0));
    assert_eq!(ed.reel.overlays[0].at, s(5.0), "it rides on the second clip");
}

#[test]
fn fades_and_levels_are_pulled() {
    let mut ed = editor(vec![clip("a", 4.0)]);
    ed.reel.audios.push(bed(0.0, 10.0));
    let mut d = Drags::new();
    d.grab_fade(&mut ed, 0, false, 0);
    d.on_move(&mut ed, 100_000, 0, SCALE);
    assert_eq!(ed.reel.audios[0].fade_in, s(1.0));
    d.on_move(&mut ed, 2_000_000, 0, SCALE);
    assert_eq!(ed.reel.audios[0].fade_in, s(4.9), "less than half of the bed");
    d.release();
    d.grab_level(&mut ed, Sel::Aud(0), 0);
    d.on_move(&mut ed, 0, -45_000, SCALE);
    assert_eq!((ed.reel.audios[0].volume, ed.reel.audios[0].vol_end), (1500, Some(1500)));
    d.on_move(&mut ed, 0, 900_000, SCALE);
    assert_eq!(ed.reel.audios[0].volume, 0);
    d.release();
    d.grab_level(&mut ed, Sel::Main(0), 0);
    d.on_move(&mut ed, 0, -900_000, SCALE);
    assert_eq!(ed.reel.clips[0].volume, 2000);
}

#[test]
fn the_ruler_keeps_its_labels_apart() {
    assert_eq!(ruler_ticks(SCALE, s(10.0)), (s(1.0), s(0.25)));
    assert_eq!(ruler_ticks(SCALE, s(401.0)), (s(1.0), s(1.0)), "too many for minor ticks");
    assert_eq!(ruler_ticks(2_000, s(10.0)), (s(60.0), s(15.0)));
    assert_eq!(ruler_ticks(1_000, s(10.0)), (s(120.0), s(30.0)));
    // The shortest clip is 48 px wide, within limits, and zoomed.
    assert_eq!(calc_scale(&vec![clip("a", 2.0), clip("b", 1.0)], 1000), 48_000);
    assert_eq!(calc_scale(&vec![], 1000), 14_000);
    assert_eq!(calc_scale(&vec![clip("a", 0.0)], 6000), 960_000);
    assert_eq!(zoom_by(1000, true), 1250);
    assert_eq!(zoom_by(6000, true), 6000);
    assert_eq!(zoom_by(1000, false), 800);
    let mut ed = editor(vec![clip("a", 4.0)]);
    ed.reel.overlays.push(cutaway(5.0, 4.0));
    assert_eq!(ed.reel.track_end(), s(9.0));
    ed.scrub(250_000, SCALE);
    assert_eq!(ed.playhead, s(2.5));
    ed.scrub(-5, SCALE);
    assert_eq!(ed.playhead, 0);
    assert_eq!(ed.mark_band(), None);
    ed.mark_out = Some(s(1.0));
    ed.mark_in = Some(s(3.0));
    assert_eq!(ed.mark_band(), Some((s(1.0), s(3.0))));
}

#[test]
fn playback_stops_at_the_end_or_starts_over() {
    let mut ed = editor(vec![clip("a", 2.0)]);
    let mut p = Player::new();
    let run = p.start_play(&ed).expect("a run");
    assert!(p.playing);
    assert_eq!(p.tick(&mut ed, run, s(0.25)), Tick::On);
    assert_eq!(ed.playhead, s(0.25));
    assert_eq!(p.tick(&mut ed, run, s(5.0)), Tick::On);
    assert_eq!(ed.playhead, s(0.75), "a late tick is not a leap");
    ed.playhead = s(1.75);
    assert_eq!(p.tick(&mut ed, run, s(0.25)), Tick::End);
    assert!(!p.playing);
    p.toggle_loop(&mut ed);
    assert_eq!(ed.status, "Loop playback on — the reel restarts at the end.");
    let run = p.play_from_start(&mut ed).expect("a run");
    ed.playhead = s(1.75);
    assert_eq!(p.tick(&mut ed, run, s(0.25)), Tick::Again(0));
    assert_eq!(p.tick(&mut ed, run + 1, s(1.0)), Tick::Gone);
    assert!(p.toggle_play(&mut ed).is_none());
    assert!(!p.playing);
    ed.seek_to(s(0.5));
    ed.set_mark(false);
    ed.seek_to(s(1.5));
    ed.set_mark(true);
    assert_eq!(ed.play_range(), (s(0.5), s(1.5)));
    ed.clear_marks();
    assert_eq!(ed.play_range(), (0, s(2.0)));
}

#[test]
fn a_take_lands_on_the_second_lane() {
    let mut ed = editor(vec![clip("a", 9.0)]);
    ed.seek_to(s(2.0));
    let mut r = Recorder::new();
    let act = r.start_voiceover(&mut ed, "/tmp/vo.wav".to_string(), true, false);
    assert_eq!((act, ed.status.as_str()), (RecordAct::Nothing, "Can't record during export."));
    let act = r.start_voiceover(&mut ed, "/tmp/vo.wav".to_string(), false, false);
    assert_eq!(act, RecordAct::Open { roll: true });
    assert!(matches!(r.on_mic(&mut ed, MicEvent::Running(s(1.0))), MicAct::Wait));
    r.stop_voiceover();
    assert!(matches!(r.on_mic(&mut ed, MicEvent::Running(s(2.0))), MicAct::Close));
    assert!(matches!(r.on_mic(&mut ed, MicEvent::Closed), MicAct::Probe));
    let take = r.end_take().expect("a take");
    assert!(ed.land_take(&take, Ok((s(2.0), true))));
    assert_eq!((ed.reel.audios[0].name.as_str(), ed.reel.audios[0].at), ("Voiceover 1", s(2.0)));
    assert!(!ed.land_take(&take, Ok((s(0.1), true))));
    assert_eq!(ed.status, "Recording too short — hold a little longer.");
    assert!(!ed.land_take(&take, Ok((s(2.0), false))));
    assert_eq!(ed.status, "Recording had no audio — check the microphone.");
    assert!(!ed.land_take(&take, Err("no".to_string())));
    assert_eq!(ed.status, "Could not read voiceover: no");
}

#[test]
fn a_clip_gives_its_sound_away() {
    let mut ed = editor(vec![clip("a", 4.0)]);
    ed.selected = Some(Sel::Main(0));
    assert!(ed.detach_audio().is_some());
    assert_eq!(ed.reel.clips[0].volume, 0);
    assert_eq!((ed.reel.audios[0].at, ed.reel.audios[0].out_s), (0, s(4.0)));
    ed.selected = None;
    assert!(ed.detach_audio().is_none());
}

#[test]
fn the_mix_leaves_out_what_is_off_and_silences_what_is_not_soloed() {
    let mut ed = editor(vec![clip("a", 4.0)]);
    let mut off = cutaway(0.0, 1.0);
    off.enabled = false;
    ed.reel.overlays.push(off);
    ed.reel.overlays.push(cutaway(1.0, 1.0));
    let mut solo = bed(0.0, 4.0);
    solo.solo = true;
    ed.reel.audios.push(solo);
    ed.reel.mixer.tracks[1].gain = 500;
    let mix = ed.reel.gather_specs();
    assert_eq!(mix.overlays.len(), 1);
    assert_eq!(mix.clips[0].volume, 0, "only what is soloed is heard");
    assert_eq!(mix.audios[0].volume, 500);
    assert!(mix.clips[0].grey);
}

#[test]
fn the_monitor_draws_what_the_playhead_is_on() {
    let mut ed = editor(vec![clip("a", 4.0)]);
    ed.reel.overlays.push(cutaway(1.0, 2.0));
    match ed.reel.refresh_monitor(s(2.0), true, true) {
        MonitorPlan::Draw { base, over } => {
            assert_eq!((base.path.as_str(), base.at), ("/m/a.mp4", s(2.0)));
            assert_eq!(over.layers.len(), 1);
            assert_eq!(over.layers[0].at, s(1.0));
        }
        _ => panic!("a picture was expected"),
    }
    ed.reel.clips[0].enabled = false;
    assert!(matches!(ed.reel.refresh_monitor(s(2.0), true, true), MonitorPlan::Black));
    assert!(matches!(editor(vec![]).reel.refresh_monitor(0, true, true), MonitorPlan::Keep));
}

#[test]
fn the_latest_request_wins_and_the_line_is_served_in_order() {
    let mut l: Latest<u32> = Latest::new();
    assert!(l.request(1));
    assert!(!l.request(2));
    assert_eq!(l.next(), Some(2));
    assert_eq!(l.next(), None);
    let mut q = Line::new();
    assert!(q.queue_proxy("/a".to_string()));
    assert!(!q.queue_proxy("/b".to_string()));
    assert_eq!(q.next(), Some("/a".to_string()));
    assert_eq!(q.next(), Some("/b".to_string()));
    let mut t = Settling { last: 0 };
    let n = t.touch();
    assert!(t.settled(n));
    let m = t.touch();
    assert!(!t.settled(n) && t.settled(m));
    let mut ed = editor(vec![clip("a", 2.0)]);
    let src = "/m/a.mp4".to_string();
    ed.land_proxy(&src, Ok("/p/a.mp4".to_string()));
    assert_eq!(ed.reel.clips[0].scrub_path(), "/p/a.mp4");
    ed.fill_clip_waves(&src, "wave".to_string());
    assert_eq!(ed.reel.clips[0].wave, "wave");
    ed.reel.titles.push(card("Hi"));
    assert_eq!(ed.unrendered_titles(), vec![0]);
    ed.land_title(0, Ok(vec!["/t.png".to_string()]));
    assert!(ed.unrendered_titles().is_empty());
    ed.land_title(0, Err("no".to_string()));
    assert_eq!(ed.status, "Text render failed: no");
}

#[test]
fn a_remote_tool_lists_and_asks_for_frames() {
    assert_eq!(ask_for("list_tools"), Ask::Tools);
    assert_eq!(ask_for("list_items"), Ask::Items);
    assert_eq!(ask_for("get_frame"), Ask::Frame);
    assert_eq!(ask_for("anything"), Ask::Edit);
    let mut ed = editor(vec![clip("a", 4.0), clip("b", 2.0)]);
    ed.reel.overlays.push(cutaway(1.0, 2.0));
    assert_eq!(
        ed.reel.list_items(),
        "V1 clips (2):\n  [0] a\n  [1] b\nV2 overlays (1):\n  [0] o"
    );
    assert_eq!(frame_target("{\"target\":{\"lane\":\"V2\",\"index\":3},\"lane\":\"V1\"}"), ("V2".to_string(), 3));
    assert_eq!(frame_target("{\"index\":1}"), ("V1".to_string(), 1));
    assert_eq!(frame_target("{\"target\":null,\"index\":1}"), ("V1".to_string(), 0));
    assert_eq!(frame_target("no json"), ("V1".to_string(), 0));
    assert_eq!(ed.reel.get_frame("{\"index\":1}", None), Ok(("/m/b.mp4".to_string(), s(1.0))));
    assert_eq!(ed.reel.frame_source("V1", 0, Some(s(3.0))), Ok(("/m/a.mp4".to_string(), s(3.0))));
    assert_eq!(ed.reel.frame_source("V1", 0, Some(s(9.0))), Ok(("/m/a.mp4".to_string(), s(4.0))));
    assert_eq!(ed.reel.frame_source("V2", 4, None), Err("no item at V2[4]".to_string()));
    let mut other = Snapshot::new(1, 1, 1);
    other.clips.push(clip("z", 1.0));
    assert_eq!(ed.land_live(Ok((other, "done".to_string()))), Ok("done".to_string()));
    assert_eq!((ed.reel.clips.len(), ed.status.as_str()), (1, "Live · done"));
    ed.undo();
    assert_eq!(ed.reel.clips.len(), 2);
    assert_eq!(ed.land_live(Err("bad".to_string())), Err("bad".to_string()));
}

#[test]
fn plugins_say_what_they_do() {
    let m = Manifest {
        id: "tool".to_string(),
        kind: PluginKind::Mcp,
        install: None,
        run: Some(("npx".to_string(), vec!["-y".to_string(), "tool".to_string()])),
        effects: None,
    };
    assert_eq!(m.detail(), "Runs `npx -y tool` — added to mcp-servers.json on install.");
    let b = Manifest { id: "b".to_string(), kind: PluginKind::Bundle, install: None, run: None, effects: Some(3) };
    assert_eq!(b.detail(), "Adds 3 effect look(s) to the editor.");
    let a = Manifest { id: "a".to_string(), kind: PluginKind::Agent, install: Some("cargo x".to_string()), run: None, effects: None };
    assert_eq!((a.detail().as_str(), kind_label(a.kind)), ("cargo x", "agent"));
    assert_eq!(toggle_action(true), HubAction::Disable);
    assert_eq!(HubAction::Install.change(), HubChange::Installed(true));
    assert_eq!(HubAction::Disable.change(), HubChange::Enabled(false));
    let mut ed = editor(vec![]);
    assert!(ed.land_hub("x", HubAction::Install, Ok(()), Ok("/s.json".to_string())));
    assert_eq!(ed.status, "Plugin 'x' installed. MCP servers → /s.json");
    assert!(ed.land_hub("x", HubAction::Uninstall, Ok(()), Err("no".to_string())));
    assert_eq!(ed.status, "Plugin 'x' removed (mcp sync failed: no)");
    assert!(!ed.land_hub("x", HubAction::Enable, Err("no".to_string()), Ok(String::new())));
    assert_eq!(ed.status, "Plugin Hub: no");
}

#[test]
fn a_sticker_search_runs_once_at_a_time() {
    let mut ed = editor(vec![]);
    let mut g = Stickers { busy: false };
    assert_eq!(g.begin("  "), None);
    assert_eq!(g.begin(" cat "), Some("cat".to_string()));
    assert!(!g.search(&mut ed, "cat", Err("no key".to_string())));
    assert_eq!(ed.status, "no key");
    assert!(g.search(&mut ed, "cat", Ok(())));
    assert_eq!(ed.status, "Searching GIPHY for “cat”…");
    assert_eq!(g.begin("dog"), None);
    g.land(&mut ed, Ok(12));
    assert_eq!(ed.status, "12 result(s) — click one to drop it on V2.");
    g.land(&mut ed, Err("off".to_string()));
    assert_eq!(ed.status, "GIPHY: off");
}

#[test]
fn effects_are_shown_under_their_headings() {
    let e = |c: &str, n: &str| Effect { category: c.to_string(), name: n.to_string() };
    let all = vec![e("Color", "Warm"), e("Motion", "Sway"), e("Key", "Green"), e("Color", "Cool")];
    let groups = effect_groups(&all);
    assert_eq!(groups.len(), 2);
    assert_eq!((groups[0].category.as_str(), groups[0].names.len()), ("Color", 2));
    assert_eq!(groups[0].names, vec!["Warm".to_string(), "Cool".to_string()]);
    assert_eq!(groups[1].category, "Motion");
    let mut ed = editor(vec![clip("a", 2.0)]);
    assert!(ed.palette_sample().is_none());
    ed.selected = Some(Sel::Main(0));
    assert_eq!(ed.palette_sample().unwrap().0, "/m/a.mp4");
}

#[test]
fn the_shelf_is_sorted_without_regard_to_case() {
    let mut all: Vec<TitlePreset> = vec![];
    shelve_preset(&mut all, TitlePreset { name: "Banana".to_string(), style: card("b") });
    shelve_preset(&mut all, TitlePreset { name: "apple".to_string(), style: card("a") });
    let names: Vec<&str> = all.iter().map(|p| p.name.as_str()).collect();
    assert_eq!(names, vec!["apple", "Banana"]);
}

#[test]
fn a_stored_name_replaces_its_match_and_the_shelf_is_sorted() {
    let mut ed = editor(vec![]);
    ed.reel.titles.push(card("one"));
    let mut all: Vec<TitlePreset> = vec![];
    shelve_preset(&mut all, TitlePreset { name: "zebra".to_string(), style: card("z") });
    assert_eq!(ed.store_preset(0, "  Alpha ", &mut all), Some("Alpha".to_string()));
    assert_eq!(ed.store_preset(0, "ÄPFEL", &mut all), Some("ÄPFEL".to_string()));
    assert_eq!(ed.store_preset(0, "  ", &mut all), None);
    assert_eq!(ed.store_preset(7, "x", &mut all), None);
    let names: Vec<&str> = all.iter().map(|p| p.name.as_str()).collect();
    assert_eq!(names, vec!["Alpha", "zebra", "ÄPFEL"]);
    shelve_preset(&mut all, TitlePreset { name: "Zebra".to_string(), style: card("Z") });
    shelve_preset(&mut all, TitlePreset { name: "zebra".to_string(), style: card("new") });
    let names: Vec<&str> = all.iter().map(|p| p.name.as_str()).collect();
    assert_eq!(names, vec!["Alpha", "Zebra", "zebra", "ÄPFEL"]);
    assert_eq!(all[2].style.text, "new");
    ed.preset_saved("Alpha", Ok(()));
    assert_eq!(ed.status, "Saved the style \"Alpha\".");
    ed.preset_saved("Alpha", Err("no".to_string()));
    assert_eq!(ed.status, "Could not save the preset: no");
}

#[test]
fn layouts_dock_and_float_the_panel() {
    let mut ed = editor(vec![]);
    let mut panel = Panel { open: true, float: true, xy: None, size: None };
    let mut all: Vec<Layout> = vec![];
    assert_eq!(panel.store_layout(" Mine ", &mut all), Some("Mine".to_string()));
    assert_eq!(panel.store_layout("", &mut all), None);
    assert_eq!(float_default_geom(1_100_000, 860_000), (702_000, 72_000, 380_000, 619_200));
    ed.apply_layout(&all[0], &mut panel, 1_100_000, 860_000);
    assert_eq!(panel.xy, Some((702_000, 72_000)));
    assert_eq!(ed.status, "Layout \"Mine\" applied.");
    let g = panel.grab(710_000, 80_000, 1_100_000, 860_000);
    panel.drag(g, 0, 0, 1_100_000, 860_000);
    assert_eq!(panel.xy, Some((0, 0)));
    panel.drag(g, 9_000_000, 9_000_000, 1_100_000, 860_000);
    assert_eq!(panel.xy, Some((1_052_000, 812_000)));
    let docked = Layout { name: "Dock".to_string(), panel: Panel { float: false, ..panel } };
    ed.apply_layout(&docked, &mut panel, 1_100_000, 860_000);
    assert!(panel.xy.is_none() && panel.size.is_none());
    ed.layout_saved("Mine", Ok(()));
    assert_eq!(ed.status, "Saved layout \"Mine\".");
    ed.layout_saved("Mine", Err("no".to_string()));
    assert_eq!(ed.status, "Could not save layout: no");
    ed.fullscreen_set(true);
    assert_eq!(ed.status, "Fullscreen — F11 or the View menu to exit.");
    assert!(ed.toggle_guide(Guide::SafeAreas, false));
    assert_eq!(ed.status, "Safe areas on — keep text out of the shaded bands.");
    assert!(!ed.toggle_guide(Guide::Handles, true));
    assert_eq!(ed.status, "Transform handles off.");
}

#[test]
fn menus_offer_only_what_can_be_done() {
    assert_eq!(menu_row_class(true, true), "mor-menu-item mor-menu-action disabled");
    assert_eq!(menu_row_class(false, true), "mor-menu-item mor-menu-action mr-danger");
    assert_eq!(menu_row_class(false, false), "mor-menu-item mor-menu-action");
    assert_eq!(next_track(2, true, 2, 3), Some(3));
    assert_eq!(next_track(3, true, 2, 3), None);
    assert_eq!(next_track(2, false, 2, 3), None);
    assert_eq!(next_track(3, false, 2, 3), Some(2));
    let mut ed = editor(vec![]);
    let keyers = vec!["Green screen".to_string()];
    assert!(!ed.reel.step_done(Phase::Add, &keyers));
    ed.reel.clips.push(clip("a", 2.0));
    assert!(ed.reel.step_done(Phase::Add, &keyers));
    assert!(!ed.reel.step_done(Phase::Style, &keyers));
    ed.reel.clips[0].look.effect = Some("Green screen".to_string());
    assert!(ed.reel.step_done(Phase::Style, &keyers));
    assert!(ed.reel.step_done(Phase::Effects, &keyers));
    ed.reel.clips[0].look.transform.bg = 1;
    assert!(ed.reel.step_done(Phase::Background, &keyers));
    assert!(!ed.reel.step_done(Phase::Text, &keyers) && !ed.reel.step_done(Phase::Audio, &keyers));
}

#[test]
fn projects_are_opened_named_and_exported() {
    assert_eq!(export_name(" my/reel "), "my-reel");
    assert_eq!(export_name("  "), "morreel");
    assert_eq!(subtitle(" "), "portrait 9:16");
    assert_eq!(subtitle(" Holiday "), "Holiday · 9:16");
    let mut ed = editor(vec![]);
    assert!(!ed.can_render(false));
    let mut reel = Snapshot::new(1, 1, 1);
    let mut quiet = clip("q", 1.0);
    quiet.has_audio = false;
    reel.clips = vec![clip("b", 1.0), clip("a", 1.0), clip("b", 2.0), quiet];
    reel.overlays.push(cutaway(0.0, 1.0));
    reel.audios.push(bed(0.0, 1.0));
    assert_eq!(reel.voiced_paths(), vec!["/m/a.mp4".to_string(), "/m/b.mp4".to_string()]);
    assert_eq!(reel.media_paths().len(), 5);
    assert_eq!(reel.source_paths().len(), 6);
    assert_eq!(reel.all_posters().len(), 4);
    ed.land_project(Ok((reel, 2)), "reel.morreel");
    assert_eq!(ed.status, "Opened reel.morreel — 2 source file(s) are missing.");
    assert!(ed.can_render(false) && !ed.can_render(true));
    ed.undo();
    assert!(ed.reel.clips.is_empty());
    ed.land_project(Err("bad".to_string()), "x");
    assert_eq!(ed.status, "Could not open x: bad");
    ed.land_write("Saved ", "Save failed: ", Ok("/a".to_string()));
    assert_eq!(ed.status, "Saved /a");
    ed.land_write("Saved ", "Save failed: ", Err("full".to_string()));
    assert_eq!(ed.status, "Save failed: full");
    assert!(ed.land_export(Err("cancelled".to_string())));
    assert_eq!(ed.status, "Export cancelled.");
    assert!(!ed.land_export(Err("no".to_string())));
    assert_eq!(ed.status, "Export failed: no");
    assert!(!ed.land_export(Ok("/a.mp4".to_string())));
    assert_eq!(ed.status, "Exported /a.mp4");
    ed.land_preview(Ok(Ok("mpv".to_string())));
    assert_eq!(ed.status, "Playing preview in mpv.");
    ed.land_preview(Ok(Err("no player".to_string())));
    assert_eq!(ed.status, "Preview rendered but no player");
    ed.land_preview(Err("cancelled".to_string()));
    assert_eq!(ed.status, "Preview render cancelled.");
    ed.land_preview(Err("x".to_string()));
    assert_eq!(ed.status, "Preview render failed: x");
}

#[test]
fn texts_and_times_are_put_in_order() {
    assert_eq!(decimal(0), "0");
    assert_eq!(decimal(1207), "1207");
    assert_eq!(join(&vec!["a".to_string(), "b".to_string()], ", "), "a, b");
    assert_eq!(trim("\t a b \n"), "a b");
    assert!(comes_before("a", "ab") && !comes_before("b", "a"));
    let mut v = vec![s(3.0), s(1.0), s(2.0)];
    sort_times(&mut v);
    assert_eq!(v, vec![s(1.0), s(2.0), s(3.0)]);
    assert_eq!(order_by_number(&vec![s(3.0), s(1.0), s(3.0), s(2.0)]), vec![1, 3, 0, 2]);
    let keys = vec!["b".to_string(), "a".to_string(), "b".to_string()];
    assert_eq!(order_by_text(&keys), vec![1, 0, 2]);
}

#[test]
fn dirty_tracks_disk_state_not_runtime_fields() {
    let empty = Snapshot::new(2, 1, 2);
    // Never saved: empty is clean, any content is unsaved.
    assert!(!timeline_dirty(&empty, None));
    let mut one = empty.clone();
    one.clips.push(clip("a", 2.0));
    assert!(timeline_dirty(&one, None));

    // Saved baseline equal to current: clean.
    let base = one.clone();
    assert!(!timeline_dirty(&one, Some(&base)));

    // A background proxy or waveform landing is not an edit.
    let mut hydrated = one.clone();
    hydrated.clips[0].proxy = "/cache/x.mp4".to_string();
    hydrated.clips[0].wave = "data:image/png;base64,AAAA".to_string();
    assert!(!timeline_dirty(&hydrated, Some(&base)), "runtime-only fields must not mark dirty");

    // A real edit (a trim) is dirty.
    let mut edited = one.clone();
    edited.clips[0].out_s = s(1.0);
    assert!(timeline_dirty(&edited, Some(&base)));
}

#[test]
fn every_recorded_part_of_a_reel_counts() {
    let mut base = Snapshot::new(2, 1, 2);
    base.clips.push(clip("a", 2.0));
    base.overlays.push(cutaway(0.0, 1.0));
    base.titles.push(card("one"));
    base.markers.push(s(1.0));
    let edits: Vec<fn(&mut Snapshot)> = vec![
        |r| r.clips[0].look.grade = 3,
        |r| r.clips[0].transition = Some("Fade".to_string()),
        |r| r.clips[0].name.push('x'),
        |r| r.overlays[0].at += 1,
        |r| r.overlays[0].blend = "Screen".to_string(),
        |r| r.titles[0].style.y_frac = Some(500),
        |r| r.titles[0].text.push('x'),
        |r| r.markers[0] += 1,
        |r| r.mixer.master = 900,
        |r| r.mixer.tracks[0].mute = true,
        |r| r.t_lanes += 1,
        |r| {
            r.overlays.pop();
        },
    ];
    for edit in edits {
        let mut now = base.clone();
        assert!(!timeline_dirty(&now, Some(&base)));
        edit(&mut now);
        assert!(timeline_dirty(&now, Some(&base)));
    }
    let mut now = base.clone();
    now.titles[0].pngs.push("/cache/t.png".to_string());
    now.overlays[0].proxy = "/cache/o.mp4".to_string();
    now.clips[0].thumb = "data:x".to_string();
    assert!(!timeline_dirty(&now, Some(&base)));
}

#[test]
fn platform_limits_warn_only_when_over() {
    let all = "All platforms";
    assert_eq!(over_limits(s(30.0), all), None);
    assert_eq!(over_limits(s(60.0), all), None); // exactly at the cap still fits
    let w = over_limits(s(75.0), all).unwrap();
    assert!(w.contains("Shorts") && !w.contains("Reels"), "{w}");
    let w = over_limits(s(120.0), all).unwrap();
    assert!(w.contains("Shorts") && w.contains("Reels") && !w.contains("TikTok"), "{w}");
    assert!(over_limits(s(1200.0), all).unwrap().contains("TikTok"));
}

#[test]
fn a_chosen_platform_only_warns_against_its_own_cap() {
    // 75 s is over Shorts (60) but under Reels (90): targeting Reels stays quiet.
    assert_eq!(over_limits(s(75.0), "Reels"), None);
    assert!(over_limits(s(75.0), "Shorts").unwrap().contains("Shorts"));
    // A single target never names another platform.
    let w = over_limits(s(1200.0), "Shorts").unwrap();
    assert!(w.contains("Shorts") && !w.contains("TikTok"), "{w}");
    assert_eq!(over_limits(s(1200.0), "All platforms").unwrap(), "Too long for Shorts, Reels, TikTok");
    assert_eq!(over_limits(s(600.0), "TikTok"), None);
    assert_eq!(over_limits(s(600.1), "TikTok").unwrap(), "Too long for TikTok");
}

#[test]
fn the_monitor_stacks_cutaways_as_the_export_does() {
    let mut ed = editor(vec![clip("a", 10.0)]);
    for (k, (at, track)) in [(0.0, 4), (1.0, 2), (0.0, 2), (5.0, 3)].into_iter().enumerate() {
        let mut o = cutaway(at, 4.0);
        o.path = format!("/m/o{k}.mp4");
        o.proxy = String::new();
        o.track = track;
        ed.reel.overlays.push(o);
    }
    let rendered: Vec<String> = ed.reel.gather_specs().overlays.iter().map(|o| o.path.clone()).collect();
    assert_eq!(rendered, vec!["/m/o1.mp4", "/m/o2.mp4", "/m/o3.mp4", "/m/o0.mp4"]);
    match ed.reel.refresh_monitor(s(2.0), true, true) {
        MonitorPlan::Draw { over, .. } => {
            let shown: Vec<String> = over.layers.iter().map(|l| l.path.clone()).collect();
            assert_eq!(shown, vec!["/m/o1.mp4", "/m/o2.mp4", "/m/o0.mp4"]);
        }
        _ => panic!("a picture"),
    }
}

#[test]
fn an_export_reads_the_originals_and_a_scrub_the_proxies() {
    let mut ed = editor(vec![clip("a", 10.0)]);
    ed.land_proxy(&"/m/a.mp4".to_string(), Ok("/cache/a.mp4".to_string()));
    assert_eq!(ed.reel.gather_specs().clips[0].path, "/m/a.mp4");
    match ed.reel.refresh_monitor(s(2.0), true, true) {
        MonitorPlan::Draw { base, .. } => assert_eq!(base.path, "/cache/a.mp4"),
        _ => panic!("a picture"),
    }
}

#[test]
fn phase_follows_selection() {
    // Selecting an item jumps to its phase.
    assert_eq!(phase_for_selection(Some(Sel::Main(0)), Phase::Cut), Phase::Cut);
    assert_eq!(phase_for_selection(Some(Sel::Over(0)), Phase::Cut), Phase::Cut);
    assert_eq!(phase_for_selection(Some(Sel::Title(0)), Phase::Cut), Phase::Text);
    assert_eq!(phase_for_selection(Some(Sel::Aud(0)), Phase::Cut), Phase::Audio);
    // Browsing clips while grading stays in Style, not kicked back to Cut.
    assert_eq!(phase_for_selection(Some(Sel::Main(1)), Phase::Style), Phase::Style);
    // An empty selection keeps the current phase.
    assert_eq!(phase_for_selection(None, Phase::Export), Phase::Export);
}

#[test]
fn a_picked_step_is_not_taken_back() {
    let mut ed = editor(vec![clip("a", 2.0)]);
    ed.pick_step(Phase::Effects);
    assert_eq!((ed.phase, ed.selected), (Phase::Effects, Some(Sel::Main(0))));
    ed.follow_selection();
    assert_eq!(ed.phase, Phase::Effects);
    ed.reel.titles.push(card("t"));
    ed.selected = Some(Sel::Title(0));
    ed.follow_selection();
    assert_eq!(ed.phase, Phase::Text);
}
