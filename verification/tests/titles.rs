//! Title cards: their words, seats, styles and captions.

use morreel::adds::{restyle, TitlePreset};
use morreel::cards::{words_label, CardEdit, ShapeKnob, StyleEdit, Words};
use morreel::editor::Editor;
use morreel::lanes::LaneLimits;
use morreel::model::{Clip, Look, Sel, Shape, Snapshot, TitleItem, TitleStyle};
use morreel::time::Time;
use morreel::titles::{chunk_caption, position_label, seat_matches, seat_y, set_seat_named, set_seat_y, title_y, word_prefixes, wrap_caption, Cue};

fn s(x: f64) -> Time {
    (x * 3_000_000.0).round() as Time
}

/// A card as an older project file would have stored it.
fn card() -> TitleItem {
    TitleItem {
        text: "Hi".to_string(),
        kind: "Text".to_string(),
        at: 0,
        dur: s(3.0),
        style: TitleStyle {
            font: "Sans".to_string(),
            font_size: 110,
            color: "White".to_string(),
            pos: "Middle".to_string(),
            y_frac: None,
            align: "Centre".to_string(),
            anim: None,
            reveal: false,
            karaoke: false,
            karaoke_color: "Gold".to_string(),
            boxed: false,
            box_opacity: 550,
            outline: 0,
            outline_color: "Black".to_string(),
            bevel: "Cameo".to_string(),
            bevel_size: 21,
            soften: 4,
            depth: 100,
            angle: 120,
            altitude: 30,
            hi_opacity: 750,
            sh_opacity: 750,
        },
        shape: Shape { across: 0, width: 1000, height: 1000 },
        caption: false,
        group: 0,
        track: 1,
        enabled: true,
        pngs: vec![],
    }
}

fn clip(len: f64) -> Clip {
    Clip {
        path: "/m/a.mp4".to_string(),
        name: "a".to_string(),
        duration: s(len),
        in_s: 0,
        out_s: s(len),
        has_audio: true,
        look: Look::default(),
        framing: "Crop".to_string(),
        speed: 1000,
        reverse: false,
        volume: 1000,
        denoise: 0,
        treat: None,
        transition: None,
        trans_dur: s(0.5),
        thumb: String::new(),
        wave: String::new(),
        proxy: String::new(),
        group: 0,
        enabled: true,
        solo: false,
    }
}

fn editor(clips: Vec<Clip>, titles: Vec<TitleItem>) -> Editor {
    let mut reel = Snapshot::new(1, 3, 2);
    reel.clips = clips;
    reel.titles = titles;
    Editor::new(reel, LaneLimits { video: 8, text: 8, audio: 8 })
}

#[test]
fn free_seat_overrides_named_pos_and_snaps_back() {
    let mut t = card();
    assert_eq!(seat_y(&t), 450, "Middle by default");
    assert!(t.style.y_frac.is_none());

    // Free drag away from every named seat.
    set_seat_y(&mut t, 300);
    assert_eq!(seat_y(&t), 300);
    assert_eq!(t.style.y_frac, Some(300));

    // Near Lower third → snaps to the named preset and drops free offset.
    set_seat_y(&mut t, 720);
    assert!(t.style.y_frac.is_none(), "snap clears free seat");
    assert_eq!(t.style.pos, "Lower third");
    assert!(seat_matches(&t, "Lower third"));

    set_seat_named(&mut t, "Top");
    assert!(t.style.y_frac.is_none());
    assert_eq!(seat_y(&t), 100);
}

#[test]
fn older_titles_without_y_frac_still_seat_from_pos() {
    let t = card();
    assert!(t.style.y_frac.is_none());
    assert_eq!(seat_y(&t), title_y("Middle"));
}

#[test]
fn caption_wrap_is_greedy_and_word_safe() {
    assert_eq!(wrap_caption("one two three", 8), "one two\nthree");
    assert_eq!(wrap_caption("short", 26), "short");
    // a word longer than max gets its own line, never split
    assert_eq!(wrap_caption("hi extraordinarily so", 6), "hi\nextraordinarily\nso");
}

#[test]
fn word_prefixes_keep_the_breaks_the_text_already_has() {
    assert_eq!(word_prefixes("one two three"), vec!["one", "one two", "one two three"]);
    assert_eq!(
        word_prefixes("hello there\nfriend"),
        vec!["hello", "hello there", "hello there\nfriend"]
    );
    assert_eq!(word_prefixes("solo"), vec!["solo"]);
    assert_eq!(word_prefixes("  padded  out  "), vec!["  padded", "  padded  out"]);
    assert!(word_prefixes("").is_empty());
    assert!(word_prefixes("   ").is_empty());
}

#[test]
fn a_revealed_title_is_a_run_of_cards_that_tiles_its_span() {
    let mut t = card();
    t.text = "one two three".into();
    t.at = s(2.0);
    t.dur = s(3.0);

    // Off: exactly the single card it always was.
    let one = t.segments();
    assert_eq!(one.len(), 1);
    assert_eq!(
        (one[0].text.as_str(), one[0].at, one[0].dur, one[0].active),
        ("one two three", s(2.0), s(3.0), None)
    );

    // Karaoke: one full-line card per word, each tagged with its active index.
    t.style.karaoke = true;
    let ks = t.segments();
    assert_eq!(ks.len(), 3, "one card per word");
    assert_eq!(ks[0].text, "one two three", "karaoke keeps the whole line");
    assert_eq!((ks[0].active, ks[2].active), (Some(0), Some(2)), "active word walks the line");
    assert_eq!(ks[2].at + ks[2].dur, s(5.0), "the run ends with the title");
    t.style.karaoke = false;

    t.style.reveal = true;
    let segs = t.segments();
    assert_eq!(segs.len(), 3, "one card per word");
    assert_eq!(segs[0].text, "one");
    assert_eq!(segs[2].text, "one two three");

    // The cards run back to back and finish exactly when the title does.
    assert_eq!(segs[0].at, s(2.0), "the first card starts with the title");
    for w in segs.windows(2) {
        assert_eq!(w[0].at + w[0].dur, w[1].at, "cards must not gap or overlap");
    }
    let (last_at, last_dur) = (segs[2].at, segs[2].dur);
    assert_eq!(last_at + last_dur, s(5.0), "the run must end with the title");
    // Three words share the first three fifths of the span.
    assert_eq!((segs[1].at, segs[2].at), (s(2.6), s(3.2)));
    // The finished line holds far longer than any single word takes.
    assert!(last_dur > segs[0].dur * 2, "the whole line should hold to be read");

    // A single word has nothing to reveal, so it stays one card.
    t.text = "solo".into();
    assert_eq!(t.segments().len(), 1);
}

#[test]
fn card_at_finds_the_step_showing_now() {
    let mut t = card();
    t.text = "one two three".into();
    t.at = 0;
    t.dur = s(3.0);
    t.style.reveal = true;
    let segs = t.segments();
    assert_eq!(t.card_at(segs[0].at + s(0.01)), Some(0));
    assert_eq!(t.card_at(segs[1].at + s(0.01)), Some(1));
    assert_eq!(t.card_at(segs[2].at + s(0.01)), Some(2));
    assert_eq!(t.card_at(s(2.99)), Some(2), "the last word holds to the end");
    assert_eq!(t.card_at(s(5.0)), None, "nothing is up after the title is over");
}

#[test]
fn a_style_is_a_look_never_the_words_or_the_timing() {
    let mut src = card();
    src.text = "SOURCE".into();
    src.at = s(9.0);
    src.dur = s(1.0);
    src.style.font_size = 200;
    src.style.color = "Gold".into();
    src.style.outline = 6;
    src.style.anim = Some("Slide up".into());

    let mut dst = card();
    dst.text = "KEEP ME".into();
    dst.at = s(3.0);
    dst.dur = s(4.0);
    dst.caption = true;
    dst.group = 7;
    dst.pngs = vec!["/cache/old.png".into()];

    let out = restyle(&dst, &src.style);
    // Its own content and place on the timeline survive untouched.
    assert_eq!(out.text, "KEEP ME");
    assert_eq!((out.at, out.dur), (s(3.0), s(4.0)));
    assert!(out.caption && out.group == 7, "lane identity should survive a restyle");
    // The look comes wholesale from the source.
    assert_eq!(out.style.font_size, 200);
    assert_eq!(out.style.color, "Gold");
    assert_eq!(out.style.outline, 6);
    assert_eq!(out.style.anim, Some("Slide up".to_string()));
    // The rendered card must be dropped, or it would keep the old look.
    assert!(out.pngs.is_empty(), "a restyle has to invalidate the rendered card");
}

#[test]
fn bevel_knob_table_writes_each_field_once() {
    let mut ed = editor(vec![], vec![card()]);
    let knobs = vec![
        StyleEdit::BevelSize(1),
        StyleEdit::Soften(2),
        StyleEdit::Depth(3),
        StyleEdit::Angle(4),
        StyleEdit::Altitude(5),
        StyleEdit::Highlight(6),
        StyleEdit::Shadow(7),
    ];
    assert_eq!(knobs.len(), 7, "the bevel panel lost a control");
    for edit in knobs {
        assert!(ed.edit_card(0, CardEdit::Style(edit)), "a new look is a new render");
    }
    let t = &ed.reel.titles[0].style;
    assert_eq!(
        (t.bevel_size, t.soften, t.depth, t.angle, t.altitude, t.hi_opacity, t.sh_opacity),
        (1, 2, 3, 4, 5, 6, 7)
    );
}

#[test]
fn every_style_control_drops_the_rendered_card() {
    for edit in [
        StyleEdit::FontSize(64),
        StyleEdit::Color("Gold".to_string()),
        StyleEdit::Font("Serif".to_string()),
        StyleEdit::Align("Left".to_string()),
        StyleEdit::KaraokeColor("Cyan".to_string()),
        StyleEdit::Boxed(true),
        StyleEdit::BoxOpacity(850),
        StyleEdit::Outline(6),
        StyleEdit::OutlineColor("White".to_string()),
        StyleEdit::Bevel("Off".to_string()),
    ] {
        let mut t = card();
        t.pngs = vec!["/cache/old.png".to_string()];
        let mut ed = editor(vec![], vec![t]);
        assert!(ed.edit_card(0, CardEdit::Style(edit)));
        assert!(ed.reel.titles[0].pngs.is_empty());
        assert!(ed.undo_stack.len() <= 1);
    }
}

#[test]
fn words_come_up_one_way_at_a_time() {
    let mut ed = editor(vec![], vec![card()]);
    assert_eq!(words_label(&ed.reel.titles[0].style), "All at once");
    ed.edit_card(0, CardEdit::Words(Words::OneAtATime));
    assert_eq!(words_label(&ed.reel.titles[0].style), "One at a time");
    ed.edit_card(0, CardEdit::Words(Words::Highlighted));
    assert_eq!(words_label(&ed.reel.titles[0].style), "Highlight each word");
    assert!(!ed.reel.titles[0].style.reveal);
    assert_eq!(ed.undo_stack.len(), 2);
}

#[test]
fn the_drag_of_a_slider_is_one_step_and_each_slider_its_own() {
    let mut ed = editor(vec![], vec![card(), card()]);
    ed.edit_card(0, CardEdit::Text("A".to_string()));
    ed.edit_card(0, CardEdit::Style(StyleEdit::Color("Gold".to_string())));
    ed.edit_card(0, CardEdit::Style(StyleEdit::ToggleBox));
    ed.seat_card_named(0, "Top");
    assert!(ed.undo_stack.is_empty(), "typing and these choices record no step");
    ed.edit_card(1, CardEdit::Style(StyleEdit::FontSize(50)));
    ed.edit_card(1, CardEdit::Style(StyleEdit::FontSize(60)));
    assert_eq!(ed.undo_stack.len(), 1);
    ed.edit_card(1, CardEdit::Style(StyleEdit::Outline(2)));
    assert_eq!(ed.undo_stack.len(), 2, "another slider is another step");
    ed.edit_card(0, CardEdit::Style(StyleEdit::Outline(2)));
    assert_eq!(ed.undo_stack.len(), 3, "another card is another step");
    ed.undo();
    ed.undo();
    assert_eq!((ed.reel.titles[1].style.outline, ed.reel.titles[1].style.font_size), (0, 60));
}

#[test]
fn the_format_bar_steps_and_switches() {
    let mut ed = editor(vec![], vec![card()]);
    let size = |ed: &Editor| ed.reel.titles[0].style.font_size;
    ed.edit_card(0, CardEdit::Style(StyleEdit::Larger));
    assert_eq!(size(&ed), 118);
    ed.edit_card(0, CardEdit::Style(StyleEdit::Smaller));
    assert_eq!(size(&ed), 110);
    ed.edit_card(0, CardEdit::Style(StyleEdit::FontSize(44)));
    ed.edit_card(0, CardEdit::Style(StyleEdit::Smaller));
    assert_eq!(size(&ed), 40);
    ed.edit_card(0, CardEdit::Style(StyleEdit::FontSize(236)));
    ed.edit_card(0, CardEdit::Style(StyleEdit::Larger));
    assert_eq!(size(&ed), 240);
    ed.edit_card(0, CardEdit::Style(StyleEdit::ToggleOutline));
    assert_eq!(ed.reel.titles[0].style.outline, 4);
    ed.edit_card(0, CardEdit::Style(StyleEdit::ToggleOutline));
    assert_eq!(ed.reel.titles[0].style.outline, 0);
    ed.edit_card(0, CardEdit::Text("Kept".to_string()));
    ed.reset_card(0, &card().style);
    assert_eq!((size(&ed), ed.reel.titles[0].text.as_str()), (110, "Kept"));
    assert_eq!(ed.status, "Text look reset.");
}

#[test]
fn speech_is_cut_into_short_pieces() {
    let long = "one two three four five six seven";
    let parts = chunk_caption(s(1.0), s(8.0), long, 5);
    let seen: Vec<(Time, Time, &str)> = parts.iter().map(|c| (c.start, c.end, c.text.as_str())).collect();
    assert_eq!(
        seen,
        vec![(s(1.0), s(6.0), "one two three four five"), (s(6.0), s(8.0), "six seven")]
    );
    let spaced = chunk_caption(0, s(1.0), "  a \n b ", 5);
    assert_eq!((spaced.len(), spaced[0].text.as_str()), (1, "a b"));
    assert!(chunk_caption(0, s(1.0), "   ", 5).is_empty());
    assert_eq!(chunk_caption(0, s(1.0), "a b c", 1).len(), 3);

    let mut ed = editor(vec![clip(10.0)], vec![]);
    let cues = vec![Cue { start: s(1.0), end: s(8.0), text: long.to_string() }];
    ed.land_captions(&cues, &card());
    let laid: Vec<(Time, &str)> = ed.reel.titles.iter().map(|t| (t.at, t.text.as_str())).collect();
    assert_eq!(laid, vec![(s(1.0), "one two three four five"), (s(6.0), "six seven")]);
    assert!(ed.status.starts_with("2 caption(s)"));
}

#[test]
fn a_shape_is_placed_and_sized() {
    let mut ed = editor(vec![], vec![card()]);
    ed.edit_card(0, CardEdit::Shape(ShapeKnob::Across, -250));
    ed.edit_card(0, CardEdit::Shape(ShapeKnob::Width, 400));
    ed.edit_card(0, CardEdit::Shape(ShapeKnob::Height, 9000));
    let f = ed.reel.titles[0].shape;
    assert_eq!((f.across, f.width, f.height), (-250, 400, 1000));
    assert_eq!(ShapeKnob::Across.label(), "Across");
}

#[test]
fn a_card_moves_with_the_playhead_and_stays_on_its_lanes() {
    let mut ed = editor(vec![clip(10.0)], vec![card()]);
    assert!(!ed.edit_card(0, CardEdit::At(s(4.0))));
    assert_eq!((ed.reel.titles[0].at, ed.playhead), (s(4.0), s(4.0)));
    ed.edit_card(0, CardEdit::Track(9));
    assert_eq!(ed.reel.titles[0].track, 3);
    ed.edit_card(0, CardEdit::Track(0));
    assert_eq!(ed.reel.titles[0].track, 1);
    ed.edit_card(0, CardEdit::Dur(s(2.0)));
    assert_eq!(ed.undo_tag, "tdur0");
    ed.edit_card(0, CardEdit::Text("New words".to_string()));
    ed.edit_card(0, CardEdit::Kind("Box".to_string()));
    ed.edit_card(0, CardEdit::Anim(Some("Slide up".to_string())));
    let t = &ed.reel.titles[0];
    assert_eq!((t.text.as_str(), t.kind.as_str(), t.dur), ("New words", "Box", s(2.0)));
    assert_eq!(t.style.anim, Some("Slide up".to_string()));
}

#[test]
fn a_card_is_seated_by_slider_name_and_drag() {
    let mut ed = editor(vec![], vec![card()]);
    ed.seat_card(0, 300);
    assert_eq!(seat_y(&ed.reel.titles[0]), 300);
    assert_eq!(ed.undo_tag, "tseat0");
    ed.seat_card_named(0, "Top");
    assert_eq!(seat_y(&ed.reel.titles[0]), 100);
    assert_eq!(ed.begin_title_drag(0), Some(100));
    assert_eq!(ed.undo_tag, "title-seat");
    // A quarter of a 480 px frame down.
    ed.drag_seat(0, 100, 120_000, 480_000, false);
    assert_eq!(seat_y(&ed.reel.titles[0]), 350);
    // With Shift held it goes to the seat nearest to where it was dragged.
    ed.drag_seat(0, 100, 120_000, 480_000, true);
    assert_eq!(seat_y(&ed.reel.titles[0]), 450);
    assert_eq!(position_label(&ed.reel.titles[0]), "Middle");
    ed.drag_seat(0, 450, 240_000, 480_000, true);
    assert_eq!(position_label(&ed.reel.titles[0]), "Lower third");
    // Off the frame: it stops at its edge.
    ed.drag_seat(0, 100, -480_000, 480_000, false);
    assert_eq!(seat_y(&ed.reel.titles[0]), 0);
    ed.end_title_drag(0);
    assert_eq!(ed.begin_title_drag(5), None);
}

#[test]
fn a_title_is_stretched_to_the_end_once() {
    let mut ed = editor(vec![clip(10.0)], vec![card()]);
    ed.extend_title(0);
    assert_eq!(ed.reel.titles[0].dur, s(10.0));
    assert_eq!(ed.status, "Text extended to end of reel (10.0s)");
    ed.extend_title(0);
    assert_eq!(ed.status, "Text already runs to the end of the reel.");
    assert_eq!(ed.undo_stack.len(), 1);
}

#[test]
fn captions_take_one_look_and_manual_text_keeps_its_own() {
    let mut a = card();
    a.caption = true;
    let mut b = card();
    b.style.color = "Gold".to_string();
    let mut ed = editor(vec![], vec![a, b, card()]);
    ed.style_captions(1);
    assert_eq!(ed.reel.titles[0].style.color, "Gold");
    assert_eq!(ed.reel.titles[2].style.color, "White");
    assert_eq!(ed.status, "Restyled 1 caption(s).");
}

#[test]
fn a_card_read_aloud_stays_up_while_it_is_read() {
    let mut ed = editor(vec![clip(10.0)], vec![card()]);
    let (words, at) = ed.begin_reading(0).unwrap();
    assert_eq!((words.as_str(), at), ("Hi", 0));
    assert_eq!(ed.status, "Reading card aloud…");
    assert!(ed.land_reading(0, at, "/tmp/speech.wav".to_string(), Some((s(4.0), true))));
    assert_eq!(ed.reel.titles[0].dur, s(4.0));
    let bed = &ed.reel.audios[0];
    assert_eq!((bed.name.as_str(), bed.lane, bed.out_s), ("Speech 1", 2, s(4.0)));
    assert_eq!((bed.fade_in, bed.fade_out), (s(0.02), s(0.05)));
    assert_eq!(ed.status, "Speech on A2 at 0:00.0 (4.0s).");
    assert!(ed.land_reading(0, at, "/tmp/two.wav".to_string(), Some((s(1.0), true))));
    assert_eq!(ed.reel.audios[1].name, "Speech 2");
    assert_eq!(ed.reel.titles[0].dur, s(4.0));
    assert!(!ed.land_reading(0, at, "/tmp/x.wav".to_string(), Some((s(0.05), true))));
    assert_eq!(ed.status, "Text-to-speech produced no audio.");
    assert!(!ed.land_reading(0, at, "/tmp/x.wav".to_string(), None));
    assert!(ed.begin_reading(9).is_none());
}

#[test]
fn speech_becomes_captions_that_never_stack() {
    let mut ed = editor(vec![clip(10.0)], vec![card()]);
    let cues = vec![
        Cue { start: s(1.0), end: s(4.0), text: "one two".to_string() },
        Cue { start: s(2.0), end: s(2.1), text: "three".to_string() },
    ];
    ed.land_captions(&cues, &card());
    assert_eq!(ed.reel.titles.len(), 3);
    let (a, b) = (&ed.reel.titles[1], &ed.reel.titles[2]);
    assert!(a.caption && b.caption);
    assert_eq!((a.at, a.dur), (s(1.0), s(0.95)), "it ends a hair before the next");
    assert_eq!((b.at, b.dur), (s(2.0), s(0.5)), "the shortest caption");
    assert_eq!(a.style.pos, "Lower third");
    assert_eq!(
        ed.status,
        "2 caption(s) on the T lane — check the wording in the inspector before export."
    );
    ed.clear_captions();
    assert_eq!(ed.reel.titles.len(), 1);
    assert_eq!(ed.status, "Removed 2 caption(s) — manual text kept.");
    ed.land_captions(&vec![], &card());
    assert_eq!(ed.status, "No speech found to caption.");
}

#[test]
fn a_picked_style_goes_on_the_card_or_becomes_one() {
    let mut look = card();
    look.style.color = "Gold".to_string();
    let mut ed = editor(vec![clip(10.0)], vec![card()]);
    ed.selected = Some(Sel::Title(0));
    let r = ed.apply_title_style(TitlePreset { name: "Bold".to_string(), style: look.clone() });
    assert_eq!(r, Some(0));
    assert_eq!(ed.reel.titles[0].style.color, "Gold");
    assert_eq!(ed.reel.titles[0].text, "Hi");
    assert_eq!(ed.status, "Applied \"Bold\".");
    ed.selected = None;
    let r = ed.apply_title_style(TitlePreset { name: "Bold".to_string(), style: look.clone() });
    assert_eq!(r, Some(1));
    assert_eq!(ed.reel.titles[1].text, "Text");
    let mut bare = editor(vec![], vec![]);
    assert_eq!(bare.apply_title_style(TitlePreset { name: "Bold".to_string(), style: look }), None);
    assert_eq!(bare.status, "Add a clip before adding text.");
}
