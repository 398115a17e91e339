//! What the inspector changes on title cards, and what reads them aloud.

use crate::adds::{is_fresh_bed, restyle, restyled};
use crate::drags::{tag, tagged};
use crate::edges::{hold_to_end, scaled, title_dur_to_end};
use crate::editor::{one_edit, put_in, same_but, Editor, EditorView};
use crate::model::{AudioItem, Reel, Shape, Shaping, TitleItem, TitleStyle, TitleView};
use crate::text::{cat2, cat3, cat5, decimal, digits, same_text};
use crate::time::{
    between, clock_text, fmt_clip_dur, fmt_t, in_source, length_text, lower, on_axis, upper, Time, SAME,
};
use crate::titles::{nearest_seat, seat_near, seat_of, seated_at, seat_y, set_seat_named, set_seat_y};
use crate::track::{lemma_start_axis, total, total_of};
use vstd::prelude::*;

verus! {

/// A change of how a card looks.
pub enum StyleEdit {
    FontSize(u32),
    Color(String),
    Font(String),
    Align(String),
    KaraokeColor(String),
    Boxed(bool),
    BoxOpacity(u32),
    Outline(u32),
    OutlineColor(String),
    Bevel(String),
    BevelSize(u32),
    Soften(u32),
    Depth(u32),
    Angle(u32),
    Altitude(u32),
    Highlight(u32),
    Shadow(u32),
    /// One step of the format bar down or up in size.
    Smaller,
    Larger,
    /// Switch the outline on or off.
    ToggleOutline,
    /// Switch the plate behind the words on or off.
    ToggleBox,
}

/// The smallest and the largest the format bar sets words.
pub const SMALLEST_FONT: u32 = 40;

pub const LARGEST_FONT: u32 = 240;

/// A step of the format bar.
pub const FONT_STEP: u32 = 8;

/// The outline that the format bar switches on.
pub const OUTLINE_ON: u32 = 4;

impl StyleEdit {
    /// The style after the change.
    pub open spec fn applied(&self, s: TitleStyle) -> TitleStyle {
        match *self {
            StyleEdit::FontSize(font_size) => TitleStyle { font_size, ..s },
            StyleEdit::Color(color) => TitleStyle { color, ..s },
            StyleEdit::Font(font) => TitleStyle { font, ..s },
            StyleEdit::Align(align) => TitleStyle { align, ..s },
            StyleEdit::KaraokeColor(karaoke_color) => TitleStyle { karaoke_color, ..s },
            StyleEdit::Boxed(boxed) => TitleStyle { boxed, ..s },
            StyleEdit::BoxOpacity(box_opacity) => TitleStyle { box_opacity, ..s },
            StyleEdit::Outline(outline) => TitleStyle { outline, ..s },
            StyleEdit::OutlineColor(outline_color) => TitleStyle { outline_color, ..s },
            StyleEdit::Bevel(bevel) => TitleStyle { bevel, ..s },
            StyleEdit::BevelSize(bevel_size) => TitleStyle { bevel_size, ..s },
            StyleEdit::Soften(soften) => TitleStyle { soften, ..s },
            StyleEdit::Depth(depth) => TitleStyle { depth, ..s },
            StyleEdit::Angle(angle) => TitleStyle { angle, ..s },
            StyleEdit::Altitude(altitude) => TitleStyle { altitude, ..s },
            StyleEdit::Highlight(hi_opacity) => TitleStyle { hi_opacity, ..s },
            StyleEdit::Shadow(sh_opacity) => TitleStyle { sh_opacity, ..s },
            StyleEdit::Smaller => TitleStyle {
                font_size: upper(s.font_size - FONT_STEP, SMALLEST_FONT as int) as u32,
                ..s
            },
            StyleEdit::Larger => TitleStyle {
                font_size: lower(s.font_size + FONT_STEP, LARGEST_FONT as int) as u32,
                ..s
            },
            StyleEdit::ToggleOutline => TitleStyle { outline: if s.outline > 0 { 0 } else { OUTLINE_ON }, ..s },
            StyleEdit::ToggleBox => TitleStyle { boxed: !s.boxed, ..s },
        }
    }

    /// What a slider is called in the tag of its undo step; what is picked or clicked
    /// records none.
    pub open spec fn word(&self) -> Option<Seq<char>> {
        match *self {
            StyleEdit::FontSize(_) => Some("tsize"@),
            StyleEdit::BoxOpacity(_) => Some("tboxop"@),
            StyleEdit::Outline(_) => Some("tout"@),
            StyleEdit::BevelSize(_) => Some("tbevs"@),
            StyleEdit::Soften(_) => Some("tsoft"@),
            StyleEdit::Depth(_) => Some("tdepth"@),
            StyleEdit::Angle(_) => Some("tangle"@),
            StyleEdit::Altitude(_) => Some("talt"@),
            StyleEdit::Highlight(_) => Some("thi"@),
            StyleEdit::Shadow(_) => Some("tsh"@),
            _ => None,
        }
    }

    fn word_for(&self) -> (r: Option<&'static str>)
        ensures
            self.word() == match r {
                Some(w) => Some(w@),
                None => None,
            },
    {
        match self {
            StyleEdit::FontSize(_) => Some("tsize"),
            StyleEdit::BoxOpacity(_) => Some("tboxop"),
            StyleEdit::Outline(_) => Some("tout"),
            StyleEdit::BevelSize(_) => Some("tbevs"),
            StyleEdit::Soften(_) => Some("tsoft"),
            StyleEdit::Depth(_) => Some("tdepth"),
            StyleEdit::Angle(_) => Some("tangle"),
            StyleEdit::Altitude(_) => Some("talt"),
            StyleEdit::Highlight(_) => Some("thi"),
            StyleEdit::Shadow(_) => Some("tsh"),
            _ => None,
        }
    }

    fn apply(self, s: &TitleStyle) -> (r: TitleStyle)
        ensures
            r == self.applied(*s),
    {
        let mut s: TitleStyle = s.clone();
        match self {
            StyleEdit::FontSize(v) => {
                s.font_size = v;
            },
            StyleEdit::Color(v) => {
                s.color = v;
            },
            StyleEdit::Font(v) => {
                s.font = v;
            },
            StyleEdit::Align(v) => {
                s.align = v;
            },
            StyleEdit::KaraokeColor(v) => {
                s.karaoke_color = v;
            },
            StyleEdit::Boxed(v) => {
                s.boxed = v;
            },
            StyleEdit::BoxOpacity(v) => {
                s.box_opacity = v;
            },
            StyleEdit::Outline(v) => {
                s.outline = v;
            },
            StyleEdit::OutlineColor(v) => {
                s.outline_color = v;
            },
            StyleEdit::Bevel(v) => {
                s.bevel = v;
            },
            StyleEdit::BevelSize(v) => {
                s.bevel_size = v;
            },
            StyleEdit::Soften(v) => {
                s.soften = v;
            },
            StyleEdit::Depth(v) => {
                s.depth = v;
            },
            StyleEdit::Angle(v) => {
                s.angle = v;
            },
            StyleEdit::Altitude(v) => {
                s.altitude = v;
            },
            StyleEdit::Highlight(v) => {
                s.hi_opacity = v;
            },
            StyleEdit::Shadow(v) => {
                s.sh_opacity = v;
            },
            StyleEdit::Smaller => {
                s.font_size = if s.font_size > SMALLEST_FONT + FONT_STEP { s.font_size - FONT_STEP } else { SMALLEST_FONT };
            },
            StyleEdit::Larger => {
                s.font_size = if s.font_size < LARGEST_FONT - FONT_STEP { s.font_size + FONT_STEP } else { LARGEST_FONT };
            },
            StyleEdit::ToggleOutline => {
                s.outline = if s.outline > 0 { 0 } else { OUTLINE_ON };
            },
            StyleEdit::ToggleBox => {
                s.boxed = !s.boxed;
            },
        }
        s
    }
}

/// How the words of a card come up.
#[derive(Clone, Copy, PartialEq, Eq, Structural, Debug)]
pub enum Words {
    AllAtOnce,
    OneAtATime,
    Highlighted,
}

/// The name the inspector shows for it.
pub open spec fn words_name(reveal: bool, karaoke: bool) -> Seq<char> {
    if karaoke {
        "Highlight each word"@
    } else if reveal {
        "One at a time"@
    } else {
        "All at once"@
    }
}

pub fn words_label(s: &TitleStyle) -> (r: &'static str)
    ensures
        r@ == words_name(s.reveal, s.karaoke),
{
    if s.karaoke {
        "Highlight each word"
    } else if s.reveal {
        "One at a time"
    } else {
        "All at once"
    }
}

/// A control of a shape card.
#[derive(Clone, Copy, PartialEq, Eq, Structural, Debug)]
pub enum ShapeKnob {
    Across,
    Width,
    Height,
}

impl ShapeKnob {
    /// What the control is called.
    pub open spec fn name(self) -> Seq<char> {
        match self {
            ShapeKnob::Across => "Across"@,
            ShapeKnob::Width => "Width"@,
            ShapeKnob::Height => "Height"@,
        }
    }

    /// The least and the greatest the control gives, in thousandths.
    pub open spec fn range(self) -> (int, int) {
        if self is Across { (-500, 500) } else { (10, 1000) }
    }

    /// What the inspector shows for it.
    pub fn label(self) -> (r: &'static str)
        ensures
            r@ == self.name(),
    {
        match self {
            ShapeKnob::Across => "Across",
            ShapeKnob::Width => "Width",
            ShapeKnob::Height => "Height",
        }
    }
}

/// A shape with a control set, held in its range.
pub open spec fn shape_set(s: Shape, knob: ShapeKnob, v: i32) -> Shape {
    let x = between(v as int, knob.range().0, knob.range().1);
    match knob {
        ShapeKnob::Across => Shape { across: x as i32, ..s },
        ShapeKnob::Width => Shape { width: x as u32, ..s },
        ShapeKnob::Height => Shape { height: x as u32, ..s },
    }
}

fn set_shape(s: Shape, knob: ShapeKnob, v: i32) -> (r: Shape)
    ensures
        r == shape_set(s, knob, v),
{
    match knob {
        ShapeKnob::Across => Shape { across: if v > 500 { 500 } else if v < -500 { -500 } else { v }, ..s },
        ShapeKnob::Width => Shape { width: if v > 1000 { 1000 } else if v < 10 { 10 } else { v as u32 }, ..s },
        ShapeKnob::Height => Shape { height: if v > 1000 { 1000 } else if v < 10 { 10 } else { v as u32 }, ..s },
    }
}

/// A change the inspector makes to a card.
pub enum CardEdit {
    Text(String),
    Kind(String),
    Track(u8),
    At(Time),
    Dur(Time),
    Style(StyleEdit),
    Shape(ShapeKnob, i32),
    Anim(Option<String>),
    Words(Words),
}

impl CardEdit {
    pub open spec fn wf(&self) -> bool {
        match *self {
            CardEdit::At(t) | CardEdit::Dur(t) => on_axis(t),
            _ => true,
        }
    }

    /// The card after the change. What was rendered is dropped where it would not
    /// look the same; words that are being typed keep the old card up.
    pub open spec fn applied(&self, t: TitleView, t_lanes: u8) -> TitleView {
        match *self {
            CardEdit::Text(text) => TitleView { text, ..t },
            CardEdit::Kind(kind) => TitleView { kind, pngs: Seq::empty(), ..t },
            CardEdit::Track(n) => TitleView { track: lower(upper(n as int, 1), t_lanes as int) as u8, ..t },
            CardEdit::At(at) => TitleView { at, ..t },
            CardEdit::Dur(dur) => TitleView { dur, ..t },
            CardEdit::Style(edit) => TitleView { style: edit.applied(t.style), pngs: Seq::empty(), ..t },
            CardEdit::Shape(knob, v) => TitleView { shape: shape_set(t.shape, knob, v), pngs: Seq::empty(), ..t },
            CardEdit::Anim(anim) => TitleView { style: TitleStyle { anim, ..t.style }, ..t },
            CardEdit::Words(w) => TitleView {
                style: TitleStyle { reveal: w is OneAtATime, karaoke: w is Highlighted, ..t.style },
                pngs: Seq::empty(),
                ..t
            },
        }
    }

    /// The tag of the undo step for card `k`: the drag of a slider is one step, and some
    /// choices are a step of their own. Typing and the other choices record none.
    pub open spec fn step(&self, k: usize) -> Option<Seq<char>> {
        match *self {
            CardEdit::Kind(_) | CardEdit::Track(_) | CardEdit::Anim(_) | CardEdit::Words(_) => Some(""@),
            CardEdit::Text(_) => None,
            CardEdit::At(_) => Some(tagged("tpos"@, k)),
            CardEdit::Dur(_) => Some(tagged("tdur"@, k)),
            CardEdit::Style(edit) => match edit.word() {
                Some(w) => Some(tagged(w, k)),
                None => None,
            },
            CardEdit::Shape(knob, _) => Some(tagged("shape"@ + knob.name(), k)),
        }
    }

    /// Whether the card has to be rendered again.
    pub open spec fn rerenders(&self) -> bool {
        *self is Text || *self is Kind || *self is Style || *self is Shape || *self is Words
    }

    fn tag_for(&self, k: usize) -> (r: Option<String>)
        ensures
            self.step(k) == match r {
                Some(t) => Some(t@),
                None => None,
            },
    {
        match self {
            CardEdit::Kind(_) | CardEdit::Track(_) | CardEdit::Anim(_) | CardEdit::Words(_) => Some("".to_owned()),
            CardEdit::Text(_) => None,
            CardEdit::At(_) => Some(tag("tpos", k)),
            CardEdit::Dur(_) => Some(tag("tdur", k)),
            CardEdit::Style(edit) => match edit.word_for() {
                Some(w) => Some(tag(w, k)),
                None => None,
            },
            CardEdit::Shape(knob, _) => Some(tag(cat2("shape", knob.label()).as_str(), k)),
        }
    }

    fn apply(self, t: &TitleItem, t_lanes: u8) -> (r: TitleItem)
        requires
            t@.wf(),
            self.wf(),
        ensures
            r@ == self.applied(t@, t_lanes),
            r@.wf(),
    {
        let ghost change = self;
        let ghost was = t@;
        let mut t: TitleItem = t.clone();
        match self {
            CardEdit::Text(text) => {
                t.text = text;
            },
            CardEdit::Kind(kind) => {
                t.kind = kind;
                t.pngs = Vec::new();
            },
            CardEdit::Track(n) => {
                let n: u8 = if n > 1 { n } else { 1 };
                t.track = if n > t_lanes { t_lanes } else { n };
            },
            CardEdit::At(at) => {
                t.at = at;
            },
            CardEdit::Dur(dur) => {
                t.dur = dur;
            },
            CardEdit::Style(edit) => {
                t.style = edit.apply(&t.style);
                t.pngs = Vec::new();
            },
            CardEdit::Shape(knob, v) => {
                t.shape = set_shape(t.shape, knob, v);
                t.pngs = Vec::new();
            },
            CardEdit::Anim(anim) => {
                t.style.anim = anim;
            },
            CardEdit::Words(w) => {
                t.style.reveal = matches!(w, Words::OneAtATime);
                t.style.karaoke = matches!(w, Words::Highlighted);
                t.pngs = Vec::new();
            },
        }
        assert(t@ =~= change.applied(was, t_lanes));
        t
    }
}

/// The seat after a drag, in thousandths of the frame; with Shift held it is the
/// named seat that is nearest.
pub open spec fn seat_dragged(from: u32, dy: i32, height: u32, shift: bool) -> int {
    let y = between(from + scaled(dy as int, 1000, height as int), 0, 1000);
    if shift { nearest_seat(y) } else { y }
}

/// A style seated by name.
pub open spec fn seated_by(s: TitleStyle, name: Seq<char>, r: TitleStyle) -> bool {
    r.pos@ == name && r == (TitleStyle { pos: r.pos, y_frac: None, ..s })
}

impl EditorView {
    /// With an undo step, where there is a tag for one.
    pub open spec fn recorded(self, tag: Option<Seq<char>>) -> EditorView {
        match tag {
            Some(t) => self.pushed(t),
            None => self,
        }
    }

    /// After card `k` was put back into the plain look `style`. The step is recorded
    /// before the card is looked up.
    pub open spec fn card_reset(self, k: usize, style: TitleStyle) -> EditorView {
        let e = self.pushed(""@);
        (if k < self.reel.titles.len() {
            e.put_title(k as int, restyled(self.reel.titles[k as int], style))
        } else {
            e
        }).says("Text look reset."@)
    }

    /// After the inspector changed card `k`. A card that moves takes the playhead
    /// along.
    pub open spec fn card_edited(self, k: usize, edit: CardEdit) -> EditorView {
        let e = self.recorded(edit.step(k)).put_title(k as int, edit.applied(self.reel.titles[k as int], self.reel.t_lanes));
        match edit {
            CardEdit::Track(_) => e.reseeks(),
            CardEdit::At(at) => e.sought(at as int),
            _ => e,
        }
    }

    /// After card `k` was stretched to the end of the reel.
    pub open spec fn card_stretched(self, k: usize) -> EditorView {
        if k >= self.reel.titles.len() {
            self
        } else {
            let t = self.reel.titles[k as int];
            let dur = hold_to_end(t.at as int, total(self.reel.clips));
            if -SAME < dur - t.dur < SAME {
                self.says("Text already runs to the end of the reel."@)
            } else {
                self.pushed(""@).put_title(k as int, TitleView { dur: dur as Time, ..t }).says(
                    "Text extended to end of reel ("@ + length_text(dur) + ")"@,
                )
            }
        }
    }
}

/// Cards of which the captions wear another style.
pub open spec fn captions_restyled(s: Seq<TitleView>, style: TitleStyle) -> Seq<TitleView> {
    Seq::new(s.len(), |k: int| if s[k].caption { restyled(s[k], style) } else { s[k] })
}

/// How many of the first `n` cards are captions.
pub open spec fn captions(s: Seq<TitleView>, n: int) -> nat
    decreases n,
{
    if n <= 0 { 0 } else { captions(s, n - 1) + if s[n - 1].caption { 1nat } else { 0 } }
}

impl EditorView {
    /// After the look of card `k` was put on every caption. The step is recorded
    /// before the card is looked up.
    pub open spec fn captions_styled(self, k: usize) -> EditorView {
        let e = self.pushed(""@);
        if k < self.reel.titles.len() {
            EditorView {
                reel: Reel {
                    titles: captions_restyled(self.reel.titles, self.reel.titles[k as int].style),
                    ..self.reel
                },
                ..e
            }.says("Restyled "@ + digits(captions(self.reel.titles, self.reel.titles.len() as int)) + " caption(s)."@)
        } else {
            e
        }
    }
}

impl TitleItem {
    fn held_for(&self, dur: Time) -> (r: TitleItem)
        requires
            self@.wf(),
            on_axis(dur),
        ensures
            r@ == (TitleView { dur, ..self@ }),
            r@.wf(),
    {
        let mut t: TitleItem = self.clone();
        t.dur = dur;
        t
    }
}

impl Editor {
    /// Change card `k`; whether it has to be rendered again.
    pub fn edit_card(&mut self, k: usize, edit: CardEdit) -> (r: bool)
        requires
            old(self)@.wf(),
            k < old(self).reel.titles.len(),
            edit.wf(),
        ensures
            final(self)@ == old(self)@.card_edited(k, edit),
            final(self)@.wf(),
            r == edit.rerenders(),
    {
        let t: Option<String> = edit.tag_for(k);
        let again: bool = matches!(
            edit,
            CardEdit::Text(_) | CardEdit::Kind(_) | CardEdit::Style(_) | CardEdit::Shape(_, _) | CardEdit::Words(_)
        );
        let to: Option<Time> = match &edit {
            CardEdit::Track(_) => Some(self.playhead),
            CardEdit::At(at) => Some(*at),
            _ => None,
        };
        if let Some(t) = t {
            self.push_undo(t.as_str());
        }
        assert(self@.reel.titles.len() == self.reel.titles.len());
        proof {
            crate::model::lemma_titles_ok_at(self@.reel.titles, k as int);
        }
        let item: TitleItem = edit.apply(&self.reel.titles[k], self.reel.t_lanes);
        self.set_title(k, item);
        if let Some(at) = to {
            self.seek_to(at);
        }
        again
    }

    /// Seat card `k` at a height, in thousandths of the frame.
    pub fn seat_card(&mut self, k: usize, y: u32)
        requires
            old(self)@.wf(),
            k < old(self).reel.titles.len(),
            y <= 1000,
        ensures
            seats_card(old(self)@, k, y, final(self)@),
            final(self)@.wf(),
    {
        let ghost was = self@;
        let t: String = tag("tseat", k);
        self.push_undo(t.as_str());
        assert(self@.reel.titles.len() == self.reel.titles.len());
        proof {
            crate::model::lemma_titles_ok_at(self@.reel.titles, k as int);
        }
        let mut item: TitleItem = self.reel.titles[k].clone();
        set_seat_y(&mut item, y);
        item.pngs = Vec::new();
        let ghost style = item.style;
        assert(item@ =~= restyled(was.reel.titles[k as int], style));
        self.set_title(k, item);
        assert(seated_at(was.reel.titles[k as int].style, y, style));
    }

    /// Seat card `k` by name.
    pub fn seat_card_named(&mut self, k: usize, name: &str)
        requires
            old(self)@.wf(),
            k < old(self).reel.titles.len(),
        ensures
            seats_by_name(old(self)@, k, name@, final(self)@),
            final(self)@.wf(),
    {
        let ghost was = self@;
        assert(self@.reel.titles.len() == self.reel.titles.len());
        proof {
            crate::model::lemma_titles_ok_at(self@.reel.titles, k as int);
        }
        let mut item: TitleItem = self.reel.titles[k].clone();
        set_seat_named(&mut item, name);
        item.pngs = Vec::new();
        let ghost style = item.style;
        assert(item@ =~= restyled(was.reel.titles[k as int], style));
        self.set_title(k, item);
        assert(seated_by(was.reel.titles[k as int].style, name@, style));
    }

    /// Put card `k` back into the plain look `style`; its words and its time stay.
    pub fn reset_card(&mut self, k: usize, style: &TitleStyle)
        requires
            old(self)@.wf(),
        ensures
            final(self)@ == old(self)@.card_reset(k, *style),
            final(self)@.wf(),
    {
        self.push_undo("");
        assert(self@.reel.titles.len() == self.reel.titles.len());
        if k < self.reel.titles.len() {
            proof {
                crate::model::lemma_titles_ok_at(self@.reel.titles, k as int);
            }
            let item: TitleItem = restyle(&self.reel.titles[k], style);
            self.set_title(k, item);
        }
        self.status = "Text look reset.".to_owned();
    }

    /// The handle of card `k` was grabbed; where the card sits.
    pub fn begin_title_drag(&mut self, k: usize) -> (r: Option<u32>)
        requires
            old(self)@.wf(),
        ensures
            final(self)@.wf(),
            if k < old(self)@.reel.titles.len() {
                &&& r == Some(seat_of(old(self)@.reel.titles[k as int].style))
                &&& final(self)@ == old(self)@.pushed("title-seat"@)
            } else {
                r is None && final(self)@ == old(self)@
            },
    {
        if k >= self.reel.titles.len() {
            return None;
        }
        let y: u32 = seat_y(&self.reel.titles[k]);
        self.push_undo("title-seat");
        Some(y)
    }

    /// Drag card `k` from the seat it was grabbed at by `dy`, on a frame that is
    /// `height` tall. With Shift it goes to the nearest named seat. The card keeps to the
    /// frame, and what was rendered stays up.
    pub fn drag_seat(&mut self, k: usize, from: u32, dy: i32, height: u32, shift: bool)
        requires
            old(self)@.wf(),
            height > 0,
        ensures
            drags_seat(old(self)@, k, from, dy, height, shift, final(self)@),
            final(self)@.wf(),
    {
        let ghost was = self@;
        if k >= self.reel.titles.len() {
            return;
        }
        proof {
            crate::model::lemma_titles_ok_at(self@.reel.titles, k as int);
        }
        let a: i64 = if dy >= 0 { dy as i64 } else { -(dy as i64) };
        let step: i64 = if dy >= 0 { a * 1000 / height as i64 } else { -(a * 1000 / height as i64) };
        assert(0 <= a * 1000 / (height as int) <= a * 1000) by (nonlinear_arith)
            requires
                0 <= a,
                height > 0,
        ;
        let y: i64 = from as i64 + step;
        let y: u32 = if y > 1000 { 1000 } else if y < 0 { 0 } else { y as u32 };
        let y: u32 = if shift { seat_near(y) } else { y };
        assert(y == seat_dragged(from, dy, height, shift));
        let mut item: TitleItem = self.reel.titles[k].clone();
        set_seat_y(&mut item, y);
        let ghost style = item.style;
        assert(item@ =~= TitleView { style, ..was.reel.titles[k as int] });
        self.set_title(k, item);
        assert(seated_at(was.reel.titles[k as int].style, seat_dragged(from, dy, height, shift) as u32, style));
    }

    /// Hold card `k` to the end of the reel.
    pub fn extend_title(&mut self, k: usize)
        requires
            old(self)@.wf(),
        ensures
            final(self)@ == old(self)@.card_stretched(k),
            final(self)@.wf(),
    {
        if k >= self.reel.titles.len() {
            return;
        }
        let n: usize = self.reel.clips.len();
        proof {
            crate::model::lemma_titles_ok_at(self@.reel.titles, k as int);
            lemma_start_axis(self@.reel.clips, n as int);
        }
        let dur: Time = title_dur_to_end(self.reel.titles[k].at, total_of(&self.reel.clips));
        let d: Time = dur - self.reel.titles[k].dur;
        if -SAME < d && d < SAME {
            self.status = "Text already runs to the end of the reel.".to_owned();
            return;
        }
        self.push_undo("");
        let t: TitleItem = self.reel.titles[k].held_for(dur);
        self.set_title(k, t);
        let long: String = fmt_clip_dur(dur);
        self.status = cat3("Text extended to end of reel (", long.as_str(), ")");
    }

    fn wear(&mut self, style: &TitleStyle) -> (r: usize)
        requires
            old(self)@.wf(),
        ensures
            final(self)@ == (EditorView {
                reel: Reel { titles: captions_restyled(old(self)@.reel.titles, *style), ..old(self)@.reel },
                ..old(self)@
            }),
            final(self)@.wf(),
            r == captions(old(self)@.reel.titles, old(self)@.reel.titles.len() as int),
    {
        let ghost was = self@;
        let ghost to = captions_restyled(was.reel.titles, *style);
        let n: usize = self.reel.titles.len();
        let mut count: usize = 0;
        let mut k: usize = 0;
        while k < n
            invariant
                k <= n,
                count <= k,
                n == was.reel.titles.len(),
                to == captions_restyled(was.reel.titles, *style),
                self@ == (EditorView { reel: Reel { titles: self@.reel.titles, ..was.reel }, ..was }),
                self@.reel.titles.len() == n,
                self@.wf(),
                count == captions(was.reel.titles, k as int),
                forall|j: int| 0 <= j < k ==> #[trigger] self@.reel.titles[j] == to[j],
                forall|j: int| k <= j < n ==> #[trigger] self@.reel.titles[j] == was.reel.titles[j],
            decreases n - k,
        {
            proof {
                crate::model::lemma_titles_ok_at(self@.reel.titles, k as int);
                assert(self@.reel.titles[k as int] == was.reel.titles[k as int]);
                assert(self@.reel.titles.len() == self.reel.titles.len());
            }
            if self.reel.titles[k].caption {
                let t: TitleItem = restyle(&self.reel.titles[k], style);
                self.set_title(k, t);
                count += 1;
            }
            k += 1;
        }
        assert(self@.reel.titles =~= to);
        count
    }

    /// Put the look of card `k` on every caption.
    pub fn style_captions(&mut self, k: usize)
        requires
            old(self)@.wf(),
        ensures
            final(self)@ == old(self)@.captions_styled(k),
            final(self)@.wf(),
    {
        self.push_undo("");
        if k >= self.reel.titles.len() {
            return;
        }
        let style: TitleStyle = self.reel.titles[k].style.clone();
        let n: usize = self.wear(&style);
        let count: String = decimal(n as u128);
        self.status = cat3("Restyled ", count.as_str(), " caption(s).");
    }
}

/// The shortest speech that is kept.
pub const SHORTEST_SPEECH: Time = 150_000;

/// Whether a bed is speech, by its name.
pub open spec fn is_speech(name: Seq<char>) -> bool {
    name.len() >= 6 && name.subrange(0, 6) == "Speech"@
}

/// How many of the first `n` beds are speech.
pub open spec fn speeches(s: Seq<AudioItem>, n: int) -> nat
    decreases n,
{
    if n <= 0 { 0 } else { speeches(s, n - 1) + if is_speech(s[n - 1].name@) { 1nat } else { 0 } }
}

/// The bed that a card read aloud becomes.
pub open spec fn is_reading(a: AudioItem, path: String, duration: Time, at: Time, n: nat) -> bool {
    &&& a.path == path
    &&& a.name@ == "Speech "@ + digits(n)
    &&& a.duration == duration
    &&& a.in_s == 0
    &&& a.out_s == duration
    &&& a.at == at
    &&& a.volume == 1000
    &&& a.fade_in == 60_000
    &&& a.fade_out == 150_000
    &&& a.lane == 2
    &&& a.wave@.len() == 0
    &&& a.group == 0
    &&& is_fresh_bed(a)
}

impl EditorView {
    /// After card `k` was read aloud: the speech is on A2, and the card stays up
    /// while it is read.
    pub open spec fn reading_landed(self, k: usize, a: AudioItem) -> EditorView {
        let titles = self.reel.titles;
        EditorView {
            reel: Reel {
                audios: self.reel.audios.push(a),
                titles: if k < titles.len() && titles[k as int].dur < a.duration {
                    titles.update(k as int, TitleView { dur: a.duration, ..titles[k as int] })
                } else {
                    titles
                },
                ..self.reel
            },
            ..self.pushed(""@)
        }.says(
            "Speech on A2 at "@ + clock_text(a.at as int) + " ("@ + length_text(a.duration as int) + ")."@,
        )
    }
}

fn reading(path: String, duration: Time, at: Time, n: usize) -> (a: AudioItem)
    requires
        in_source(duration),
        on_axis(at),
    ensures
        is_reading(a, path, duration, at, n as nat),
        a.wf(),
{
    proof {
        reveal_strlit("");
    }
    AudioItem {
        path,
        name: cat2("Speech ", decimal(n as u128).as_str()),
        duration,
        in_s: 0,
        out_s: duration,
        at,
        volume: 1000,
        vol_end: None,
        fade_in: 60_000,
        fade_out: 150_000,
        shaping: Shaping::default(),
        treat: None,
        lane: 2,
        wave: "".to_owned(),
        group: 0,
        enabled: true,
        solo: false,
    }
}

impl Editor {
    fn count_speeches(&self) -> (r: usize)
        ensures
            r == speeches(self@.reel.audios, self@.reel.audios.len() as int),
            r <= self@.reel.audios.len(),
    {
        proof {
            reveal_strlit("Speech");
        }
        let mut n: usize = 0;
        let mut i: usize = 0;
        while i < self.reel.audios.len()
            invariant
                i <= self.reel.audios@.len(),
                n <= i,
                n == speeches(self@.reel.audios, i as int),
            decreases self.reel.audios@.len() - i,
        {
            let name: &str = self.reel.audios[i].name.as_str();
            if name.unicode_len() >= 6 && same_text(name.substring_char(0, 6), "Speech") {
                n += 1;
            }
            i += 1;
        }
        n
    }

    /// Begin to read card `k` aloud; its words and where it starts.
    pub fn begin_reading(&mut self, k: usize) -> (r: Option<(String, Time)>)
        requires
            old(self)@.wf(),
        ensures
            final(self)@.wf(),
            if k < old(self)@.reel.titles.len() {
                let t = old(self)@.reel.titles[k as int];
                &&& r == Some((t.text, t.at))
                &&& on_axis(t.at)
                &&& final(self)@ == old(self)@.says("Reading card aloud…"@)
            } else {
                r is None && final(self)@ == old(self)@
            },
    {
        if k >= self.reel.titles.len() {
            return None;
        }
        proof {
            crate::model::lemma_titles_ok_at(self@.reel.titles, k as int);
        }
        self.status = "Reading card aloud…".to_owned();
        Some((self.reel.titles[k].text.clone(), self.reel.titles[k].at))
    }

    fn add_reading(&mut self, k: usize, a: AudioItem)
        requires
            old(self)@.wf(),
            a.wf(),
        ensures
            final(self)@ == old(self)@.reading_landed(k, a),
            final(self)@.wf(),
    {
        let ghost was = self@;
        self.push_undo("");
        let (at, duration): (Time, Time) = (a.at, a.duration);
        proof {
            crate::model::lemma_audios_ok(was.reel.audios, 0, a);
        }
        self.reel.audios.push(a);
        assert(self.reel.audios@ =~= was.reel.audios.push(a));
        if k < self.reel.titles.len() && self.reel.titles[k].dur < duration {
            proof {
                crate::model::lemma_titles_ok_at(self@.reel.titles, k as int);
            }
            let t: TitleItem = self.reel.titles[k].held_for(duration);
            self.set_title(k, t);
        }
        self.status = cat5("Speech on A2 at ", fmt_t(at).as_str(), " (", fmt_clip_dur(duration).as_str(), ").");
    }

    /// The speech for card `k` was made and probed, or could not be; whether a bed
    /// was added, whose wave is then to be drawn.
    pub fn land_reading(&mut self, k: usize, at: Time, path: String, probed: Option<(Time, bool)>) -> (r: bool)
        requires
            old(self)@.wf(),
            on_axis(at),
            probed matches Some(p) ==> in_source(p.0),
            old(self)@.reel.audios.len() < usize::MAX,
        ensures
            final(self)@.wf(),
            lands_reading(old(self)@, k, at, path, probed, final(self)@, r),
    {
        let ghost was = self@;
        if let Some((duration, true)) = probed {
            if duration > SHORTEST_SPEECH {
                let n: usize = self.count_speeches() + 1;
                let a: AudioItem = reading(path, duration, at, n);
                let ghost ga = a;
                self.add_reading(k, a);
                assert(is_reading(
                    ga,
                    path,
                    duration,
                    at,
                    speeches(was.reel.audios, was.reel.audios.len() as int) + 1,
                ));
                return true;
            }
        }
        self.status = "Text-to-speech produced no audio.".to_owned();
        false
    }
}

/// Law: only captions change their look, and all of them take the same one.
pub proof fn law_one_look(s: Seq<TitleView>, style: TitleStyle, k: int)
    requires
        0 <= k < s.len(),
    ensures
        s[k].caption ==> captions_restyled(s, style)[k].style == style,
        !s[k].caption ==> captions_restyled(s, style)[k] == s[k],
        captions_restyled(s, style)[k].text == s[k].text,
        captions_restyled(s, style)[k].at == s[k].at,
        captions_restyled(s, style)[k].dur == s[k].dur,
{
}

/// Law: a card is held at least as long as it takes to read it.
pub proof fn law_card_outlasts_its_reading(e: EditorView, k: usize, a: AudioItem)
    requires
        k < e.reel.titles.len(),
    ensures
        e.reading_landed(k, a).reel.titles[k as int].dur >= a.duration,
        e.reading_landed(k, a).reel.titles[k as int].dur >= e.reel.titles[k as int].dur,
{
}

/// Law: the drag of a slider of a card is one step to undo, and undoing it brings back the reel before the first change.
pub proof fn law_card_drag_is_one_step(e: EditorView, k: usize, first: CardEdit, later: CardEdit, tag: Seq<char>)
    requires
        first.step(k) == Some(tag),
        later.step(k) == Some(tag),
        tag.len() > 0,
        e.undo_tag != tag,
    ensures
        e.card_edited(k, first).undo.last() == e.reel,
        e.card_edited(k, first).card_edited(k, later).undo == e.card_edited(k, first).undo,
        e.card_edited(k, first).card_edited(k, later).undone().reel == crate::lanes::normal(e.reel),
{
    reveal(EditorView::pushed);
    crate::editor::law_undo_takes_an_edit_back(e, tag, e.card_edited(k, first).card_edited(k, later));
}

/// Law: an edit of a title's look sets what it names and nothing else.
pub proof fn law_style_edits(s: TitleStyle, v: u32, b: bool, c: String)
    ensures
        StyleEdit::FontSize(v).applied(s) == (TitleStyle { font_size: v, ..s }),
        StyleEdit::Color(c).applied(s) == (TitleStyle { color: c, ..s }),
        StyleEdit::Font(c).applied(s) == (TitleStyle { font: c, ..s }),
        StyleEdit::Align(c).applied(s) == (TitleStyle { align: c, ..s }),
        StyleEdit::KaraokeColor(c).applied(s) == (TitleStyle { karaoke_color: c, ..s }),
        StyleEdit::Boxed(b).applied(s) == (TitleStyle { boxed: b, ..s }),
        StyleEdit::BoxOpacity(v).applied(s) == (TitleStyle { box_opacity: v, ..s }),
        StyleEdit::Outline(v).applied(s) == (TitleStyle { outline: v, ..s }),
        StyleEdit::OutlineColor(c).applied(s) == (TitleStyle { outline_color: c, ..s }),
        StyleEdit::Bevel(c).applied(s) == (TitleStyle { bevel: c, ..s }),
        StyleEdit::BevelSize(v).applied(s) == (TitleStyle { bevel_size: v, ..s }),
        StyleEdit::Soften(v).applied(s) == (TitleStyle { soften: v, ..s }),
        StyleEdit::Depth(v).applied(s) == (TitleStyle { depth: v, ..s }),
        StyleEdit::Angle(v).applied(s) == (TitleStyle { angle: v, ..s }),
        StyleEdit::Altitude(v).applied(s) == (TitleStyle { altitude: v, ..s }),
        StyleEdit::Highlight(v).applied(s) == (TitleStyle { hi_opacity: v, ..s }),
        StyleEdit::Shadow(v).applied(s) == (TitleStyle { sh_opacity: v, ..s }),
{
}

/// Law: the buttons of the format bar: larger and smaller go eight at a time between
/// forty and two hundred and forty, and undo each other in between; the outline and the
/// box go off and on.
pub proof fn law_format_bar(s: TitleStyle)
    ensures
        ({
            let l = StyleEdit::Larger.applied(s);
            let m = StyleEdit::Smaller.applied(s);
            &&& l == (TitleStyle { font_size: l.font_size, ..s }) && m == (TitleStyle { font_size: m.font_size, ..s })
            &&& s.font_size + 8 <= 240 ==> l.font_size - s.font_size == 8
            &&& s.font_size + 8 > 240 ==> l.font_size == 240
            &&& s.font_size >= 48 ==> s.font_size - m.font_size == 8
            &&& s.font_size < 48 ==> m.font_size == 40
            &&& 40 <= s.font_size <= 232 ==> StyleEdit::Smaller.applied(l) == s
        }),
        ({
            let o = StyleEdit::ToggleOutline.applied(s);
            let b = StyleEdit::ToggleBox.applied(s);
            &&& o == (TitleStyle { outline: o.outline, ..s }) && b == (TitleStyle { boxed: !s.boxed, ..s })
            &&& s.outline > 0 ==> o.outline == 0
            &&& s.outline == 0 ==> o.outline == 4
            &&& StyleEdit::ToggleBox.applied(b) == s
        }),
{
}

/// Law: an edit of a title sets what it names and nothing else; its cards are drawn
/// again exactly where the edit changes what they look like.
pub proof fn law_card_edits(t: TitleView, lanes: u8, text: String, n: u8, at: Time, choice: Option<String>, edit: StyleEdit, v: i32)
    requires
        lanes >= 1,
    ensures
        CardEdit::Text(text).applied(t, lanes) == (TitleView { text, ..t }),
        CardEdit::Kind(text).applied(t, lanes) == (TitleView { kind: text, pngs: Seq::empty(), ..t }),
        ({
            let a = CardEdit::Track(n).applied(t, lanes);
            &&& a == (TitleView { track: a.track, ..t })
            &&& 1 <= n <= lanes ==> a.track == n
            &&& n < 1 ==> a.track == 1
            &&& n > lanes ==> a.track == lanes
        }),
        CardEdit::At(at).applied(t, lanes) == (TitleView { at, ..t }),
        CardEdit::Dur(at).applied(t, lanes) == (TitleView { dur: at, ..t }),
        CardEdit::Style(edit).applied(t, lanes) == (TitleView { style: edit.applied(t.style), pngs: Seq::empty(), ..t }),
        CardEdit::Anim(choice).applied(t, lanes) == (TitleView { style: TitleStyle { anim: choice, ..t.style }, ..t }),
        ({
            let a = CardEdit::Words(Words::AllAtOnce).applied(t, lanes);
            let b = CardEdit::Words(Words::OneAtATime).applied(t, lanes);
            let c = CardEdit::Words(Words::Highlighted).applied(t, lanes);
            &&& !a.style.reveal && !a.style.karaoke && words_name(a.style.reveal, a.style.karaoke) == "All at once"@
            &&& b.style.reveal && !b.style.karaoke && words_name(b.style.reveal, b.style.karaoke) == "One at a time"@
            &&& !c.style.reveal && c.style.karaoke && words_name(c.style.reveal, c.style.karaoke)
                == "Highlight each word"@
            &&& a == (TitleView { style: a.style, pngs: Seq::empty(), ..t })
        }),
        ({
            let a = CardEdit::Shape(ShapeKnob::Across, v).applied(t, lanes);
            let w = CardEdit::Shape(ShapeKnob::Width, v).applied(t, lanes);
            let h = CardEdit::Shape(ShapeKnob::Height, v).applied(t, lanes);
            &&& a.shape == (Shape { across: a.shape.across, ..t.shape })
            &&& w.shape == (Shape { width: w.shape.width, ..t.shape })
            &&& h.shape == (Shape { height: h.shape.height, ..t.shape })
            &&& -500 <= v <= 500 ==> a.shape.across == v
            &&& 10 <= v <= 1000 ==> w.shape.width == v && h.shape.height == v
            &&& -500 <= a.shape.across <= 500 && 10 <= w.shape.width <= 1000 && 10 <= h.shape.height <= 1000
        }),
        CardEdit::Text(text).rerenders() && CardEdit::Style(edit).rerenders() && !CardEdit::At(at).rerenders()
            && !CardEdit::Dur(at).rerenders() && !CardEdit::Track(n).rerenders(),
{
}

/// Law: an edit of a title touches that title and nothing else; moving it takes the
/// playhead along.
pub proof fn law_card_edit_touches_one(e: EditorView, k: usize, edit: CardEdit)
    requires
        k < e.reel.titles.len(),
    ensures
        ({
            let f = e.card_edited(k, edit);
            &&& f.reel == (Reel { titles: f.reel.titles, ..e.reel })
            &&& same_but(e.reel.titles, f.reel.titles, k as int)
            &&& f.reel.titles[k as int] == edit.applied(e.reel.titles[k as int], e.reel.t_lanes)
            &&& edit matches CardEdit::At(at) ==> f.playhead == at
            &&& !(edit is At) ==> f.playhead == e.playhead
            &&& e.undo_tag.len() == 0 && edit.step(k) is Some ==> one_edit(e, f)
        }),
{
    reveal(EditorView::pushed);
}

/// Law: dragging a title down by some part of the picture's height moves its seat down
/// by as much, inside the picture.
pub proof fn law_seat_drag(from: u32, dy: i32, height: u32)
    requires
        from <= 1000,
        height > 0,
        dy >= 0,
    ensures
        ({
            let y = seat_dragged(from, dy, height, false);
            &&& 0 <= y <= 1000
            &&& y < 1000 ==> height * (y - from) <= 1000 * dy < height * (y - from) + height
            &&& seat_dragged(from, 0, height, false) == from
        }),
{
    let p = dy * 1000;
    let h = height as int;
    let q = p / h;
    assert(h * q <= p < h * q + h && q >= 0) by (nonlinear_arith)
        requires
            q == p / h,
            h > 0,
            p >= 0,
    ;
    assert(0int / h == 0) by (nonlinear_arith)
        requires
            h > 0,
    ;
}

/// Law: a title stretched to the end of the reel ends with it; one look for all captions
/// leaves every other title; a reading lands on A2 where its card comes up.
pub proof fn law_card_actions(e: EditorView, k: usize, style: TitleStyle, a: AudioItem, path: String, duration: Time, n: nat)
    requires
        k < e.reel.titles.len(),
        e.reel.titles[k as int].wf(),
        crate::trims::reel_track(e.reel.clips),
        is_reading(a, path, duration, e.reel.titles[k as int].at, n),
    ensures
        ({
            let t = e.reel.titles[k as int];
            let f = e.card_stretched(k);
            let d = f.reel.titles[k as int];
            let end = total(e.reel.clips);
            &&& f.reel == (Reel { titles: f.reel.titles, ..e.reel }) && same_but(e.reel.titles, f.reel.titles, k as int)
            &&& d == (TitleView { dur: d.dur, ..t })
            &&& 10 * (end - t.at) >= 3 * crate::time::SECOND ==> -3 < t.at + d.dur - end < 3
            &&& d.dur != t.dur ==> one_edit(e, f)
        }),
        ({
            let f = e.card_reset(k, style);
            let t = e.reel.titles[k as int];
            &&& one_edit(e, f)
            &&& f.reel == (Reel { titles: f.reel.titles, ..e.reel }) && same_but(e.reel.titles, f.reel.titles, k as int)
            &&& f.reel.titles[k as int] == (TitleView { style, pngs: Seq::empty(), ..t })
        }),
        ({
            let f = e.captions_styled(k);
            &&& one_edit(e, f)
            &&& f.reel == (Reel { titles: f.reel.titles, ..e.reel })
            &&& f.reel.titles.len() == e.reel.titles.len()
            &&& forall|i: int|
                0 <= i < e.reel.titles.len() ==> (#[trigger] f.reel.titles[i]).text == e.reel.titles[i].text && (
                e.reel.titles[i].caption ==> f.reel.titles[i].style == e.reel.titles[k as int].style) && (
                !e.reel.titles[i].caption ==> f.reel.titles[i] == e.reel.titles[i])
        }),
        ({
            let f = e.reading_landed(k, a);
            let b = f.reel.audios[e.reel.audios.len() as int];
            &&& one_edit(e, f)
            &&& f.reel == (Reel { audios: f.reel.audios, titles: f.reel.titles, ..e.reel })
            &&& put_in(e.reel.audios, f.reel.audios, e.reel.audios.len() as int)
            &&& b.path == path && b.at == e.reel.titles[k as int].at && b.lane == 2 && b.in_s == 0 && b.out_s == duration
            &&& b.volume == 1000 && b.enabled && !b.solo
            &&& same_but(e.reel.titles, f.reel.titles, k as int)
        }),
{
    reveal_strlit("");
    crate::editor::lemma_pushed_alone(e, ""@);
    lemma_start_axis(e.reel.clips, e.reel.clips.len() as int);
}

/// A title was seated at a height.
pub open spec fn seats_card(e: EditorView, k: usize, y: u32, f: EditorView) -> bool {
    exists|style: TitleStyle| #[trigger]
        seated_at(e.reel.titles[k as int].style, y, style) && f == e.pushed(tagged("tseat"@, k)).put_title(
            k as int,
            restyled(e.reel.titles[k as int], style),
        )
}

/// A title was seated by name.
pub open spec fn seats_by_name(e: EditorView, k: usize, name: Seq<char>, f: EditorView) -> bool {
    exists|style: TitleStyle| #[trigger]
        seated_by(e.reel.titles[k as int].style, name, style) && f == e.put_title(
            k as int,
            restyled(e.reel.titles[k as int], style),
        )
}

/// A title was dragged over the picture.
pub open spec fn drags_seat(e: EditorView, k: usize, from: u32, dy: i32, height: u32, shift: bool, f: EditorView) -> bool {
    if k < e.reel.titles.len() {
        exists|style: TitleStyle| #[trigger]
            seated_at(e.reel.titles[k as int].style, seat_dragged(from, dy, height, shift) as u32, style) && f
                == e.put_title(k as int, TitleView { style, ..e.reel.titles[k as int] })
    } else {
        f == e
    }
}

/// A card was read aloud.
pub open spec fn lands_reading(
    e: EditorView,
    k: usize,
    at: Time,
    path: String,
    probed: Option<(Time, bool)>,
    f: EditorView,
    r: bool,
) -> bool {
    &&& r == (probed matches Some(p) && p.1 && p.0 > SHORTEST_SPEECH)
    &&& r ==> exists|a: AudioItem| #[trigger]
        is_reading(a, path, (probed->0).0, at, speeches(e.reel.audios, e.reel.audios.len() as int) + 1) && f
            == e.reading_landed(k, a)
    &&& !r ==> f == e.says("Text-to-speech produced no audio."@)
}

/// Law: seating a title moves its seat to the height asked for, within the snap of a
/// named seat, and changes no other title and nothing else of its own; its cards are
/// drawn again. A name puts it on that seat.
pub proof fn law_seating(e: EditorView, k: usize, y: u32, name: Seq<char>, f: EditorView)
    requires
        k < e.reel.titles.len(),
        y <= 1000,
    ensures
        seats_card(e, k, y, f) ==> {
            let s = f.reel.titles[k as int].style;
            &&& f.reel == (Reel { titles: f.reel.titles, ..e.reel }) && same_but(e.reel.titles, f.reel.titles, k as int)
            &&& f.reel.titles[k as int] == (TitleView { style: s, pngs: Seq::empty(), ..e.reel.titles[k as int] })
            &&& s == (TitleStyle { pos: s.pos, y_frac: s.y_frac, ..e.reel.titles[k as int].style })
            &&& seat_of(s) <= y + 25 && y <= seat_of(s) + 25
            &&& e.undo_tag.len() == 0 ==> one_edit(e, f)
        },
        seats_by_name(e, k, name, f) ==> {
            let s = f.reel.titles[k as int].style;
            &&& f.reel == (Reel { titles: f.reel.titles, ..e.reel }) && same_but(e.reel.titles, f.reel.titles, k as int)
            &&& s.pos@ == name && s.y_frac is None && seat_of(s) == crate::titles::named_seat(name)
            &&& s == (TitleStyle { pos: s.pos, y_frac: s.y_frac, ..e.reel.titles[k as int].style })
            &&& f.reel.titles[k as int] == (TitleView { style: s, pngs: Seq::empty(), ..e.reel.titles[k as int] })
        },
{
    reveal(EditorView::pushed);
    if seats_card(e, k, y, f) {
        let style = choose|style: TitleStyle| #[trigger]
            seated_at(e.reel.titles[k as int].style, y, style) && f == e.pushed(tagged("tseat"@, k)).put_title(
                k as int,
                restyled(e.reel.titles[k as int], style),
            );
        crate::titles::law_seat(e.reel.titles[k as int].style, y, style);
    }
}

/// Law: a drag over the picture seats the title where it was dragged to; a title that is
/// not there is not dragged.
pub proof fn law_seat_follows(e: EditorView, k: usize, from: u32, dy: i32, height: u32, shift: bool, f: EditorView)
    requires
        drags_seat(e, k, from, dy, height, shift, f),
        height > 0,
    ensures
        k >= e.reel.titles.len() ==> f == e,
        k < e.reel.titles.len() ==> {
            let y = seat_dragged(from, dy, height, shift);
            let s = f.reel.titles[k as int].style;
            &&& f.reel == (Reel { titles: f.reel.titles, ..e.reel }) && same_but(e.reel.titles, f.reel.titles, k as int)
            &&& f.reel.titles[k as int] == (TitleView { style: s, ..e.reel.titles[k as int] })
            &&& seat_of(s) <= y + 25 && y <= seat_of(s) + 25
            &&& f.undo == e.undo
        },
{
    if k < e.reel.titles.len() {
        let y = seat_dragged(from, dy, height, shift);
        let style = choose|style: TitleStyle| #[trigger]
            seated_at(e.reel.titles[k as int].style, y as u32, style) && f == e.put_title(
                k as int,
                TitleView { style, ..e.reel.titles[k as int] },
            );
        crate::titles::law_seat(e.reel.titles[k as int].style, y as u32, style);
    }
}

/// Law: a reading that has sound, a twentieth of a second or more, lands on A2 where its
/// card comes up, and the card stays up for it; any other leaves the reel as it was.
pub proof fn law_reading_lands(e: EditorView, k: usize, at: Time, path: String, probed: Option<(Time, bool)>, f: EditorView, r: bool)
    requires
        lands_reading(e, k, at, path, probed, f, r),
    ensures
        r <==> (probed matches Some(p) && p.1 && 20 * p.0 > crate::time::SECOND),
        !r ==> f.reel == e.reel && f.undo == e.undo,
        r ==> {
            let b = f.reel.audios[e.reel.audios.len() as int];
            &&& one_edit(e, f)
            &&& f.reel == (Reel { audios: f.reel.audios, titles: f.reel.titles, ..e.reel })
            &&& put_in(e.reel.audios, f.reel.audios, e.reel.audios.len() as int)
            &&& b.path == path && b.at == at && b.lane == 2 && b.in_s == 0 && b.out_s == (probed->0).0
            &&& k < e.reel.titles.len() ==> same_but(e.reel.titles, f.reel.titles, k as int)
                && f.reel.titles[k as int].dur >= (probed->0).0 && f.reel.titles[k as int].dur
                >= e.reel.titles[k as int].dur
            &&& k >= e.reel.titles.len() ==> f.reel.titles == e.reel.titles
        },
{
    reveal_strlit("");
    crate::editor::lemma_pushed_alone(e, ""@);
}

} // verus!
