//! Title cards: the words of a card, the run of cards a revealed line is made of,
//! where a card sits on the frame, and captions.

use crate::editor::{one_edit, Editor, EditorView};
use crate::model::{cards, titles_ok, Reel, Sel, TitleItem, TitleStyle, TitleView};
use crate::text::{cat2, cat3, decimal, digits, is_white, same_text, white};
use crate::time::{greater, lesser, lower, on_axis, upper, Time};
use vstd::prelude::*;

verus! {

/// Where the words among the first `n` characters end.
pub open spec fn word_ends(s: Seq<char>, n: int) -> Seq<int>
    decreases n,
{
    if n <= 0 {
        Seq::empty()
    } else if !is_white(s[n - 1]) && (n >= s.len() || is_white(s[n])) {
        word_ends(s, n - 1).push(n)
    } else {
        word_ends(s, n - 1)
    }
}

/// How many words a text has.
pub open spec fn word_count(s: Seq<char>) -> nat {
    word_ends(s, s.len() as int).len()
}

/// The text up to the end of each word, with the breaks it has.
pub open spec fn prefixes(s: Seq<char>) -> Seq<Seq<char>> {
    Seq::new(word_count(s), |k: int| s.subrange(0, word_ends(s, s.len() as int)[k]))
}

proof fn lemma_word_ends(s: Seq<char>, n: int)
    requires
        0 <= n <= s.len(),
    ensures
        forall|k: int| 0 <= k < word_ends(s, n).len() ==> 0 < #[trigger] word_ends(s, n)[k] <= n,
        word_ends(s, n).len() <= n,
    decreases n,
{
    if n > 0 {
        lemma_word_ends(s, n - 1);
    }
}

/// Where the words of a text end.
fn ends_of_words(s: &str) -> (r: Vec<usize>)
    ensures
        r@.len() == word_count(s@),
        forall|k: int| 0 <= k < r@.len() ==> #[trigger] r@[k] == word_ends(s@, s@.len() as int)[k],
        forall|k: int| 0 <= k < r@.len() ==> 0 < #[trigger] r@[k] <= s@.len(),
{
    let n: usize = s.unicode_len();
    let mut r: Vec<usize> = Vec::new();
    let mut i: usize = 0;
    while i < n
        invariant
            n == s@.len(),
            i <= n,
            r@.len() == word_ends(s@, i as int).len(),
            forall|k: int| 0 <= k < r@.len() ==> #[trigger] r@[k] == word_ends(s@, i as int)[k],
        decreases n - i,
    {
        i += 1;
        if !white(s.get_char(i - 1)) && (i >= n || white(s.get_char(i))) {
            r.push(i);
        }
    }
    proof {
        lemma_word_ends(s@, s@.len() as int);
    }
    r
}

/// The text up to the end of each word.
pub fn word_prefixes(s: &str) -> (r: Vec<String>)
    ensures
        crate::text::texts(r@) == prefixes(s@),
{
    let ends: Vec<usize> = ends_of_words(s);
    let mut r: Vec<String> = Vec::new();
    let mut k: usize = 0;
    while k < ends.len()
        invariant
            k <= ends@.len(),
            ends@.len() == word_count(s@),
            forall|j: int| 0 <= j < ends@.len() ==> #[trigger] ends@[j] == word_ends(s@, s@.len() as int)[j],
            forall|j: int| 0 <= j < ends@.len() ==> 0 < #[trigger] ends@[j] <= s@.len(),
            r@.len() == k,
            forall|j: int| 0 <= j < k ==> (#[trigger] r@[j])@ == prefixes(s@)[j],
        decreases ends@.len() - k,
    {
        assert(ends@[k as int] == word_ends(s@, s@.len() as int)[k as int]);
        r.push(s.substring_char(0, ends[k]).to_owned());
        k += 1;
    }
    assert(crate::text::texts(r@) =~= prefixes(s@));
    r
}

/// One card of the run a title is shown as.
pub struct Segment {
    pub text: String,
    pub at: Time,
    pub dur: Time,
    /// The word that is sung now.
    pub active: Option<usize>,
}

/// How many cards a title is shown as: one for each word where it is revealed or
/// sung word by word, and otherwise one.
pub open spec fn card_count(t: TitleView) -> nat {
    let n = word_count(t.text@);
    if (t.style.karaoke || t.style.reveal) && n > 1 { n } else { 1 }
}

/// How long each card but the last is up. A sung line gives every word the same
/// time; a revealed one spends the first three fifths of the title on the words, and
/// then holds.
pub open spec fn card_step(t: TitleView) -> int {
    let n = card_count(t);
    if n <= 1 {
        0
    } else if t.style.karaoke {
        t.dur as int / (n as int)
    } else {
        t.dur as int * 3 / (5 * n as int)
    }
}

/// When card `k` comes up.
pub open spec fn card_start(t: TitleView, k: int) -> int {
    t.at + k * card_step(t)
}

/// How long card `k` is up: the last one holds until the title is over.
pub open spec fn card_dur(t: TitleView, k: int) -> int {
    if k == card_count(t) - 1 { t.dur - k * card_step(t) } else { card_step(t) }
}

/// What card `k` says.
pub open spec fn card_text(t: TitleView, k: int) -> Seq<char> {
    if card_count(t) > 1 && !t.style.karaoke { prefixes(t.text@)[k] } else { t.text@ }
}

/// Whether `s` is card `k` of a title.
pub open spec fn is_segment(s: Segment, t: TitleView, k: int) -> bool {
    &&& s.text@ == card_text(t, k)
    &&& s.at == card_start(t, k)
    &&& s.dur == card_dur(t, k)
    &&& s.active == if card_count(t) > 1 && t.style.karaoke { Some(k as usize) } else { None }
}

/// Law: the cards of a title run back to back: the first comes up with it, each
/// next one when the one before is over, and the last stays until the end.
pub proof fn law_cards_tile_the_title(t: TitleView, k: int)
    requires
        t.wf(),
        0 <= k < card_count(t),
    ensures
        card_start(t, 0) == t.at,
        k + 1 < card_count(t) ==> card_start(t, k) + card_dur(t, k) == card_start(t, k + 1),
        k + 1 == card_count(t) ==> card_start(t, k) + card_dur(t, k) == t.at + t.dur,
        0 <= card_step(t),
        0 <= card_dur(t, k) <= t.dur,
        t.at <= card_start(t, k) <= t.at + t.dur,
{
    lemma_steps_fit(t);
    let st = card_step(t);
    let n = card_count(t) as int;
    assert(0 * st == 0) by (nonlinear_arith);
    assert((k + 1) * st == k * st + st) by (nonlinear_arith);
    assert(0 <= k * st <= (n - 1) * st) by (nonlinear_arith)
        requires
            0 <= k <= n - 1,
            0 <= st,
    ;
    assert(n >= 2 ==> st <= (n - 1) * st) by (nonlinear_arith)
        requires
            0 <= st,
    ;
}

/// Law: a revealed line is read longer than any of its words takes: its last card
/// is up more than twice as long, as long as there is time at all.
pub proof fn law_the_whole_line_holds(t: TitleView)
    requires
        t.wf(),
        t.style.reveal,
        !t.style.karaoke,
        card_count(t) > 1,
        t.dur > 0,
    ensures
        card_dur(t, card_count(t) - 1) > 2 * card_step(t),
{
    let n = card_count(t) as int;
    let d = t.dur as int;
    let st = card_step(t);
    assert(st == d * 3 / (5 * n));
    assert(5 * n * st <= 3 * d) by (nonlinear_arith)
        requires
            st == d * 3 / (5 * n),
            n >= 2,
            d >= 0,
    ;
    assert(d - (n - 1) * st > 2 * st) by (nonlinear_arith)
        requires
            5 * n * st <= 3 * d,
            n >= 2,
            st >= 0,
            d > 0,
    ;
}

proof fn lemma_steps_fit(t: TitleView)
    requires
        t.wf(),
    ensures
        0 <= card_step(t),
        (card_count(t) - 1) * card_step(t) <= t.dur,
        card_step(t) <= t.dur,
{
    let n = card_count(t) as int;
    let d = t.dur as int;
    if n > 1 {
        let st = card_step(t);
        if t.style.karaoke {
            assert(0 <= st && n * st <= d) by (nonlinear_arith)
                requires
                    n >= 2,
                    d >= 0,
                    st == d / n,
            ;
        } else {
            assert(0 <= st && n * st <= d) by (nonlinear_arith)
                requires
                    n >= 2,
                    d >= 0,
                    st == d * 3 / (5 * n),
            ;
        }
        assert((n - 1) * st <= n * st && st <= n * st) by (nonlinear_arith)
            requires
                n >= 1,
                0 <= st,
        ;
    }
}

impl TitleItem {
    fn step_count(&self) -> (r: (usize, Time))
        requires
            self@.wf(),
        ensures
            r.0 == card_count(self@),
            r.1 == card_step(self@),
            r.0 >= 1,
            0 <= r.1 <= self.dur,
    {
        proof {
            lemma_steps_fit(self@);
            lemma_word_ends(self.text@, self.text@.len() as int);
        }
        let ends: Vec<usize> = ends_of_words(self.text.as_str());
        let n: usize = ends.len();
        if !(self.style.karaoke || self.style.reveal) || n <= 1 {
            return (1, 0);
        }
        let step: Time = if self.style.karaoke { self.dur / (n as Time) } else { self.dur * 3 / (5 * n as Time) };
        (n, step)
    }

    /// The run of cards the title is shown as.
    pub fn segments(&self) -> (r: Vec<Segment>)
        requires
            self@.wf(),
        ensures
            r@.len() == card_count(self@),
            forall|k: int| 0 <= k < r@.len() ==> is_segment(#[trigger] r@[k], self@, k),
    {
        let (n, step) = self.step_count();
        let parts: Vec<String> = word_prefixes(self.text.as_str());
        assert(parts@.len() == crate::text::texts(parts@).len());
        let mut r: Vec<Segment> = Vec::new();
        let mut k: usize = 0;
        while k < n
            invariant
                k <= n,
                n == card_count(self@),
                n >= 1,
                step == card_step(self@),
                self@.wf(),
                crate::text::texts(parts@) == prefixes(self.text@),
                parts@.len() == word_count(self.text@),
                r@.len() == k,
                forall|j: int| 0 <= j < k ==> is_segment(#[trigger] r@[j], self@, j),
            decreases n - k,
        {
            proof {
                law_cards_tile_the_title(self@, k as int);
                lemma_card_offsets(self@, k as int);
                assert(n > 1 ==> parts@[k as int]@ == crate::text::texts(parts@)[k as int]);
            }
            let gone: Time = k as Time * step;
            let dur: Time = if k == n - 1 { self.dur - gone } else { step };
            let text: String = if n > 1 && !self.style.karaoke { parts[k].clone() } else { self.text.clone() };
            let active: Option<usize> = if n > 1 && self.style.karaoke { Some(k) } else { None };
            r.push(Segment { text, at: self.at + gone, dur, active });
            k += 1;
        }
        r
    }

    /// The card that is up at `t`; none when the title is not.
    pub fn card_at(&self, t: Time) -> (r: Option<usize>)
        requires
            self@.wf(),
            on_axis(t),
        ensures
            match r {
                Some(k) => k < card_count(self@) && card_start(self@, k as int) <= t < card_start(self@, k as int)
                    + card_dur(self@, k as int),
                None => t < self.at || t >= self.at + self.dur,
            },
    {
        let (n, step) = self.step_count();
        let mut k: usize = 0;
        proof {
            law_cards_tile_the_title(self@, 0);
        }
        if t < self.at {
            return None;
        }
        while k < n
            invariant
                k <= n,
                n == card_count(self@),
                n >= 1,
                step == card_step(self@),
                self@.wf(),
                on_axis(t),
                k < n ==> t >= card_start(self@, k as int),
                k == n ==> t >= self.at + self.dur,
            decreases n - k,
        {
            proof {
                law_cards_tile_the_title(self@, k as int);
                lemma_card_offsets(self@, k as int);
            }
            let gone: Time = k as Time * step;
            let dur: Time = if k == n - 1 { self.dur - gone } else { step };
            if t < self.at + gone + dur {
                return Some(k);
            }
            k += 1;
        }
        None
    }
}

proof fn lemma_card_offsets(t: TitleView, k: int)
    requires
        t.wf(),
        0 <= k < card_count(t),
    ensures
        0 <= k * card_step(t) <= t.dur,
{
    lemma_steps_fit(t);
    let st = card_step(t);
    let n = card_count(t) as int;
    assert(0 <= k * st <= (n - 1) * st) by (nonlinear_arith)
        requires
            0 <= k <= n - 1,
            0 <= st,
    ;
}

/// The seats a card can have by name, in thousandths of the frame height.
pub open spec fn named_seat(name: Seq<char>) -> u32 {
    if name == "Top"@ {
        100
    } else if name == "Lower third"@ {
        720
    } else {
        450
    }
}

/// How near to a named seat a dragged card snaps to it.
pub const SEAT_SNAP: u32 = 25;

/// The named seat within reach of a height.
pub open spec fn near_seat(y: u32) -> Option<Seq<char>> {
    if near(y, 100) {
        Some("Top"@)
    } else if near(y, 450) {
        Some("Middle"@)
    } else if near(y, 720) {
        Some("Lower third"@)
    } else {
        None
    }
}

pub open spec fn near(y: u32, seat: u32) -> bool {
    y <= seat + SEAT_SNAP && seat <= y + SEAT_SNAP
}

/// The height of the named seat that is nearest to a height; of two as near, the
/// higher one.
pub open spec fn nearest_seat(y: int) -> int {
    if 2 * y <= 100 + 450 {
        100
    } else if 2 * y <= 450 + 720 {
        450
    } else {
        720
    }
}

pub(crate) fn seat_near(y: u32) -> (r: u32)
    requires
        y <= 1000,
    ensures
        r == nearest_seat(y as int),
{
    if 2 * y <= 550 {
        100
    } else if 2 * y <= 1170 {
        450
    } else {
        720
    }
}

/// What the inspector shows for where a card sits: the named seat within reach, or
/// that it is none of these.
pub open spec fn position_name(s: TitleStyle) -> Seq<char> {
    match near_seat(seat_of(s)) {
        Some(name) => name,
        None => "Custom"@,
    }
}

pub fn position_label(t: &TitleItem) -> (r: &'static str)
    ensures
        r@ == position_name(t.style),
{
    let y: u32 = seat_y(t);
    if by_seat(y, 100) {
        "Top"
    } else if by_seat(y, 450) {
        "Middle"
    } else if by_seat(y, 720) {
        "Lower third"
    } else {
        "Custom"
    }
}

fn by_seat(y: u32, seat: u32) -> (r: bool)
    requires
        seat <= 1000,
    ensures
        r == near(y, seat),
{
    y <= seat + SEAT_SNAP && (seat <= SEAT_SNAP || seat - SEAT_SNAP <= y)
}

/// Where a named seat is.
pub fn title_y(name: &str) -> (r: u32)
    ensures
        r == named_seat(name@),
{
    if same_text(name, "Top") {
        100
    } else if same_text(name, "Lower third") {
        720
    } else {
        450
    }
}

/// Where a card sits: at its free seat, or else at its named one.
pub open spec fn seat_of(style: TitleStyle) -> u32 {
    match style.y_frac {
        Some(y) => y,
        None => named_seat(style.pos@),
    }
}

/// Where a card sits.
pub fn seat_y(t: &TitleItem) -> (r: u32)
    ensures
        r == seat_of(t.style),
{
    match t.style.y_frac {
        Some(y) => y,
        None => title_y(t.style.pos.as_str()),
    }
}

/// Seat a card at a height. Near a named seat it takes that one and is no longer free.
pub fn set_seat_y(t: &mut TitleItem, y: u32)
    requires
        y <= 1000,
    ensures
        ({
            let s = final(t).style;
            &&& final(t)@ == (TitleView { style: s, ..old(t)@ })
            &&& seated_at(old(t).style, y, s)
        }),
{
    if y <= 125 && 100 <= y + 25 {
        t.style.pos = "Top".to_owned();
        t.style.y_frac = None;
    } else if y <= 475 && 450 <= y + 25 {
        t.style.pos = "Middle".to_owned();
        t.style.y_frac = None;
    } else if y <= 745 && 720 <= y + 25 {
        t.style.pos = "Lower third".to_owned();
        t.style.y_frac = None;
    } else {
        t.style.y_frac = Some(y);
    }
}

/// Seat a card by name.
pub fn set_seat_named(t: &mut TitleItem, name: &str)
    ensures
        ({
            let s = final(t).style;
            &&& final(t)@ == (TitleView { style: s, ..old(t)@ })
            &&& s.pos@ == name@
            &&& s == (TitleStyle { pos: s.pos, y_frac: None, ..old(t).style })
        }),
{
    t.style.pos = name.to_owned();
    t.style.y_frac = None;
}

/// Whether a card sits at a named seat.
pub fn seat_matches(t: &TitleItem, name: &str) -> (r: bool)
    ensures
        r == (t.style.y_frac is None && t.style.pos@ == name@),
{
    t.style.y_frac.is_none() && same_text(t.style.pos.as_str(), name)
}

/// A style seated at a height: at the named seat within reach, or free.
pub open spec fn seated_at(s: TitleStyle, y: u32, r: TitleStyle) -> bool {
    match near_seat(y) {
        Some(name) => r.pos@ == name && r == (TitleStyle { pos: r.pos, y_frac: None, ..s }),
        None => r == (TitleStyle { y_frac: Some(y), ..s }),
    }
}

/// Law: a card seated at a height sits there, or at the named seat within reach of it.
pub proof fn law_seat(s: TitleStyle, y: u32, r: TitleStyle)
    requires
        y <= 1000,
        seated_at(s, y, r),
    ensures
        near(y, seat_of(r)),
        near_seat(y) is None ==> seat_of(r) == y,
        near_seat(y) matches Some(name) ==> seat_of(r) == named_seat(name),
{
    reveal_strlit("Top");
    reveal_strlit("Middle");
    reveal_strlit("Lower third");
    assert("Top"@.len() == 3 && "Middle"@.len() == 6 && "Lower third"@.len() == 11);
}

/// The words of a text.
pub open spec fn words(s: Seq<char>) -> Seq<Seq<char>> {
    Seq::new(word_count(s), |k: int| word_at(s, word_ends(s, s.len() as int)[k]))
}

/// The word that ends at `e`.
pub open spec fn word_at(s: Seq<char>, e: int) -> Seq<char>
    decreases e,
{
    if e <= 0 || is_white(s[e - 1]) {
        Seq::empty()
    } else {
        word_at(s, e - 1).push(s[e - 1])
    }
}

/// A caption wrapped over lines, word by word: what is written so far and how long
/// the last line is.
pub open spec fn wrapped(ws: Seq<Seq<char>>, max: nat, k: int) -> (Seq<char>, nat)
    decreases k,
{
    if k <= 0 {
        (Seq::empty(), 0)
    } else {
        let (out, line) = wrapped(ws, max, k - 1);
        let w = ws[k - 1];
        if k == 1 {
            (w, w.len())
        } else if line + 1 + w.len() <= max {
            (out + " "@ + w, line + 1 + w.len())
        } else {
            (out + "\n"@ + w, w.len())
        }
    }
}

/// Law: no line of a wrapped caption is longer than the limit, unless it is a
/// single word that is. The line that the first `k` words end with is what was
/// written since the last break.
pub proof fn law_lines_fit(s: Seq<char>, max: nat, k: int)
    requires
        0 < k <= words(s).len(),
    ensures
        wrapped(words(s), max, k).1 <= max || wrapped(words(s), max, k).1 == words(s)[k - 1].len(),
        ({
            let (out, line) = wrapped(words(s), max, k);
            &&& line <= out.len()
            &&& line == out.len() || out[out.len() - line - 1] == '\n'
            &&& forall|i: int| out.len() - line <= i < out.len() ==> #[trigger] out[i] != '\n'
        }),
{
    let ws = words(s);
    assert forall|i: int| 0 <= i < ws.len() implies !(#[trigger] ws[i]).contains('\n') by {
        lemma_unbroken(s, word_ends(s, s.len() as int)[i]);
    }
    lemma_lines_fit(ws, max, k);
}

/// A word has no break in it.
proof fn lemma_unbroken(s: Seq<char>, e: int)
    ensures
        !word_at(s, e).contains('\n'),
    decreases e,
{
    if e > 0 && !is_white(s[e - 1]) {
        lemma_unbroken(s, e - 1);
        let w = word_at(s, e - 1);
        assert forall|i: int| 0 <= i < word_at(s, e).len() implies #[trigger] word_at(s, e)[i] != '\n' by {
            if i < w.len() {
                assert(w.contains(w[i]));
            }
        }
    }
}

proof fn lemma_lines_fit(ws: Seq<Seq<char>>, max: nat, k: int)
    requires
        0 < k <= ws.len(),
        forall|i: int| 0 <= i < ws.len() ==> !(#[trigger] ws[i]).contains('\n'),
    ensures
        wrapped(ws, max, k).1 <= max || wrapped(ws, max, k).1 == ws[k - 1].len(),
        ({
            let (out, line) = wrapped(ws, max, k);
            &&& line <= out.len()
            &&& line == out.len() || out[out.len() - line - 1] == '\n'
            &&& forall|i: int| out.len() - line <= i < out.len() ==> #[trigger] out[i] != '\n'
        }),
    decreases k,
{
    reveal_strlit(" ");
    reveal_strlit("\n");
    let w = ws[k - 1];
    assert forall|i: int| 0 <= i < w.len() implies #[trigger] w[i] != '\n' by {
        assert(w.contains(w[i]));
    }
    if k > 1 {
        lemma_lines_fit(ws, max, k - 1);
    }
}

proof fn lemma_word_at(s: Seq<char>, e: int)
    requires
        0 <= e <= s.len(),
    ensures
        word_at(s, e).len() <= e,
        word_at(s, e) == s.subrange(e - word_at(s, e).len(), e),
        e - word_at(s, e).len() == 0 || is_white(s[e - word_at(s, e).len() - 1]),
    decreases e,
{
    if e > 0 && !is_white(s[e - 1]) {
        lemma_word_at(s, e - 1);
        let w = word_at(s, e - 1);
        assert(word_at(s, e) =~= s.subrange(e - 1 - w.len(), e));
    } else {
        assert(word_at(s, e) =~= s.subrange(e, e));
    }
}

/// The word that ends at `e`.
fn take_word(s: &str, e: usize) -> (r: String)
    requires
        e <= s@.len(),
    ensures
        r@ == word_at(s@, e as int),
{
    proof {
        lemma_word_at(s@, e as int);
    }
    let mut a: usize = e;
    while a > 0 && !white(s.get_char(a - 1))
        invariant
            a <= e <= s@.len(),
            word_at(s@, e as int) == word_at(s@, a as int) + s@.subrange(a as int, e as int),
        decreases a,
    {
        assert(word_at(s@, a as int) == word_at(s@, a - 1).push(s@[a - 1]));
        assert(word_at(s@, a as int) + s@.subrange(a as int, e as int) =~= word_at(s@, a - 1) + s@.subrange(
            a - 1,
            e as int,
        ));
        a -= 1;
    }
    assert(word_at(s@, e as int) =~= s@.subrange(a as int, e as int));
    s.substring_char(a, e).to_owned()
}

/// Wrap a caption greedily, never inside a word.
pub fn wrap_caption(s: &str, max: usize) -> (r: String)
    ensures
        r@ == wrapped(words(s@), max as nat, words(s@).len() as int).0,
{
    let ends: Vec<usize> = ends_of_words(s);
    let mut out: String = String::new();
    let mut line: u128 = 0;
    let mut k: usize = 0;
    while k < ends.len()
        invariant
            k <= ends@.len(),
            ends@.len() == word_count(s@),
            forall|j: int| 0 <= j < ends@.len() ==> #[trigger] ends@[j] == word_ends(s@, s@.len() as int)[j],
            forall|j: int| 0 <= j < ends@.len() ==> 0 < #[trigger] ends@[j] <= s@.len(),
            out@ == wrapped(words(s@), max as nat, k as int).0,
            line == wrapped(words(s@), max as nat, k as int).1,
            line <= max + 0xffff_ffff_ffff_ffff,
        decreases ends@.len() - k,
    {
        assert(ends@[k as int] == word_ends(s@, s@.len() as int)[k as int]);
        let w: String = take_word(s, ends[k]);
        assert(w@ == words(s@)[k as int]);
        let n: u128 = w.as_str().unicode_len() as u128;
        if k == 0 {
            out = w;
            line = n;
        } else if line + 1 + n <= max as u128 {
            out.append(" ");
            out.append(w.as_str());
            line = line + 1 + n;
        } else {
            out.append("\n");
            out.append(w.as_str());
            line = n;
        }
        k += 1;
    }
    out
}

/// A stretch of speech: when it starts and ends, and what is said.
pub struct Cue {
    pub start: Time,
    pub end: Time,
    pub text: String,
}

impl Cue {
    pub open spec fn wf(&self) -> bool {
        on_axis(self.start) && on_axis(self.end)
    }
}

/// A stretch of speech as a value.
pub struct CueView {
    pub start: Time,
    pub end: Time,
    pub text: Seq<char>,
}

impl View for Cue {
    type V = CueView;

    open spec fn view(&self) -> CueView {
        CueView { start: self.start, end: self.end, text: self.text@ }
    }
}

/// Stretches as values.
pub open spec fn cues_of(s: Seq<Cue>) -> Seq<CueView> {
    Seq::new(s.len(), |k: int| s[k]@)
}

/// The first `k` words with a space between each two.
pub open spec fn spoken(ws: Seq<Seq<char>>, k: int) -> Seq<char>
    decreases k,
{
    if k <= 0 {
        Seq::empty()
    } else if k == 1 {
        ws[0]
    } else {
        spoken(ws, k - 1) + " "@ + ws[k - 1]
    }
}

/// Where in a stretch the first `j` of `n` words are over, every word taking as long.
pub open spec fn word_time(start: Time, end: Time, j: int, n: int) -> int {
    start + upper(end - start, 0) * j / n
}

/// How many pieces of at most `max` words `n` words make.
pub open spec fn chunk_count(n: int, max: int) -> int {
    (n + max - 1) / max
}

/// How many of `n` words the first `k` pieces hold.
pub open spec fn words_before(k: int, n: int, max: int) -> int {
    lower(k * max, n)
}

/// Piece `k` of a stretch cut up into pieces of at most `max` words.
pub open spec fn chunk(c: CueView, max: int, k: int) -> CueView {
    let ws = words(c.text);
    let from = words_before(k, ws.len() as int, max);
    let to = words_before(k + 1, ws.len() as int, max);
    CueView {
        start: word_time(c.start, c.end, from, ws.len() as int) as Time,
        end: word_time(c.start, c.end, to, ws.len() as int) as Time,
        text: spoken(ws.subrange(from, to), to - from),
    }
}

/// A stretch cut up into pieces of at most `max` words.
pub open spec fn chunks(c: CueView, max: int) -> Seq<CueView> {
    Seq::new(chunk_count(words(c.text).len() as int, max) as nat, |k: int| chunk(c, max, k))
}

/// The most words a caption has.
pub const CAPTION_WORDS: usize = 5;

/// The first `n` stretches, each cut up for captions.
pub open spec fn cut_up(cues: Seq<CueView>, n: int) -> Seq<CueView>
    decreases n,
{
    if n <= 0 { Seq::empty() } else { cut_up(cues, n - 1) + chunks(cues[n - 1], CAPTION_WORDS as int) }
}

/// The words of the first `k` of some stretches, one after the other.
pub open spec fn all_words(s: Seq<CueView>, k: int) -> Seq<Seq<char>>
    decreases k,
{
    if k <= 0 { Seq::empty() } else { all_words(s, k - 1) + words(s[k - 1].text) }
}

/// A text with one more word behind it has that word behind its own.
proof fn lemma_word_added(s: Seq<char>, w: Seq<char>)
    requires
        w.len() > 0,
        forall|i: int| 0 <= i < w.len() ==> !is_white(#[trigger] w[i]),
    ensures
        words(s + " "@ + w) == words(s).push(w),
{
    reveal_strlit(" ");
    let t = s + " "@ + w;
    let m = s.len() as int;
    assert(" "@ =~= seq![' ']);
    assert(t[m] == ' ');
    assert forall|i: int| 0 <= i < m implies t[i] == s[i] by {}
    assert forall|i: int| m < i < t.len() implies t[i] == w[i - m - 1] by {}
    lemma_ends_kept(s, t, m);
    lemma_ends_inside(t, m + 1, t.len() - 1);
    assert(word_ends(t, m + 1) == word_ends(t, m));
    assert(word_ends(t, t.len() as int) == word_ends(s, m).push(t.len() as int));
    lemma_word_ends(s, m);
    assert forall|k: int| 0 <= k < words(s).len() implies words(t)[k] == words(s)[k] by {
        lemma_word_kept(s, t, word_ends(s, m)[k]);
    }
    lemma_last_word(t, m + 1, t.len() as int);
    assert(t.subrange(m + 1, t.len() as int) =~= w);
    assert(words(t) =~= words(s).push(w));
}

/// What goes behind a blank changes no word before it.
proof fn lemma_ends_kept(s: Seq<char>, t: Seq<char>, n: int)
    requires
        0 <= n <= s.len() < t.len(),
        is_white(t[s.len() as int]),
        forall|i: int| 0 <= i < s.len() ==> t[i] == s[i],
    ensures
        word_ends(t, n) == word_ends(s, n),
    decreases n,
{
    if n > 0 {
        lemma_ends_kept(s, t, n - 1);
    }
}

/// Inside a word no word ends.
proof fn lemma_ends_inside(t: Seq<char>, a: int, n: int)
    requires
        0 <= a <= n < t.len(),
        forall|i: int| a <= i < t.len() ==> !is_white(#[trigger] t[i]),
    ensures
        word_ends(t, n) == word_ends(t, a),
    decreases n - a,
{
    if n > a {
        lemma_ends_inside(t, a, n - 1);
        assert(!is_white(t[n]));
    }
}

proof fn lemma_word_kept(s: Seq<char>, t: Seq<char>, e: int)
    requires
        0 <= e <= s.len() <= t.len(),
        forall|i: int| 0 <= i < s.len() ==> t[i] == s[i],
    ensures
        word_at(t, e) == word_at(s, e),
    decreases e,
{
    if e > 0 {
        lemma_word_kept(s, t, e - 1);
    }
}

proof fn lemma_last_word(t: Seq<char>, a: int, e: int)
    requires
        0 < a <= e <= t.len(),
        is_white(t[a - 1]),
        forall|i: int| a <= i < e ==> !is_white(#[trigger] t[i]),
    ensures
        word_at(t, e) == t.subrange(a, e),
    decreases e,
{
    if e > a {
        lemma_last_word(t, a, e - 1);
        assert(!is_white(t[e - 1]));
        assert(t.subrange(a, e) =~= t.subrange(a, e - 1).push(t[e - 1]));
    } else {
        assert(t.subrange(a, e) =~= Seq::<char>::empty());
    }
}

/// A word is not empty and has no blank in it.
pub open spec fn is_word(w: Seq<char>) -> bool {
    w.len() > 0 && forall|i: int| 0 <= i < w.len() ==> !is_white(#[trigger] w[i])
}

proof fn lemma_is_word(s: Seq<char>, k: int)
    requires
        0 <= k < words(s).len(),
    ensures
        is_word(words(s)[k]),
{
    lemma_word_ends(s, s.len() as int);
    lemma_end_is_black(s, s.len() as int, k);
    let e = word_ends(s, s.len() as int)[k];
    lemma_black(s, e);
}

proof fn lemma_end_is_black(s: Seq<char>, n: int, k: int)
    requires
        0 <= n <= s.len(),
        0 <= k < word_ends(s, n).len(),
    ensures
        0 < word_ends(s, n)[k] <= n,
        !is_white(s[word_ends(s, n)[k] - 1]),
    decreases n,
{
    if n > 0 && k < word_ends(s, n - 1).len() {
        lemma_end_is_black(s, n - 1, k);
    }
}

proof fn lemma_black(s: Seq<char>, e: int)
    ensures
        forall|i: int| 0 <= i < word_at(s, e).len() ==> !is_white(#[trigger] word_at(s, e)[i]),
        e > 0 && !is_white(s[e - 1]) ==> word_at(s, e).len() > 0,
    decreases e,
{
    if e > 0 && !is_white(s[e - 1]) {
        lemma_black(s, e - 1);
        let w = word_at(s, e - 1);
        assert forall|i: int| 0 <= i < word_at(s, e).len() implies !is_white(#[trigger] word_at(s, e)[i]) by {
            if i < w.len() {
                assert(!is_white(w[i]));
            }
        }
    }
}

/// Words put together and taken apart again are the same words.
proof fn lemma_spoken(ws: Seq<Seq<char>>, k: int)
    requires
        0 <= k <= ws.len(),
        forall|i: int| 0 <= i < ws.len() ==> is_word(#[trigger] ws[i]),
    ensures
        words(spoken(ws, k)) == ws.take(k),
    decreases k,
{
    if k == 0 {
        assert(words(Seq::<char>::empty()) =~= ws.take(0));
    } else if k == 1 {
        let w = ws[0];
        assert(is_word(w));
        lemma_ends_inside(w, 0, w.len() - 1);
        assert(word_ends(w, 0) =~= Seq::<int>::empty());
        assert(!is_white(w[w.len() - 1]));
        assert(word_ends(w, w.len() as int) =~= seq![w.len() as int]);
        lemma_only_word(w, w.len() as int);
        assert(w.take(w.len() as int) =~= w);
        assert(words(w) =~= ws.take(1));
    } else {
        lemma_spoken(ws, k - 1);
        assert(is_word(ws[k - 1]));
        lemma_word_added(spoken(ws, k - 1), ws[k - 1]);
        assert(ws.take(k - 1).push(ws[k - 1]) =~= ws.take(k));
    }
}

proof fn lemma_only_word(w: Seq<char>, e: int)
    requires
        0 <= e <= w.len(),
        forall|i: int| 0 <= i < w.len() ==> !is_white(#[trigger] w[i]),
    ensures
        word_at(w, e) == w.take(e),
    decreases e,
{
    if e > 0 {
        lemma_only_word(w, e - 1);
        assert(!is_white(w[e - 1]));
        assert(w.take(e) =~= w.take(e - 1).push(w[e - 1]));
    } else {
        assert(w.take(0) =~= Seq::<char>::empty());
    }
}

/// How the words are shared out among the pieces.
proof fn lemma_counts(n: int, max: int, k: int)
    requires
        n >= 0,
        max > 0,
        0 <= k < chunk_count(n, max),
    ensures
        0 <= words_before(k, n, max) < words_before(k + 1, n, max) <= n,
        words_before(k + 1, n, max) - words_before(k, n, max) <= max,
        k * max < n,
{
    assert(k * max < n && (k + 1) * max == k * max + max && k * max >= 0) by (nonlinear_arith)
        requires
            n >= 0,
            max > 0,
            0 <= k < (n + max - 1) / max,
    ;
}

/// All the pieces hold all the words.
proof fn lemma_last_count(n: int, max: int)
    requires
        n >= 0,
        max > 0,
    ensures
        words_before(chunk_count(n, max), n, max) == n,
        0 <= chunk_count(n, max) <= n,
{
    let c = chunk_count(n, max);
    assert(c * max >= n && 0 <= c <= n) by (nonlinear_arith)
        requires
            n >= 0,
            max > 0,
            c == (n + max - 1) / max,
    ;
}

proof fn lemma_word_time(start: Time, end: Time, j: int, n: int)
    requires
        0 <= j <= n,
        0 < n,
    ensures
        start <= word_time(start, end, j, n) <= start + upper(end - start, 0),
{
    let span = upper(end - start, 0);
    assert(0 <= span * j / n <= span) by (nonlinear_arith)
        requires
            0 <= span,
            0 <= j <= n,
            0 < n,
    ;
}

proof fn lemma_word_time_rises(start: Time, end: Time, i: int, j: int, n: int)
    requires
        0 <= i <= j,
        0 < n,
    ensures
        word_time(start, end, i, n) <= word_time(start, end, j, n),
{
    let span = upper(end - start, 0);
    assert(span * i / n <= span * j / n) by (nonlinear_arith)
        requires
            0 <= span,
            0 <= i <= j,
            0 < n,
    ;
}

/// Law: cutting a stretch up keeps its words in order, none of the pieces has more
/// words than the limit, and their spans follow one another inside the stretch.
pub proof fn law_chunks_keep_the_words(c: CueView, max: int)
    requires
        max > 0,
    ensures
        all_words(chunks(c, max), chunks(c, max).len() as int) == words(c.text),
        forall|k: int|
            0 <= k < chunks(c, max).len() ==> 0 < words((#[trigger] chunks(c, max)[k]).text).len() <= max,
        c.start <= c.end ==> forall|k: int|
            0 <= k < chunks(c, max).len() ==> c.start <= (#[trigger] chunks(c, max)[k]).start <= chunks(c, max)[k].end
                <= c.end,
        c.start <= c.end ==> forall|i: int, k: int|
            0 <= i < k < chunks(c, max).len() ==> (#[trigger] chunks(c, max)[i]).end <= (#[trigger] chunks(
                c,
                max,
            )[k]).start,
{
    let ws = words(c.text);
    let n = ws.len() as int;
    let all = chunks(c, max);
    lemma_last_count(n, max);
    lemma_chunk_words(c, max, all.len() as int);
    assert(ws.take(n) =~= ws);
    assert forall|k: int| 0 <= k < all.len() implies 0 < words((#[trigger] all[k]).text).len() <= max by {
        lemma_chunk(c, max, k);
        lemma_counts(n, max, k);
    }
    if c.start <= c.end {
        assert forall|k: int| 0 <= k < all.len() implies c.start <= (#[trigger] all[k]).start <= all[k].end <= c.end by {
            lemma_counts(n, max, k);
            let (from, to) = (words_before(k, n, max), words_before(k + 1, n, max));
            lemma_word_time(c.start, c.end, from, n);
            lemma_word_time(c.start, c.end, to, n);
            lemma_word_time_rises(c.start, c.end, from, to, n);
        }
        assert forall|i: int, k: int| 0 <= i < k < all.len() implies (#[trigger] all[i]).end <= (#[trigger] all[k]).start by {
            lemma_counts(n, max, i);
            lemma_counts(n, max, k);
            let (to, from) = (words_before(i + 1, n, max), words_before(k, n, max));
            assert((i + 1) * max <= k * max) by (nonlinear_arith)
                requires
                    i < k,
                    max > 0,
            ;
            lemma_word_time(c.start, c.end, to, n);
            lemma_word_time(c.start, c.end, from, n);
            lemma_word_time_rises(c.start, c.end, to, from, n);
        }
    }
}

/// The words of one piece.
proof fn lemma_chunk(c: CueView, max: int, k: int)
    requires
        max > 0,
        0 <= k < chunks(c, max).len(),
    ensures
        ({
            let ws = words(c.text);
            words(chunks(c, max)[k].text) == ws.subrange(
                words_before(k, ws.len() as int, max),
                words_before(k + 1, ws.len() as int, max),
            )
        }),
{
    let ws = words(c.text);
    let n = ws.len() as int;
    lemma_last_count(n, max);
    lemma_counts(n, max, k);
    let (from, to) = (words_before(k, n, max), words_before(k + 1, n, max));
    let part = ws.subrange(from, to);
    assert forall|i: int| 0 <= i < part.len() implies is_word(#[trigger] part[i]) by {
        lemma_is_word(c.text, from + i);
    }
    lemma_spoken(part, to - from);
    assert(part.take(to - from) =~= part);
}

proof fn lemma_chunk_words(c: CueView, max: int, k: int)
    requires
        max > 0,
        0 <= k <= chunks(c, max).len(),
    ensures
        all_words(chunks(c, max), k) == words(c.text).take(words_before(k, words(c.text).len() as int, max)),
    decreases k,
{
    let ws = words(c.text);
    let n = ws.len() as int;
    lemma_last_count(n, max);
    if k > 0 {
        lemma_chunk_words(c, max, k - 1);
        lemma_chunk(c, max, k - 1);
        lemma_counts(n, max, k - 1);
        let (from, to) = (words_before(k - 1, n, max), words_before(k, n, max));
        assert(ws.take(from) + ws.subrange(from, to) =~= ws.take(to));
    } else {
        assert(words_before(0, n, max) == 0) by (nonlinear_arith)
            requires
                n >= 0,
                words_before(0, n, max) == lower(0 * max, n),
                lower(0 * max, n) == if 0 * max <= n { 0 * max } else { n },
        ;
        assert(all_words(chunks(c, max), 0) =~= ws.take(0));
    }
}

/// Where in a stretch the first `j` of `n` words are over.
fn time_of_word(start: Time, end: Time, j: usize, n: usize) -> (r: Time)
    requires
        on_axis(start),
        on_axis(end),
        j <= n,
        0 < n,
    ensures
        r == word_time(start, end, j as int, n as int),
        on_axis(r),
{
    proof {
        lemma_word_time(start, end, j as int, n as int);
    }
    let span: u128 = greater(end - start, 0) as u128;
    let m: u128 = n as u128;
    let q: u128 = span / m;
    let rest: u128 = span % m;
    proof {
        lemma_share(span as int, j as int, n as int);
        assert(rest * j <= 0xffff_ffff_ffff_ffff * 0xffff_ffff_ffff_ffff) by (nonlinear_arith)
            requires
                0 <= rest <= 0xffff_ffff_ffff_ffff,
                0 <= j <= 0xffff_ffff_ffff_ffff,
        ;
    }
    let whole: u128 = q * j as u128;
    let part: u128 = rest * j as u128 / m;
    start + (whole + part) as Time
}

proof fn lemma_share(span: int, j: int, n: int)
    requires
        0 <= span,
        0 <= j <= n,
        0 < n,
    ensures
        span * j / n == (span / n) * j + (span % n) * j / n,
        0 <= (span / n) * j <= span,
        0 <= (span % n) * j / n,
{
    let q = span / n;
    let r = span % n;
    vstd::arithmetic::div_mod::lemma_fundamental_div_mod(span, n);
    assert(span * j == r * j + (q * j) * n) by (nonlinear_arith)
        requires
            span == n * q + r,
    ;
    vstd::arithmetic::div_mod::lemma_hoist_over_denominator(r * j, q * j, n as nat);
    assert(0 <= q * j <= span && 0 <= r * j / n) by (nonlinear_arith)
        requires
            span == n * q + r,
            0 <= r,
            0 <= q,
            0 <= j <= n,
            0 < n,
    ;
}

/// Cut a stretch of speech up into pieces of at most `max` words.
pub fn chunk_caption(start: Time, end: Time, text: &str, max: usize) -> (r: Vec<Cue>)
    requires
        on_axis(start),
        on_axis(end),
        max > 0,
    ensures
        cues_of(r@) == chunks((CueView { start, end, text: text@ }), max as int),
        forall|k: int| 0 <= k < r@.len() ==> (#[trigger] r@[k]).wf(),
{
    let ghost c = CueView { start, end, text: text@ };
    let ghost ws = words(text@);
    let ends: Vec<usize> = ends_of_words(text);
    let n: usize = ends.len();
    let mut r: Vec<Cue> = Vec::new();
    let mut from: usize = 0;
    proof {
        lemma_last_count(n as int, max as int);
        assert(0 * max == 0) by (nonlinear_arith);
    }
    while from < n
        invariant
            from <= n,
            n == ends@.len(),
            n == ws.len(),
            max > 0,
            on_axis(start),
            on_axis(end),
            c == (CueView { start, end, text: text@ }),
            ws == words(text@),
            forall|j: int| 0 <= j < ends@.len() ==> #[trigger] ends@[j] == word_ends(text@, text@.len() as int)[j],
            forall|j: int| 0 <= j < ends@.len() ==> 0 < #[trigger] ends@[j] <= text@.len(),
            r@.len() <= chunk_count(n as int, max as int) <= n,
            from == words_before(r@.len() as int, n as int, max as int),
            from == n ==> r@.len() == chunk_count(n as int, max as int),
            from < n ==> from == r@.len() * max,
            forall|k: int| 0 <= k < r@.len() ==> (#[trigger] r@[k])@ == chunk(c, max as int, k) && r@[k].wf(),
        decreases n - from,
    {
        let ghost k = r@.len() as int;
        let to: usize = if max < n - from { from + max } else { n };
        proof {
            lemma_chunk_step(n as int, max as int, k, from as int, to as int);
        }
        let words_said: String = say(text, &ends, from, to);
        let cue: Cue = Cue {
            start: time_of_word(start, end, from, n),
            end: time_of_word(start, end, to, n),
            text: words_said,
        };
        assert(cue@ == chunk(c, max as int, k));
        r.push(cue);
        from = to;
    }
    assert(cues_of(r@) =~= chunks(c, max as int));
    r
}

proof fn lemma_chunk_step(n: int, max: int, k: int, from: int, to: int)
    requires
        max > 0,
        0 <= k,
        from == k * max,
        from < n,
        to == lower(from + max, n),
    ensures
        k < chunk_count(n, max),
        words_before(k, n, max) == from,
        words_before(k + 1, n, max) == to,
        to < n ==> to == (k + 1) * max,
        to == n ==> k + 1 == chunk_count(n, max),
{
    assert((k + 1) * max == k * max + max) by (nonlinear_arith);
    assert(k < (n + max - 1) / max) by (nonlinear_arith)
        requires
            max > 0,
            k * max < n,
    ;
    if to == n {
        assert((n + max - 1) / max <= k + 1) by (nonlinear_arith)
            requires
                max > 0,
                n <= (k + 1) * max,
        ;
    }
}

/// The words from place `from` up to `to`, with a space between each two.
fn say(text: &str, ends: &Vec<usize>, from: usize, to: usize) -> (r: String)
    requires
        from <= to <= ends@.len(),
        ends@.len() == words(text@).len(),
        forall|j: int| 0 <= j < ends@.len() ==> #[trigger] ends@[j] == word_ends(text@, text@.len() as int)[j],
        forall|j: int| 0 <= j < ends@.len() ==> 0 < #[trigger] ends@[j] <= text@.len(),
    ensures
        r@ == spoken(words(text@).subrange(from as int, to as int), to - from),
{
    let ghost part = words(text@).subrange(from as int, to as int);
    let mut out: String = String::new();
    let mut k: usize = from;
    while k < to
        invariant
            from <= k <= to <= ends@.len(),
            ends@.len() == words(text@).len(),
            forall|j: int| 0 <= j < ends@.len() ==> #[trigger] ends@[j] == word_ends(text@, text@.len() as int)[j],
            forall|j: int| 0 <= j < ends@.len() ==> 0 < #[trigger] ends@[j] <= text@.len(),
            part == words(text@).subrange(from as int, to as int),
            out@ == spoken(part, k - from),
        decreases to - k,
    {
        assert(ends@[k as int] == word_ends(text@, text@.len() as int)[k as int]);
        let w: String = take_word(text, ends[k]);
        assert(w@ == part[k - from]);
        if k == from {
            out = w;
        } else {
            out.append(" ");
            out.append(w.as_str());
        }
        k += 1;
    }
    out
}

/// Cut stretches of speech up for captions.
fn cut_cues(cues: &Vec<Cue>) -> (r: Vec<Cue>)
    requires
        forall|i: int| 0 <= i < cues@.len() ==> (#[trigger] cues@[i]).wf(),
    ensures
        cues_of(r@) == cut_up(cues_of(cues@), cues@.len() as int),
        forall|i: int| 0 <= i < r@.len() ==> (#[trigger] r@[i]).wf(),
{
    let mut r: Vec<Cue> = Vec::new();
    let mut i: usize = 0;
    assert(cues_of(r@) =~= cut_up(cues_of(cues@), 0));
    while i < cues.len()
        invariant
            i <= cues@.len(),
            forall|k: int| 0 <= k < cues@.len() ==> (#[trigger] cues@[k]).wf(),
            cues_of(r@) == cut_up(cues_of(cues@), i as int),
            forall|k: int| 0 <= k < r@.len() ==> (#[trigger] r@[k]).wf(),
        decreases cues@.len() - i,
    {
        assert(cues@[i as int].wf());
        let c: &Cue = &cues[i];
        let mut parts: Vec<Cue> = chunk_caption(c.start, c.end, c.text.as_str(), CAPTION_WORDS);
        let ghost was = r@;
        let ghost more = parts@;
        r.append(&mut parts);
        assert(r@ == was + more);
        assert(cues_of(r@) =~= cues_of(was) + cues_of(more));
        assert(cues_of(cues@)[i as int] == c@);
        i += 1;
    }
    r
}

/// How long caption `k` is up: half a second at least, and over a hair before the
/// next one starts.
pub open spec fn cue_dur(cues: Seq<CueView>, k: int) -> int {
    let own = upper(cues[k].end - cues[k].start, 1_500_000);
    if k + 1 < cues.len() {
        lower(own, upper(cues[k + 1].start - cues[k].start - 150_000, 900_000))
    } else {
        own
    }
}

/// The card of caption `k`.
pub open spec fn is_caption(t: TitleView, cues: Seq<CueView>, k: int, base: TitleView) -> bool {
    &&& t.text@ == wrapped(words(cues[k].text), 26, words(cues[k].text).len() as int).0
    &&& t.style.pos@ == "Lower third"@
    &&& t == (TitleView {
        text: t.text,
        at: cues[k].start,
        dur: cue_dur(cues, k) as Time,
        style: TitleStyle {
            font_size: 64,
            pos: t.style.pos,
            boxed: true,
            box_opacity: 850,
            outline: 0,
            ..base.style
        },
        caption: true,
        ..base
    })
}

/// The lane with a card for each of the first `n` cues behind it.
pub open spec fn is_captioned(was: Seq<TitleView>, cues: Seq<CueView>, n: int, base: TitleView, now: Seq<TitleView>) -> bool {
    &&& now.len() == was.len() + n
    &&& forall|i: int| 0 <= i < was.len() ==> now[i] == was[i]
    &&& forall|k: int| 0 <= k < n ==> is_caption(#[trigger] now[was.len() + k], cues, k, base)
}

/// The cards that are no captions.
pub open spec fn uncaptioned(s: Seq<TitleView>, n: int) -> Seq<TitleView>
    decreases n,
{
    if n <= 0 {
        Seq::empty()
    } else if s[n - 1].caption {
        uncaptioned(s, n - 1)
    } else {
        uncaptioned(s, n - 1).push(s[n - 1])
    }
}

impl EditorView {
    /// After captions came in as the lane `titles`.
    pub open spec fn captioned(self, titles: Seq<TitleView>, n: nat) -> EditorView {
        EditorView { reel: Reel { titles, ..self.reel }, ..self.pushed(""@) }.sought(self.playhead as int).says(
            digits(n) + " caption(s) on the T lane — check the wording in the inspector before export."@,
        )
    }

    /// After the captions were taken off; other cards stay.
    pub open spec fn captions_cleared(self) -> EditorView {
        let kept = uncaptioned(self.reel.titles, self.reel.titles.len() as int);
        let n = self.reel.titles.len() - kept.len();
        if n == 0 {
            self
        } else {
            EditorView {
                reel: Reel { titles: kept, ..self.reel },
                marked: Seq::empty(),
                selected: match self.selected {
                    Some(Sel::Title(_)) => None,
                    s => s,
                },
                ..self.pushed(""@)
            }.sought(self.playhead as int).says(
                "Removed "@ + digits(n as nat) + " caption(s) — manual text kept."@,
            )
        }
    }
}

/// Law: clearing captions leaves none, keeps every other card and their order.
pub proof fn law_only_captions_go(s: Seq<TitleView>, n: int)
    requires
        0 <= n <= s.len(),
    ensures
        uncaptioned(s, n) == s.take(n).filter(|t: TitleView| !t.caption),
    decreases n,
{
    reveal(Seq::filter);
    if n > 0 {
        law_only_captions_go(s, n - 1);
        assert(s.take(n).drop_last() =~= s.take(n - 1));
        assert(s.take(n).last() == s[n - 1]);
    }
}

proof fn lemma_uncaptioned_ok(s: Seq<TitleView>, n: int)
    requires
        titles_ok(s),
        0 <= n <= s.len(),
    ensures
        titles_ok(uncaptioned(s, n)),
    decreases n,
{
    reveal(titles_ok);
    if n > 0 {
        lemma_uncaptioned_ok(s, n - 1);
    }
}

impl TitleItem {
    fn as_caption(&self, text: String, at: Time, dur: Time) -> (r: TitleItem)
        ensures
            r@.style.pos@ == "Lower third"@,
            r@ == (TitleView {
                text,
                at,
                dur,
                style: TitleStyle {
                    font_size: 64,
                    pos: r@.style.pos,
                    boxed: true,
                    box_opacity: 850,
                    outline: 0,
                    ..self.style
                },
                caption: true,
                ..self@
            }),
    {
        let mut t: TitleItem = self.clone();
        let mut s: TitleStyle = self.style.clone();
        s.font_size = 64;
        s.pos = "Lower third".to_owned();
        s.boxed = true;
        s.box_opacity = 850;
        s.outline = 0;
        t.style = s;
        t.text = text;
        t.at = at;
        t.dur = dur;
        t.caption = true;
        t
    }
}

/// How long caption `k` is up.
fn cue_length(cues: &Vec<Cue>, k: usize) -> (r: Time)
    requires
        k < cues@.len(),
        forall|i: int| 0 <= i < cues@.len() ==> (#[trigger] cues@[i]).wf(),
    ensures
        r == cue_dur(cues_of(cues@), k as int),
        on_axis(r),
{
    assert(cues@[k as int].wf());
    let own: Time = greater(cues[k].end - cues[k].start, 1_500_000);
    let n: usize = cues.len();
    if k < n - 1 {
        assert(cues@[k + 1].wf());
        lesser(own, greater(cues[k + 1].start - cues[k].start - 150_000, 900_000))
    } else {
        own
    }
}

impl Editor {
    /// Speech was found: it becomes short captions.
    pub fn land_captions(&mut self, cues: &Vec<Cue>, base: &TitleItem)
        requires
            old(self)@.wf(),
            base@.wf(),
            forall|i: int| 0 <= i < cues@.len() ==> (#[trigger] cues@[i]).wf(),
        ensures
            final(self)@.wf(),
            lands_captions(old(self)@, cues_of(cues@), base@, final(self)@),
    {
        let ghost was = self@;
        if cues.len() == 0 {
            self.status = "No speech found to caption.".to_owned();
            return;
        }
        let short: Vec<Cue> = cut_cues(cues);
        let ghost said = cues_of(short@);
        self.push_undo("");
        let ghost e = self@;
        let mut k: usize = 0;
        while k < short.len()
            invariant
                k <= short@.len(),
                said == cues_of(short@),
                base@.wf(),
                forall|i: int| 0 <= i < short@.len() ==> (#[trigger] short@[i]).wf(),
                was.reel.titles == e.reel.titles,
                self@ == (EditorView { reel: Reel { titles: self@.reel.titles, ..e.reel }, ..e }),
                titles_ok(self@.reel.titles),
                is_captioned(was.reel.titles, said, k as int, base@, self@.reel.titles),
            decreases short@.len() - k,
        {
            let ghost before = self@.reel.titles;
            assert(short@[k as int].wf());
            assert(said[k as int] == short@[k as int]@);
            let text: String = wrap_caption(short[k].text.as_str(), 26);
            let t: TitleItem = base.as_caption(text, short[k].start, cue_length(&short, k));
            proof {
                crate::model::lemma_titles_ok(before, 0, t@);
            }
            self.reel.titles.push(t);
            assert(self@.reel.titles =~= before.push(t@));
            assert(is_caption(t@, said, k as int, base@));
            assert forall|j: int| 0 <= j < k + 1 implies is_caption(
                #[trigger] self@.reel.titles[was.reel.titles.len() + j],
                said,
                j,
                base@,
            ) by {
                if j < k {
                    assert(is_caption(before[was.reel.titles.len() + j], said, j, base@));
                }
            }
            k += 1;
        }
        let ghost titles = self@.reel.titles;
        let t: Time = self.playhead;
        self.seek_to(t);
        self.status = cat2(
            decimal(short.len() as u128).as_str(),
            " caption(s) on the T lane — check the wording in the inspector before export.",
        );
        assert(is_captioned(was.reel.titles, said, said.len() as int, base@, titles));
        assert(self@ == was.captioned(titles, said.len()));
    }

    /// Take every caption off.
    pub fn clear_captions(&mut self)
        requires
            old(self)@.wf(),
        ensures
            final(self)@ == old(self)@.captions_cleared(),
            final(self)@.wf(),
    {
        let ghost was = self@;
        let all: usize = self.reel.titles.len();
        let mut kept: Vec<TitleItem> = Vec::new();
        let mut i: usize = 0;
        assert(cards(kept@) =~= uncaptioned(was.reel.titles, 0));
        while i < all
            invariant
                i <= all,
                all == self.reel.titles@.len(),
                was == self@,
                cards(kept@) == uncaptioned(was.reel.titles, i as int),
            decreases all - i,
        {
            let ghost before = cards(kept@);
            if !self.reel.titles[i].caption {
                let t: TitleItem = self.reel.titles[i].clone();
                kept.push(t);
                assert(cards(kept@) =~= before.push(was.reel.titles[i as int]));
            }
            i += 1;
        }
        proof {
            law_only_captions_go(was.reel.titles, all as int);
            lemma_uncaptioned_ok(was.reel.titles, all as int);
            assert(kept@.len() == cards(kept@).len());
        }
        let n: usize = all - kept.len();
        if n == 0 {
            return;
        }
        self.push_undo("");
        self.marked.clear();
        if let Some(Sel::Title(_)) = self.selected {
            self.selected = None;
        }
        self.reel.titles = kept;
        let t: Time = self.playhead;
        self.seek_to(t);
        self.status = cat3("Removed ", decimal(n as u128).as_str(), " caption(s) — manual text kept.");
    }

    /// A dragged card came to rest: it has to be rendered again.
    pub fn end_title_drag(&mut self, k: usize)
        requires
            old(self)@.wf(),
        ensures
            final(self)@ == if k < old(self)@.reel.titles.len() {
                old(self)@.put_title(
                    k as int,
                    TitleView { pngs: Seq::empty(), ..old(self)@.reel.titles[k as int] },
                )
            } else {
                old(self)@
            },
            final(self)@.wf(),
    {
        if k >= self.reel.titles.len() {
            return;
        }
        proof {
            crate::model::lemma_titles_ok_at(self@.reel.titles, k as int);
        }
        let mut t: TitleItem = self.reel.titles[k].clone();
        t.pngs = Vec::new();
        self.set_title(k, t);
    }
}

/// Law: a title shown a word at a time has a card for each word; the words come in over
/// the first three fifths of its time, evenly, and the whole line holds for the rest.
/// A highlighted title gives each word the same time. Any other title is one card.
pub proof fn law_word_cards(t: TitleView, k: int)
    requires
        t.wf(),
        0 <= k < card_count(t),
    ensures
        ({
            let n = word_count(t.text@) as int;
            let shown = (t.style.karaoke || t.style.reveal) && n > 1;
            let step = card_step(t);
            &&& shown ==> card_count(t) == n
            &&& !shown ==> card_count(t) == 1 && card_start(t, 0) == t.at && card_dur(t, 0) == t.dur && card_text(t, 0)
                == t.text@
            &&& shown ==> card_start(t, k) - t.at == k * step
            &&& shown && t.style.karaoke ==> n * step <= t.dur < n * step + n && card_text(t, k) == t.text@
            &&& shown && !t.style.karaoke ==> 5 * n * step <= 3 * t.dur < 5 * n * step + 5 * n
            &&& shown && k + 1 < n ==> card_dur(t, k) == step
            &&& shown && k + 1 == n ==> card_start(t, k) + card_dur(t, k) == t.at + t.dur
        }),
{
    let n = word_count(t.text@) as int;
    if n > 1 {
        let d = t.dur as int;
        let q = d / n;
        assert(n * q <= d < n * q + n) by (nonlinear_arith)
            requires
                q == d / n,
                n > 1,
        ;
        let m = 5 * n;
        let p = d * 3 / m;
        assert(m * p <= d * 3 < m * p + m) by (nonlinear_arith)
            requires
                p == d * 3 / m,
                m > 1,
        ;
    }
    assert(0 * card_step(t) == 0) by (nonlinear_arith);
}

/// Law: a card of a title shown a word at a time holds the line up to the end of its
/// word: each is a longer beginning of the text than the one before, ending with a
/// letter and right before white space or the end.
pub proof fn law_prefixes_grow(s: Seq<char>, n: int)
    requires
        0 <= n <= s.len(),
    ensures
        ({
            let w = word_ends(s, n);
            &&& forall|k: int|
                0 <= k < w.len() ==> 0 < (#[trigger] w[k]) <= n && !is_white(s[w[k] - 1]) && (w[k] == s.len() || is_white(
                    s[w[k]],
                ))
            &&& forall|j: int, k: int| 0 <= j < k < w.len() ==> (#[trigger] w[j]) < (#[trigger] w[k])
            &&& forall|i: int|
                0 < i <= n && !is_white(#[trigger] s[i - 1]) && (i == s.len() || is_white(s[i])) ==> w.contains(i)
        }),
    decreases n,
{
    if n > 0 {
        law_prefixes_grow(s, n - 1);
        let p = word_ends(s, n - 1);
        let w = word_ends(s, n);
        assert forall|i: int| 0 < i <= n && !is_white(#[trigger] s[i - 1]) && (i == s.len() || is_white(s[i])) implies w.contains(
            i,
        ) by {
            if i < n {
                assert(p.contains(i));
                let k = choose|k: int| 0 <= k < p.len() && p[k] == i;
                assert(w[k] == i);
            } else {
                assert(w[p.len() as int] == n);
            }
        }
    }
}

/// Law: the seats by name, from the top: a tenth, under half, and seventy-two hundredths
/// of the way down; a drag held to the seats goes to the nearest.
pub proof fn law_seats(y: int)
    requires
        0 <= y <= 1000,
    ensures
        named_seat("Top"@) == 100,
        named_seat("Lower third"@) == 720,
        named_seat("Middle"@) == 450,
        ({
            let s = nearest_seat(y);
            let far = |a: int| if a >= y { a - y } else { y - a };
            &&& s == 100 || s == 450 || s == 720
            &&& far(s) <= far(100) && far(s) <= far(450) && far(s) <= far(720)
        }),
        y == 100 ==> near_seat(y as u32) == Some("Top"@),
        y == 450 ==> near_seat(y as u32) == Some("Middle"@),
        y == 720 ==> near_seat(y as u32) == Some("Lower third"@),
{
    reveal_strlit("Top");
    reveal_strlit("Lower third");
    reveal_strlit("Middle");
    assert("Middle"@.len() == 6 && "Top"@.len() == 3 && "Lower third"@.len() == 11);
}

/// Law: the pieces of a cue follow each other without a gap and take up its whole time:
/// the first starts and the last ends with it, and a piece is up for its share of the
/// words.
pub proof fn law_pieces_fill_the_cue(c: CueView, max: int, k: int)
    requires
        max > 0,
        c.start <= c.end,
        on_axis(c.start),
        on_axis(c.end),
        0 <= k < chunks(c, max).len(),
    ensures
        chunks(c, max)[0].start == c.start,
        chunks(c, max).last().end == c.end,
        k + 1 < chunks(c, max).len() ==> chunks(c, max)[k].end == chunks(c, max)[k + 1].start,
        ({
            let n = words(c.text).len() as int;
            let len = c.end - c.start;
            let p = chunks(c, max)[k];
            k + 1 < chunks(c, max).len() ==> n * (p.end - c.start) <= len * ((k + 1) * max) < n * (p.end - c.start) + n
        }),
{
    let n = words(c.text).len() as int;
    let m = chunk_count(n, max);
    let len = c.end - c.start;
    assert(n + max - 1 >= 0);
    assert(m * max <= n + max - 1 < m * max + max) by (nonlinear_arith)
        requires
            m == (n + max - 1) / max,
            max > 0,
    ;
    assert(m >= 1);
    assert(n > 0) by (nonlinear_arith)
        requires
            m >= 1,
            m * max <= n + max - 1,
            max > 0,
    ;
    assert(m * max >= n);
    assert((m - 1) * max < n) by (nonlinear_arith)
        requires
            m * max <= n + max - 1,
    ;
    assert(0 * max == 0) by (nonlinear_arith);
    lemma_share_of_cue(c, 0, n);
    lemma_share_of_cue(c, n, n);
    let from = words_before(k, n, max);
    let to = words_before(k + 1, n, max);
    assert(0 <= from <= n && 0 <= to <= n) by (nonlinear_arith)
        requires
            from == if k * max <= n { k * max } else { n },
            to == if (k + 1) * max <= n { (k + 1) * max } else { n },
            k >= 0,
            max > 0,
            n > 0,
    ;
    lemma_share_of_cue(c, from, n);
    lemma_share_of_cue(c, to, n);
    if k + 1 < m {
        assert((k + 1) * max <= (m - 1) * max) by (nonlinear_arith)
            requires
                k + 1 <= m - 1,
                max > 0,
        ;
        assert(to == (k + 1) * max);
        let p = len * to;
        let q = p / n;
        assert(n * q <= p < n * q + n) by (nonlinear_arith)
            requires
                q == p / n,
                n > 0,
        ;
    }
}

proof fn lemma_share_of_cue(c: CueView, j: int, n: int)
    requires
        c.start <= c.end,
        0 <= j <= n,
        n > 0,
    ensures
        c.start <= word_time(c.start, c.end, j, n) <= c.end,
        j == 0 ==> word_time(c.start, c.end, j, n) == c.start,
        j == n ==> word_time(c.start, c.end, j, n) == c.end,
{
    let len = c.end - c.start;
    assert(0 <= len * j <= len * n) by (nonlinear_arith)
        requires
            0 <= len,
            0 <= j <= n,
    ;
    let q = len * j / n;
    assert(0 <= q <= len) by (nonlinear_arith)
        requires
            q == len * j / n,
            0 <= len * j <= len * n,
            n > 0,
    ;
    if j == 0 {
        assert(len * 0 / n == 0) by (nonlinear_arith)
            requires
                n > 0,
        ;
    }
    if j == n {
        assert(len * n / n == len) by (nonlinear_arith)
            requires
                n > 0,
        ;
    }
}

/// Law: a caption comes up with its cue, in the lower third, and holds for the cue or
/// half a second; it is gone before the next one comes up, where that leaves it three
/// tenths of a second.
pub proof fn law_captions_take_turns(was: Seq<TitleView>, cues: Seq<CueView>, base: TitleView, now: Seq<TitleView>, k: int)
    requires
        is_captioned(was, cues, cues.len() as int, base, now),
        0 <= k < cues.len(),
        forall|i: int| 0 <= i < cues.len() ==> on_axis((#[trigger] cues[i]).start) && on_axis(cues[i].end),
    ensures
        ({
            let t = now[was.len() + k];
            let own = cues[k].end - cues[k].start;
            &&& now.len() == was.len() + cues.len()
            &&& forall|i: int| 0 <= i < was.len() ==> now[i] == was[i]
            &&& t.caption && t.at == cues[k].start && t.style.pos@ == "Lower third"@ && t.style.boxed
            &&& t.style.font_size == 64 && t.style.outline == 0 && t.style.box_opacity == 850
            &&& t.text@ == wrapped(words(cues[k].text), 26, words(cues[k].text).len() as int).0
            &&& t.style.color == base.style.color && t.style.font == base.style.font && t.track == base.track
            &&& 10 * t.dur >= 3 * crate::time::SECOND
            &&& k + 1 == cues.len() && 2 * own >= crate::time::SECOND ==> t.dur == own
            &&& k + 1 == cues.len() && 2 * own < crate::time::SECOND ==> 2 * t.dur == crate::time::SECOND
            &&& k + 1 < cues.len() && 20 * (cues[k + 1].start - cues[k].start) >= 7 * crate::time::SECOND ==> 20 * (
            cues[k + 1].start - (t.at + t.dur)) >= crate::time::SECOND
            &&& k + 1 < cues.len() && 2 * own >= crate::time::SECOND && 20 * (cues[k + 1].start - cues[k].end)
                >= crate::time::SECOND ==> t.dur == own
        }),
{
    assert(is_caption(now[was.len() + k], cues, k, base));
    assert(on_axis(cues[k].start));
    if k + 1 < cues.len() {
        assert(on_axis(cues[k + 1].start));
    }
}

/// Law: every cue is captioned: the pieces of the first cues come first, in order, at
/// most five words each.
pub proof fn law_every_cue_is_cut_up(cues: Seq<CueView>, n: int)
    requires
        0 <= n < cues.len(),
    ensures
        cut_up(cues, 0).len() == 0,
        cut_up(cues, n + 1).len() == cut_up(cues, n).len() + chunks(cues[n], 5).len(),
        forall|i: int| 0 <= i < cut_up(cues, n).len() ==> cut_up(cues, n + 1)[i] == #[trigger] cut_up(cues, n)[i],
        forall|i: int|
            0 <= i < chunks(cues[n], 5).len() ==> cut_up(cues, n + 1)[cut_up(cues, n).len() + i] == #[trigger] chunks(
                cues[n],
                5,
            )[i],
{
}

/// Law: landing captions and clearing them touch the titles alone; clearing takes the
/// captions and only them.
pub proof fn law_caption_edits(e: EditorView, titles: Seq<TitleView>, n: nat)
    ensures
        ({
            let f = e.captioned(titles, n);
            &&& one_edit(e, f)
            &&& f.reel == (Reel { titles, ..e.reel })
        }),
        ({
            let f = e.captions_cleared();
            &&& f.reel == (Reel { titles: f.reel.titles, ..e.reel })
            &&& forall|i: int| 0 <= i < f.reel.titles.len() ==> !(#[trigger] f.reel.titles[i]).caption || f == e
            &&& (forall|i: int| 0 <= i < e.reel.titles.len() ==> !(#[trigger] e.reel.titles[i]).caption) ==> f == e
            &&& (exists|i: int| 0 <= i < e.reel.titles.len() && (#[trigger] e.reel.titles[i]).caption) ==> one_edit(e, f)
                && f.reel.titles.len() < e.reel.titles.len()
        }),
{
    reveal_strlit("");
    crate::editor::lemma_pushed_alone(e, ""@);
    lemma_uncaptioned(e.reel.titles, e.reel.titles.len() as int);
}

proof fn lemma_uncaptioned(s: Seq<TitleView>, n: int)
    requires
        0 <= n <= s.len(),
    ensures
        ({
            let q = uncaptioned(s, n);
            &&& q.len() <= n
            &&& forall|i: int| 0 <= i < q.len() ==> !(#[trigger] q[i]).caption
            &&& (exists|i: int| 0 <= i < n && (#[trigger] s[i]).caption) ==> q.len() < n
            &&& (forall|i: int| 0 <= i < n ==> !(#[trigger] s[i]).caption) ==> q.len() == n
        }),
    decreases n,
{
    if n > 0 {
        lemma_uncaptioned(s, n - 1);
    }
}

/// The cues of a transcript became captions.
pub open spec fn lands_captions(e: EditorView, cues: Seq<CueView>, base: TitleView, f: EditorView) -> bool {
    let short = cut_up(cues, cues.len() as int);
    if cues.len() == 0 {
        f == e.says("No speech found to caption."@)
    } else {
        exists|titles: Seq<TitleView>| #[trigger]
            is_captioned(e.reel.titles, short, short.len() as int, base, titles) && f == e.captioned(titles, short.len())
    }
}

/// Law: a transcript adds its captions behind the titles that are there, and changes
/// nothing else; an empty one changes nothing at all. No caption has more than five
/// words.
pub proof fn law_transcript_lands(e: EditorView, cues: Seq<CueView>, base: TitleView, f: EditorView, k: int)
    requires
        lands_captions(e, cues, base, f),
        0 <= k < f.reel.titles.len(),
    ensures
        cues.len() == 0 ==> f.reel == e.reel && f.undo == e.undo,
        cues.len() > 0 ==> one_edit(e, f),
        f.reel == (Reel { titles: f.reel.titles, ..e.reel }),
        f.reel.titles.len() >= e.reel.titles.len(),
        k < e.reel.titles.len() ==> f.reel.titles[k] == e.reel.titles[k],
        k >= e.reel.titles.len() ==> f.reel.titles[k].caption && f.reel.titles[k].enabled == base.enabled,
{
    reveal_strlit("");
    crate::editor::lemma_pushed_alone(e, ""@);
    if cues.len() > 0 {
        let short = cut_up(cues, cues.len() as int);
        let titles = choose|titles: Seq<TitleView>| #[trigger]
            is_captioned(e.reel.titles, short, short.len() as int, base, titles) && f == e.captioned(titles, short.len());
        if k >= e.reel.titles.len() {
            assert(is_caption(titles[e.reel.titles.len() + (k - e.reel.titles.len())], short, k - e.reel.titles.len(), base));
        }
    }
}

/// A text with its line breaks made spaces.
pub open spec fn unwrapped(s: Seq<char>) -> Seq<char> {
    Seq::new(s.len(), |i: int| if s[i] == '\n' { ' ' } else { s[i] })
}

/// Law: wrapping a caption changes nothing but which spaces are line breaks: the words
/// stand in order, a space or a break between them, and a line is broken only where the
/// next word does not fit.
pub proof fn law_wrap_keeps_the_words(s: Seq<char>, max: nat, k: int)
    requires
        0 <= k <= words(s).len(),
    ensures
        unwrapped(wrapped(words(s), max, k).0) == spoken(words(s), k),
        k > 1 && wrapped(words(s), max, k - 1).1 + 1 + words(s)[k - 1].len() <= max ==> wrapped(words(s), max, k).1
            == wrapped(words(s), max, k - 1).1 + 1 + words(s)[k - 1].len(),
        k > 1 && wrapped(words(s), max, k - 1).1 + 1 + words(s)[k - 1].len() > max ==> wrapped(words(s), max, k).1
            == words(s)[k - 1].len(),
{
    let ws = words(s);
    assert forall|i: int| 0 <= i < ws.len() implies !(#[trigger] ws[i]).contains('\n') by {
        lemma_unbroken(s, word_ends(s, s.len() as int)[i]);
    }
    lemma_unwrapped(ws, max, k);
}

proof fn lemma_unwrapped(ws: Seq<Seq<char>>, max: nat, k: int)
    requires
        0 <= k <= ws.len(),
        forall|i: int| 0 <= i < ws.len() ==> !(#[trigger] ws[i]).contains('\n'),
    ensures
        unwrapped(wrapped(ws, max, k).0) == spoken(ws, k),
    decreases k,
{
    reveal_strlit(" ");
    reveal_strlit("\n");
    if k > 0 {
        lemma_unwrapped(ws, max, k - 1);
        let w = ws[k - 1];
        assert(unwrapped(w) =~= w) by {
            assert forall|i: int| 0 <= i < w.len() implies w[i] != '\n' by {
                assert(!ws[k - 1].contains('\n'));
                if w[i] == '\n' {
                    assert(w.contains('\n'));
                }
            }
        }
        if k == 1 {
            assert(wrapped(ws, max, k).0 == w);
        } else {
            let out = wrapped(ws, max, k - 1).0;
            assert(unwrapped(out + " "@ + w) =~= unwrapped(out) + " "@ + unwrapped(w));
            assert(unwrapped(out + "\n"@ + w) =~= unwrapped(out) + " "@ + unwrapped(w));
        }
    } else {
        assert(unwrapped(wrapped(ws, max, k).0) =~= spoken(ws, k));
    }
}

/// Law: the card of a title shown a word at a time holds the text up to the end of its
/// word, and no less than the card before it; the last one holds all the words.
pub proof fn law_reveal_cards_grow(t: TitleView, j: int, k: int)
    requires
        t.style.reveal,
        !t.style.karaoke,
        card_count(t) > 1,
        0 <= j < k < card_count(t),
    ensures
        card_text(t, j).is_prefix_of(card_text(t, k)),
        card_text(t, j).len() < card_text(t, k).len(),
        card_text(t, k).is_prefix_of(t.text@),
        card_text(t, k).len() == word_ends(t.text@, t.text@.len() as int)[k],
{
    let s = t.text@;
    law_prefixes_grow(s, s.len() as int);
    let w = word_ends(s, s.len() as int);
    assert(0 < w[j] < w[k] <= s.len());
    assert(card_text(t, j) =~= card_text(t, k).subrange(0, w[j]));
    assert(card_text(t, k) =~= s.subrange(0, w[k]));
}

} // verus!
