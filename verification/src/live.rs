//! Remote control: what a tool outside of the program asks for, and the answers.

use crate::editor::{Editor, EditorView};
use crate::model::{Clip, OverlayItem, Reel, Snapshot};
use crate::text::{cat2, cat3, cat4, cat5, decimal, digits, join, joined, same_text, texts};
use crate::time::{between, greater, hold_between, in_source, upper, Time, AXIS_END};
use vstd::prelude::*;

verus! {

/// What a request asks for.
#[derive(Clone, Copy, PartialEq, Eq, Structural, Debug)]
pub enum Ask {
    /// Which tools there are.
    Tools,
    /// Which items there are.
    Items,
    /// A frame of an item's source.
    Frame,
    /// An edit by a plugin.
    Edit,
}

pub open spec fn asked(tool: Seq<char>) -> Ask {
    if tool == "list_tools"@ {
        Ask::Tools
    } else if tool == "list_items"@ {
        Ask::Items
    } else if tool == "get_frame"@ {
        Ask::Frame
    } else {
        Ask::Edit
    }
}

pub fn ask_for(tool: &str) -> (r: Ask)
    ensures
        r == asked(tool@),
{
    if same_text(tool, "list_tools") {
        Ask::Tools
    } else if same_text(tool, "list_items") {
        Ask::Items
    } else if same_text(tool, "get_frame") {
        Ask::Frame
    } else {
        Ask::Edit
    }
}

/// The lines for the first `n` names, each with its index.
pub open spec fn item_lines(names: Seq<Seq<char>>) -> Seq<Seq<char>> {
    Seq::new(names.len(), |k: int| "  ["@ + digits(k as nat) + "] "@ + names[k])
}

/// A lane as a list: its name and length, then its items.
pub open spec fn lane_list(label: Seq<char>, names: Seq<Seq<char>>) -> Seq<char> {
    label + " ("@ + digits(names.len()) + "):\n"@ + joined(item_lines(names), "\n"@)
}

pub open spec fn clip_names(s: Seq<Clip>) -> Seq<Seq<char>> {
    Seq::new(s.len(), |k: int| s[k].name@)
}

pub open spec fn overlay_names(s: Seq<OverlayItem>) -> Seq<Seq<char>> {
    Seq::new(s.len(), |k: int| s[k].name@)
}

/// The items of the reel as text.
pub open spec fn items_text(r: Reel) -> Seq<char> {
    lane_list("V1 clips"@, clip_names(r.clips)) + "\n"@ + lane_list("V2 overlays"@, overlay_names(r.overlays))
}

fn item_line(k: usize, name: &str) -> (r: String)
    ensures
        r@ == "  ["@ + digits(k as nat) + "] "@ + name@,
{
    let n: String = decimal(k as u128);
    cat4("  [", n.as_str(), "] ", name)
}

fn list_lane(label: &str, lines: &Vec<String>, Ghost(names): Ghost<Seq<Seq<char>>>) -> (r: String)
    requires
        texts(lines@) == item_lines(names),
    ensures
        r@ == lane_list(label@, names),
{
    let n: String = decimal(lines.len() as u128);
    let body: String = join(lines, "\n");
    assert(texts(lines@).len() == names.len());
    cat5(label, " (", n.as_str(), "):\n", body.as_str())
}

impl Snapshot {
    /// The items of V1 and V2, as text.
    pub fn list_items(&self) -> (r: String)
        ensures
            r@ == items_text(self@),
    {
        let mut lines: Vec<String> = Vec::new();
        let n: usize = self.clips.len();
        let mut k: usize = 0;
        while k < n
            invariant
                k <= n,
                n == self.clips.len(),
                lines.len() == k,
                forall|j: int|
                    0 <= j < k ==> (#[trigger] lines@[j])@ == "  ["@ + digits(j as nat) + "] "@ + self.clips@[j].name@,
            decreases n - k,
        {
            lines.push(item_line(k, self.clips[k].name.as_str()));
            k += 1;
        }
        assert(texts(lines@) =~= item_lines(clip_names(self.clips@)));
        let v1: String = list_lane("V1 clips", &lines, Ghost(clip_names(self.clips@)));
        let mut over: Vec<String> = Vec::new();
        let m: usize = self.overlays.len();
        let mut k: usize = 0;
        while k < m
            invariant
                k <= m,
                m == self.overlays.len(),
                over.len() == k,
                forall|j: int|
                    0 <= j < k ==> (#[trigger] over@[j])@ == "  ["@ + digits(j as nat) + "] "@
                        + self.overlays@[j].name@,
            decreases m - k,
        {
            over.push(item_line(k, self.overlays[k].name.as_str()));
            k += 1;
        }
        assert(texts(over@) =~= item_lines(overlay_names(self.overlays@)));
        let v2: String = list_lane("V2 overlays", &over, Ghost(overlay_names(self.overlays@)));
        cat3(v1.as_str(), "\n", v2.as_str())
    }
}

/// Whether a JSON text holds a value at a JSON pointer.
pub uninterp spec fn json_has(json: Seq<char>, pointer: Seq<char>) -> bool;

/// The string that a JSON text holds at a JSON pointer.
pub uninterp spec fn json_text(json: Seq<char>, pointer: Seq<char>) -> Option<Seq<char>>;

/// The whole number that a JSON text holds at a JSON pointer.
pub uninterp spec fn json_count(json: Seq<char>, pointer: Seq<char>) -> Option<u64>;

/// An optional text as a value.
pub open spec fn seen(s: Option<String>) -> Option<Seq<char>> {
    match s {
        Some(t) => Some(t@),
        None => None,
    }
}

/// `serde_json::Value::pointer` on the parsed text: whether there is a value. A
/// text that is no JSON holds none. What a pointer reaches in which text is named,
/// not stated.
#[verifier::external_body]
pub(crate) fn has_at(json: &str, pointer: &str) -> (r: bool)
    ensures
        r == json_has(json@, pointer@),
{
    match serde_json::from_str::<serde_json::Value>(json) {
        Ok(v) => v.pointer(pointer).is_some(),
        Err(_) => false,
    }
}

/// `serde_json::Value::as_str` on the value at the pointer: the string there, where
/// there is one. What a pointer reaches in which text is named, not stated.
#[verifier::external_body]
pub(crate) fn text_at(json: &str, pointer: &str) -> (r: Option<String>)
    ensures
        seen(r) == json_text(json@, pointer@),
{
    let v: serde_json::Value = serde_json::from_str(json).ok()?;
    v.pointer(pointer)?.as_str().map(|s| s.to_owned())
}

/// `serde_json::Value::as_u64` on the value at the pointer: the whole number there,
/// where there is one. What a pointer reaches in which text is named, not stated.
#[verifier::external_body]
pub(crate) fn count_at(json: &str, pointer: &str) -> (r: Option<u64>)
    ensures
        r == json_count(json@, pointer@),
{
    let v: serde_json::Value = serde_json::from_str(json).ok()?;
    v.pointer(pointer)?.as_u64()
}

/// The lane and index a frame is asked for: under `target` where the request has
/// one, or else at its top; V1 and zero where they are not given.
pub open spec fn frame_wanted(json: Seq<char>) -> (Seq<char>, u64) {
    let (lane, index) = if json_has(json, "/target"@) {
        (json_text(json, "/target/lane"@), json_count(json, "/target/index"@))
    } else {
        (json_text(json, "/lane"@), json_count(json, "/index"@))
    };
    (
        match lane {
            Some(l) => l,
            None => "V1"@,
        },
        match index {
            Some(i) => i,
            None => 0,
        },
    )
}

/// Which item a frame is asked for.
pub fn frame_target(params: &str) -> (r: (String, u64))
    ensures
        (r.0@, r.1) == frame_wanted(params@),
{
    let (lane, index) = if has_at(params, "/target") {
        (text_at(params, "/target/lane"), count_at(params, "/target/index"))
    } else {
        (text_at(params, "/lane"), count_at(params, "/index"))
    };
    let lane: String = match lane {
        Some(l) => l,
        None => "V1".to_owned(),
    };
    let index: u64 = match index {
        Some(i) => i,
        None => 0,
    };
    (lane, index)
}

/// The source and kept span of an item on V2, or of one on V1 for any other lane.
pub open spec fn source_for(r: Reel, lane: Seq<char>, index: int) -> Option<(String, Time, Time)> {
    if lane == "V2"@ {
        if index < r.overlays.len() {
            let o = r.overlays[index];
            Some((o.path, o.in_s, o.out_s))
        } else {
            None
        }
    } else if index < r.clips.len() {
        let c = r.clips[index];
        Some((c.path, c.in_s, c.out_s))
    } else {
        None
    }
}

/// Which moment of a source is shown: as far into it as asked, or the middle.
pub open spec fn frame_time(in_s: Time, out_s: Time, at: Option<Time>) -> int {
    match at {
        Some(a) => between(in_s + a, in_s as int, upper(out_s as int, in_s as int)),
        None => (in_s + out_s) / 2,
    }
}

impl Snapshot {
    /// The source file and the moment in it that a request for a frame means, or
    /// what to answer where there is no such item.
    pub fn frame_source(&self, lane: &str, index: usize, at: Option<Time>) -> (r: Result<(String, Time), String>)
        requires
            self@.wf(),
            at matches Some(a) ==> -AXIS_END <= a <= AXIS_END,
        ensures
            match source_for(self@, lane@, index as int) {
                Some((path, in_s, out_s)) => {
                    &&& r matches Ok(p)
                    &&& p.0 == path
                    &&& p.1 == frame_time(in_s, out_s, at)
                    &&& in_source(p.1)
                },
                None => r matches Err(e) && e@ == "no item at "@ + lane@ + "["@ + digits(index as nat) + "]"@,
            },
    {
        let found: Option<(String, Time, Time)> = if same_text(lane, "V2") {
            if index < self.overlays.len() {
                proof {
                    crate::model::lemma_overlays_ok_at(self@.overlays, index as int);
                }
                let o: &OverlayItem = &self.overlays[index];
                Some((o.path.clone(), o.in_s, o.out_s))
            } else {
                None
            }
        } else if index < self.clips.len() {
            proof {
                crate::model::lemma_sound_at(self@.clips, index as int);
            }
            let c: &Clip = &self.clips[index];
            Some((c.path.clone(), c.in_s, c.out_s))
        } else {
            None
        };
        match found {
            Some((path, in_s, out_s)) => {
                let t: Time = match at {
                    Some(a) => hold_between(in_s + a, in_s, greater(out_s, in_s)),
                    None => (in_s + out_s) / 2,
                };
                Ok((path, t))
            },
            None => {
                let n: String = decimal(index as u128);
                Err(cat5("no item at ", lane, "[", n.as_str(), "]"))
            },
        }
    }
}

impl Snapshot {
    /// What a request for a frame means: the source file and the moment in it, or
    /// what to answer where there is no such item.
    pub fn get_frame(&self, params: &str, at: Option<Time>) -> (r: Result<(String, Time), String>)
        requires
            self@.wf(),
            at matches Some(a) ==> -AXIS_END <= a <= AXIS_END,
        ensures
            ({
                let (lane, wanted) = frame_wanted(params@);
                let index = wanted as usize;
                match source_for(self@, lane, index as int) {
                    Some((path, in_s, out_s)) => {
                        &&& r matches Ok(p)
                        &&& p.0 == path
                        &&& p.1 == frame_time(in_s, out_s, at)
                        &&& in_source(p.1)
                    },
                    None => r matches Err(e) && e@ == "no item at "@ + lane + "["@ + digits(index as nat) + "]"@,
                }
            }),
    {
        let (lane, wanted) = frame_target(params);
        let index: usize = wanted as usize;
        self.frame_source(lane.as_str(), index, at)
    }
}

impl EditorView {
    /// After a plugin edited the reel.
    pub open spec fn live_edited(self, r: Reel, message: Seq<char>) -> EditorView {
        self.pushed(""@).restored(r).says("Live · "@ + message)
    }
}

impl Editor {
    /// A plugin answered: with the reel it made and what it says of it, or that it
    /// refused. What goes back to the caller is returned.
    pub fn land_live(&mut self, result: Result<(Snapshot, String), String>) -> (r: Result<String, String>)
        requires
            old(self)@.wf(),
            result matches Ok(p) ==> p.0@.wf(),
        ensures
            final(self)@.wf(),
            match result {
                Ok((s, m)) => r == Ok::<String, String>(m) && final(self)@ == old(self)@.live_edited(s@, m@),
                Err(e) => r == Err::<String, String>(e) && final(self)@ == old(self)@,
            },
    {
        match result {
            Ok((s, m)) => {
                self.push_undo("");
                self.restore(s);
                self.status = cat2("Live · ", m.as_str());
                Ok(m)
            },
            Err(e) => Err(e),
        }
    }
}

/// Law: a moment asked for lies in what the item keeps of its source.
pub proof fn law_frames_lie_in_the_item(in_s: Time, out_s: Time, at: Option<Time>)
    requires
        in_s <= out_s,
    ensures
        in_s <= frame_time(in_s, out_s, at) <= out_s,
{
}

/// Law: a plugin's edit is undone like any other: the reel before it comes back.
pub proof fn law_live_edits_can_be_undone(e: EditorView, r: Reel, message: Seq<char>)
    ensures
        e.live_edited(r, message).undone().reel == crate::lanes::normal(e.reel),
{
    reveal_strlit("");
    crate::editor::law_undo_takes_an_edit_back(e, ""@, e.live_edited(r, message));
}

/// Law: a frame is taken that far behind the item's in point, held to the item, or in
/// its middle; V2 names a cutaway, anything else a clip of the main track.
pub proof fn law_frame_place(in_s: Time, out_s: Time, a: Time, r: Reel, lane: Seq<char>, index: int)
    requires
        in_s <= out_s,
    ensures
        0 <= a <= out_s - in_s ==> frame_time(in_s, out_s, Some(a)) - in_s == a,
        a < 0 ==> frame_time(in_s, out_s, Some(a)) == in_s,
        a > out_s - in_s ==> frame_time(in_s, out_s, Some(a)) == out_s,
        0 <= in_s + out_s - 2 * frame_time(in_s, out_s, None) <= 1,
        lane == "V2"@ && 0 <= index < r.overlays.len() ==> source_for(r, lane, index) == Some(
            (r.overlays[index].path, r.overlays[index].in_s, r.overlays[index].out_s),
        ),
        lane != "V2"@ && 0 <= index < r.clips.len() ==> source_for(r, lane, index) == Some(
            (r.clips[index].path, r.clips[index].in_s, r.clips[index].out_s),
        ),
        lane == "V2"@ && index >= r.overlays.len() ==> source_for(r, lane, index) is None,
        lane != "V2"@ && index >= r.clips.len() ==> source_for(r, lane, index) is None,
{
}

} // verus!
