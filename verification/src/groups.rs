//! Marks and groups: items that were linked move together.

use crate::editor::{one_edit, Editor, EditorView};
use crate::model::{
    adjustments_ok, audios_ok, overlays_ok, sound, titles_ok, AdjustmentItem, AudioItem, Clip, OverlayItem, Reel,
    Sel, Snapshot, TitleView,
};
use vstd::prelude::*;

verus! {

/// The group of an item; zero for one in no group, and for one that is not there.
pub open spec fn group_at(r: Reel, s: Sel) -> u64 {
    match s {
        Sel::Main(i) => if i < r.clips.len() { r.clips[i as int].group } else { 0 },
        Sel::Over(i) => if i < r.overlays.len() { r.overlays[i as int].group } else { 0 },
        Sel::Aud(i) => if i < r.audios.len() { r.audios[i as int].group } else { 0 },
        Sel::Title(i) => if i < r.titles.len() { r.titles[i as int].group } else { 0 },
        Sel::Adjust(i) => if i < r.adjustments.len() { r.adjustments[i as int].group } else { 0 },
    }
}

/// The groups of the marked items.
pub open spec fn marked_groups(r: Reel, marked: Seq<Sel>) -> Seq<u64> {
    Seq::new(marked.len(), |k: int| group_at(r, marked[k]))
}

/// The group an item is in after `gid` took in the marked items and every group
/// that one of them was in.
pub open spec fn merged(marked: Seq<Sel>, gids: Seq<u64>, s: Sel, g: u64, gid: u64) -> u64 {
    if marked.contains(s) || (g != 0 && gids.contains(g)) { gid } else { g }
}

/// A reel after the marked items became group `gid`.
pub open spec fn linked(r: Reel, marked: Seq<Sel>, gid: u64) -> Reel {
    let gids = marked_groups(r, marked);
    Reel {
        clips: Seq::new(
            r.clips.len(),
            |i: int| Clip { group: merged(marked, gids, Sel::Main(i as usize), r.clips[i].group, gid), ..r.clips[i] },
        ),
        overlays: Seq::new(
            r.overlays.len(),
            |i: int|
                OverlayItem {
                    group: merged(marked, gids, Sel::Over(i as usize), r.overlays[i].group, gid),
                    ..r.overlays[i]
                },
        ),
        audios: Seq::new(
            r.audios.len(),
            |i: int|
                AudioItem {
                    group: merged(marked, gids, Sel::Aud(i as usize), r.audios[i].group, gid),
                    ..r.audios[i]
                },
        ),
        titles: Seq::new(
            r.titles.len(),
            |i: int|
                TitleView {
                    group: merged(marked, gids, Sel::Title(i as usize), r.titles[i].group, gid),
                    ..r.titles[i]
                },
        ),
        adjustments: Seq::new(
            r.adjustments.len(),
            |i: int|
                AdjustmentItem {
                    group: merged(marked, gids, Sel::Adjust(i as usize), r.adjustments[i].group, gid),
                    ..r.adjustments[i]
                },
        ),
        ..r
    }
}

pub open spec fn freed(g: u64, gid: u64) -> u64 {
    if g == gid { 0 } else { g }
}

/// A reel after group `gid` was dissolved.
pub open spec fn unlinked(r: Reel, gid: u64) -> Reel {
    Reel {
        clips: Seq::new(r.clips.len(), |i: int| Clip { group: freed(r.clips[i].group, gid), ..r.clips[i] }),
        overlays: Seq::new(
            r.overlays.len(),
            |i: int| OverlayItem { group: freed(r.overlays[i].group, gid), ..r.overlays[i] },
        ),
        audios: Seq::new(
            r.audios.len(),
            |i: int| AudioItem { group: freed(r.audios[i].group, gid), ..r.audios[i] },
        ),
        titles: Seq::new(
            r.titles.len(),
            |i: int| TitleView { group: freed(r.titles[i].group, gid), ..r.titles[i] },
        ),
        adjustments: Seq::new(
            r.adjustments.len(),
            |i: int| AdjustmentItem { group: freed(r.adjustments[i].group, gid), ..r.adjustments[i] },
        ),
        ..r
    }
}

/// The first group among the marked items from `k` on; zero when there is none.
pub open spec fn first_group(r: Reel, marked: Seq<Sel>, k: int) -> u64
    decreases marked.len() - k,
{
    if k < 0 || k >= marked.len() {
        0
    } else if group_at(r, marked[k]) != 0 {
        group_at(r, marked[k])
    } else {
        first_group(r, marked, k + 1)
    }
}

/// The group that ungrouping takes apart: the selected item's, or else the first
/// one among the marks.
pub open spec fn chosen_group(e: EditorView) -> u64 {
    match e.selected {
        Some(s) => if group_at(e.reel, s) != 0 {
            group_at(e.reel, s)
        } else {
            first_group(e.reel, e.marked, 0)
        },
        None => first_group(e.reel, e.marked, 0),
    }
}

impl EditorView {
    /// After linking the marked items.
    pub open spec fn grouped(self) -> EditorView {
        let e = self.pushed(""@);
        if self.marked.len() < 2 {
            e.says("Ctrl+click two or more timeline items, then Ctrl+G to group them."@)
        } else {
            EditorView {
                reel: linked(self.reel, self.marked, self.next_group),
                next_group: (self.next_group + 1) as u64,
                marked: Seq::empty(),
                ..e
            }.says("Grouped — the items now move together; Ctrl+Shift+G ungroups."@)
        }
    }

    /// After taking a group apart.
    pub open spec fn ungrouped(self) -> EditorView {
        let e = self.pushed(""@);
        let gid = chosen_group(self);
        if gid == 0 {
            e.says("Select a grouped item to ungroup."@)
        } else {
            EditorView { reel: unlinked(self.reel, gid), marked: Seq::empty(), ..e }.says("Ungrouped."@)
        }
    }

    /// After a mark was set or taken off.
    pub open spec fn mark_toggled(self, s: Sel) -> EditorView {
        EditorView {
            marked: if self.marked.contains(s) {
                self.marked.remove(self.marked.index_of_first(s)->0)
            } else {
                self.marked.push(s)
            },
            ..self
        }
    }
}

/// Law: two marked items, of whatever lanes, end up in the same group, and that
/// group is not the empty one.
pub proof fn law_marked_items_share_a_group(e: EditorView, a: Sel, b: Sel)
    requires
        e.marked.len() >= 2,
        e.marked.contains(a),
        e.marked.contains(b),
        e.reel.has(a),
        e.reel.has(b),
        e.wf(),
    ensures
        group_at(e.grouped().reel, a) == e.next_group,
        group_at(e.grouped().reel, b) == e.next_group,
        e.next_group != 0,
{
}

/// Law: items that were in one group before are in one group after, whatever was
/// linked: groups only grow.
pub proof fn law_groups_only_grow(e: EditorView, a: Sel, b: Sel)
    requires
        e.reel.has(a),
        e.reel.has(b),
        group_at(e.reel, a) == group_at(e.reel, b),
        group_at(e.reel, a) != 0,
    ensures
        group_at(e.grouped().reel, a) == group_at(e.grouped().reel, b),
{
    reveal(EditorView::pushed);
    let gids = marked_groups(e.reel, e.marked);
    if e.marked.contains(a) {
        let k = choose|k: int| 0 <= k < e.marked.len() && e.marked[k] == a;
        assert(gids[k] == group_at(e.reel, a));
    }
    if e.marked.contains(b) {
        let k = choose|k: int| 0 <= k < e.marked.len() && e.marked[k] == b;
        assert(gids[k] == group_at(e.reel, b));
    }
}

/// Law: after ungrouping, no item of any lane is in that group, and what was not in
/// it is as it was.
pub proof fn law_ungroup_frees(e: EditorView)
    requires
        chosen_group(e) != 0,
    ensures
        forall|i: int|
            0 <= i < e.reel.clips.len() ==> (#[trigger] e.ungrouped().reel.clips[i]).group != chosen_group(e) && (
            e.reel.clips[i].group != chosen_group(e) ==> e.ungrouped().reel.clips[i] == e.reel.clips[i]),
        forall|i: int|
            0 <= i < e.reel.overlays.len() ==> (#[trigger] e.ungrouped().reel.overlays[i]).group != chosen_group(e) && (
            e.reel.overlays[i].group != chosen_group(e) ==> e.ungrouped().reel.overlays[i] == e.reel.overlays[i]),
        forall|i: int|
            0 <= i < e.reel.audios.len() ==> (#[trigger] e.ungrouped().reel.audios[i]).group != chosen_group(e) && (
            e.reel.audios[i].group != chosen_group(e) ==> e.ungrouped().reel.audios[i] == e.reel.audios[i]),
        forall|i: int|
            0 <= i < e.reel.titles.len() ==> (#[trigger] e.ungrouped().reel.titles[i]).group != chosen_group(e) && (
            e.reel.titles[i].group != chosen_group(e) ==> e.ungrouped().reel.titles[i] == e.reel.titles[i]),
        forall|i: int|
            0 <= i < e.reel.adjustments.len() ==> (#[trigger] e.ungrouped().reel.adjustments[i]).group != chosen_group(e)
                && (e.reel.adjustments[i].group != chosen_group(e) ==> e.ungrouped().reel.adjustments[i]
                == e.reel.adjustments[i]),
{
}

fn has_mark(marks: &Vec<Sel>, s: Sel) -> (r: bool)
    ensures
        r == marks@.contains(s),
{
    let mut i: usize = 0;
    while i < marks.len()
        invariant
            i <= marks.len(),
            forall|k: int| 0 <= k < i ==> marks@[k] != s,
        decreases marks.len() - i,
    {
        if marks[i] == s {
            return true;
        }
        i += 1;
    }
    false
}

fn has_group(groups: &Vec<u64>, g: u64) -> (r: bool)
    ensures
        r == groups@.contains(g),
{
    let mut i: usize = 0;
    while i < groups.len()
        invariant
            i <= groups.len(),
            forall|k: int| 0 <= k < i ==> groups@[k] != g,
        decreases groups.len() - i,
    {
        if groups[i] == g {
            return true;
        }
        i += 1;
    }
    false
}

fn merge(marked: &Vec<Sel>, gids: &Vec<u64>, s: Sel, g: u64, gid: u64) -> (r: u64)
    ensures
        r == merged(marked@, gids@, s, g, gid),
{
    if has_mark(marked, s) || (g != 0 && has_group(gids, g)) { gid } else { g }
}

impl Snapshot {
    /// The group of an item.
    pub fn group_of(&self, s: Sel) -> (r: u64)
        ensures
            r == group_at(self@, s),
    {
        match s {
            Sel::Main(i) => if i < self.clips.len() { self.clips[i].group } else { 0 },
            Sel::Over(i) => if i < self.overlays.len() { self.overlays[i].group } else { 0 },
            Sel::Aud(i) => if i < self.audios.len() { self.audios[i].group } else { 0 },
            Sel::Title(i) => if i < self.titles.len() { self.titles[i].group } else { 0 },
            Sel::Adjust(i) => if i < self.adjustments.len() { self.adjustments[i].group } else { 0 },
        }
    }

    /// Make the marked items group `gid`.
    fn link(&mut self, marked: &Vec<Sel>, gid: u64)
        requires
            old(self)@.wf(),
        ensures
            final(self)@ == linked(old(self)@, marked@, gid),
            final(self)@.wf(),
    {
        let ghost was = self@;
        let mut gids: Vec<u64> = Vec::new();
        let mut k: usize = 0;
        while k < marked.len()
            invariant
                k <= marked.len(),
                self@ == was,
                gids.len() == k,
                forall|j: int| 0 <= j < k ==> gids@[j] == group_at(was, #[trigger] marked@[j]),
            decreases marked.len() - k,
        {
            let g: u64 = self.group_of(marked[k]);
            gids.push(g);
            k += 1;
        }
        assert(gids@ =~= marked_groups(was, marked@));
        let ghost to = linked(was, marked@, gid);
        proof {
            reveal(sound);
            reveal(overlays_ok);
            reveal(audios_ok);
            reveal(titles_ok);
            reveal(adjustments_ok);
        }
        let mut i: usize = 0;
        while i < self.clips.len()
            invariant
                i <= self.clips.len(),
                gids@ == marked_groups(was, marked@),
                to == linked(was, marked@, gid),
                was.wf(),
                self@ == (Reel { clips: self@.clips, ..was }),
                self@.clips.len() == was.clips.len(),
                forall|k: int| 0 <= k < i ==> #[trigger] self@.clips[k] == to.clips[k],
                forall|k: int| i <= k < was.clips.len() ==> #[trigger] self@.clips[k] == was.clips[k],
            decreases self.clips.len() - i,
        {
            let ghost before = self@.clips;
            assert(before[i as int] == was.clips[i as int]);
            let g: u64 = merge(marked, &gids, Sel::Main(i), self.clips[i].group, gid);
            self.clips[i].group = g;
            assert(self@.clips =~= before.update(i as int, to.clips[i as int]));
            i += 1;
        }
        assert(self@.clips =~= to.clips);
        let mut i: usize = 0;
        while i < self.overlays.len()
            invariant
                i <= self.overlays.len(),
                gids@ == marked_groups(was, marked@),
                to == linked(was, marked@, gid),
                was.wf(),
                self@ == (Reel { clips: to.clips, overlays: self@.overlays, ..was }),
                self@.overlays.len() == was.overlays.len(),
                forall|k: int| 0 <= k < i ==> #[trigger] self@.overlays[k] == to.overlays[k],
                forall|k: int| i <= k < was.overlays.len() ==> #[trigger] self@.overlays[k] == was.overlays[k],
            decreases self.overlays.len() - i,
        {
            let ghost before = self@.overlays;
            assert(before[i as int] == was.overlays[i as int]);
            let g: u64 = merge(marked, &gids, Sel::Over(i), self.overlays[i].group, gid);
            self.overlays[i].group = g;
            assert(self@.overlays =~= before.update(i as int, to.overlays[i as int]));
            i += 1;
        }
        assert(self@.overlays =~= to.overlays);
        let mut i: usize = 0;
        while i < self.audios.len()
            invariant
                i <= self.audios.len(),
                gids@ == marked_groups(was, marked@),
                to == linked(was, marked@, gid),
                was.wf(),
                self@ == (Reel { clips: to.clips, overlays: to.overlays, audios: self@.audios, ..was }),
                self@.audios.len() == was.audios.len(),
                forall|k: int| 0 <= k < i ==> #[trigger] self@.audios[k] == to.audios[k],
                forall|k: int| i <= k < was.audios.len() ==> #[trigger] self@.audios[k] == was.audios[k],
            decreases self.audios.len() - i,
        {
            let ghost before = self@.audios;
            assert(before[i as int] == was.audios[i as int]);
            let g: u64 = merge(marked, &gids, Sel::Aud(i), self.audios[i].group, gid);
            self.audios[i].group = g;
            assert(self@.audios =~= before.update(i as int, to.audios[i as int]));
            i += 1;
        }
        assert(self@.audios =~= to.audios);
        let mut i: usize = 0;
        while i < self.titles.len()
            invariant
                i <= self.titles.len(),
                gids@ == marked_groups(was, marked@),
                to == linked(was, marked@, gid),
                was.wf(),
                self@ == (Reel { clips: to.clips, overlays: to.overlays, audios: to.audios, titles: self@.titles, ..was }),
                self@.titles.len() == was.titles.len(),
                forall|k: int| 0 <= k < i ==> #[trigger] self@.titles[k] == to.titles[k],
                forall|k: int| i <= k < was.titles.len() ==> #[trigger] self@.titles[k] == was.titles[k],
            decreases self.titles.len() - i,
        {
            let ghost before = self@.titles;
            assert(before[i as int] == was.titles[i as int]);
            let g: u64 = merge(marked, &gids, Sel::Title(i), self.titles[i].group, gid);
            self.titles[i].group = g;
            assert(self@.titles =~= before.update(i as int, to.titles[i as int]));
            i += 1;
        }
        assert(self@.titles =~= to.titles);
        let mut i: usize = 0;
        while i < self.adjustments.len()
            invariant
                i <= self.adjustments.len(),
                gids@ == marked_groups(was, marked@),
                to == linked(was, marked@, gid),
                was.wf(),
                self@ == (Reel { adjustments: self@.adjustments, ..to }),
                self@.adjustments.len() == was.adjustments.len(),
                forall|k: int| 0 <= k < i ==> #[trigger] self@.adjustments[k] == to.adjustments[k],
                forall|k: int| i <= k < was.adjustments.len() ==> #[trigger] self@.adjustments[k] == was.adjustments[k],
            decreases self.adjustments.len() - i,
        {
            let ghost before = self@.adjustments;
            assert(before[i as int] == was.adjustments[i as int]);
            let g: u64 = merge(marked, &gids, Sel::Adjust(i), self.adjustments[i].group, gid);
            self.adjustments[i].group = g;
            assert(self@.adjustments =~= before.update(i as int, to.adjustments[i as int]));
            i += 1;
        }
        assert(self@.adjustments =~= to.adjustments);
        assert(self@ =~= to);
    }

    /// Dissolve group `gid`.
    fn unlink(&mut self, gid: u64)
        requires
            old(self)@.wf(),
        ensures
            final(self)@ == unlinked(old(self)@, gid),
            final(self)@.wf(),
    {
        let ghost was = self@;
        let ghost to = unlinked(was, gid);
        proof {
            reveal(sound);
            reveal(overlays_ok);
            reveal(audios_ok);
            reveal(titles_ok);
            reveal(adjustments_ok);
        }
        let mut i: usize = 0;
        while i < self.clips.len()
            invariant
                i <= self.clips.len(),
                to == unlinked(was, gid),
                was.wf(),
                self@ == (Reel { clips: self@.clips, ..was }),
                self@.clips.len() == was.clips.len(),
                forall|k: int| 0 <= k < i ==> #[trigger] self@.clips[k] == to.clips[k],
                forall|k: int| i <= k < was.clips.len() ==> #[trigger] self@.clips[k] == was.clips[k],
            decreases self.clips.len() - i,
        {
            let ghost before = self@.clips;
            assert(before[i as int] == was.clips[i as int]);
            let g: u64 = if self.clips[i].group == gid { 0 } else { self.clips[i].group };
            self.clips[i].group = g;
            assert(self@.clips =~= before.update(i as int, to.clips[i as int]));
            i += 1;
        }
        assert(self@.clips =~= to.clips);
        let mut i: usize = 0;
        while i < self.overlays.len()
            invariant
                i <= self.overlays.len(),
                to == unlinked(was, gid),
                was.wf(),
                self@ == (Reel { clips: to.clips, overlays: self@.overlays, ..was }),
                self@.overlays.len() == was.overlays.len(),
                forall|k: int| 0 <= k < i ==> #[trigger] self@.overlays[k] == to.overlays[k],
                forall|k: int| i <= k < was.overlays.len() ==> #[trigger] self@.overlays[k] == was.overlays[k],
            decreases self.overlays.len() - i,
        {
            let ghost before = self@.overlays;
            assert(before[i as int] == was.overlays[i as int]);
            let g: u64 = if self.overlays[i].group == gid { 0 } else { self.overlays[i].group };
            self.overlays[i].group = g;
            assert(self@.overlays =~= before.update(i as int, to.overlays[i as int]));
            i += 1;
        }
        assert(self@.overlays =~= to.overlays);
        let mut i: usize = 0;
        while i < self.audios.len()
            invariant
                i <= self.audios.len(),
                to == unlinked(was, gid),
                was.wf(),
                self@ == (Reel { clips: to.clips, overlays: to.overlays, audios: self@.audios, ..was }),
                self@.audios.len() == was.audios.len(),
                forall|k: int| 0 <= k < i ==> #[trigger] self@.audios[k] == to.audios[k],
                forall|k: int| i <= k < was.audios.len() ==> #[trigger] self@.audios[k] == was.audios[k],
            decreases self.audios.len() - i,
        {
            let ghost before = self@.audios;
            assert(before[i as int] == was.audios[i as int]);
            let g: u64 = if self.audios[i].group == gid { 0 } else { self.audios[i].group };
            self.audios[i].group = g;
            assert(self@.audios =~= before.update(i as int, to.audios[i as int]));
            i += 1;
        }
        assert(self@.audios =~= to.audios);
        let mut i: usize = 0;
        while i < self.titles.len()
            invariant
                i <= self.titles.len(),
                to == unlinked(was, gid),
                was.wf(),
                self@ == (Reel { clips: to.clips, overlays: to.overlays, audios: to.audios, titles: self@.titles, ..was }),
                self@.titles.len() == was.titles.len(),
                forall|k: int| 0 <= k < i ==> #[trigger] self@.titles[k] == to.titles[k],
                forall|k: int| i <= k < was.titles.len() ==> #[trigger] self@.titles[k] == was.titles[k],
            decreases self.titles.len() - i,
        {
            let ghost before = self@.titles;
            assert(before[i as int] == was.titles[i as int]);
            let g: u64 = if self.titles[i].group == gid { 0 } else { self.titles[i].group };
            self.titles[i].group = g;
            assert(self@.titles =~= before.update(i as int, to.titles[i as int]));
            i += 1;
        }
        assert(self@.titles =~= to.titles);
        let mut i: usize = 0;
        while i < self.adjustments.len()
            invariant
                i <= self.adjustments.len(),
                to == unlinked(was, gid),
                was.wf(),
                self@ == (Reel { adjustments: self@.adjustments, ..to }),
                self@.adjustments.len() == was.adjustments.len(),
                forall|k: int| 0 <= k < i ==> #[trigger] self@.adjustments[k] == to.adjustments[k],
                forall|k: int| i <= k < was.adjustments.len() ==> #[trigger] self@.adjustments[k] == was.adjustments[k],
            decreases self.adjustments.len() - i,
        {
            let ghost before = self@.adjustments;
            assert(before[i as int] == was.adjustments[i as int]);
            let g: u64 = if self.adjustments[i].group == gid { 0 } else { self.adjustments[i].group };
            self.adjustments[i].group = g;
            assert(self@.adjustments =~= before.update(i as int, to.adjustments[i as int]));
            i += 1;
        }
        assert(self@.adjustments =~= to.adjustments);
        assert(self@ =~= to);
    }
}

impl Editor {
    /// Set a mark on an item, or take it off.
    pub fn toggle_mark(&mut self, s: Sel)
        requires
            old(self)@.wf(),
        ensures
            final(self)@ == old(self)@.mark_toggled(s),
            final(self)@.wf(),
    {
        let mut i: usize = 0;
        while i < self.marked.len()
            invariant
                i <= self.marked.len(),
                *self == *old(self),
                forall|k: int| 0 <= k < i ==> self.marked@[k] != s,
                self@.wf(),
            decreases self.marked.len() - i,
        {
            if self.marked[i] == s {
                proof {
                    self.marked@.index_of_first_ensures(s);
                }
                self.marked.remove(i);
                return;
            }
            i += 1;
        }
        self.marked.push(s);
    }

    /// Link the marked items into one group.
    pub fn group_marked(&mut self)
        requires
            old(self)@.wf(),
            old(self).next_group < u64::MAX,
        ensures
            final(self)@ == old(self)@.grouped(),
            final(self)@.wf(),
    {
        self.push_undo("");
        if self.marked.len() < 2 {
            self.status = "Ctrl+click two or more timeline items, then Ctrl+G to group them.".to_owned();
            return;
        }
        let gid: u64 = self.next_group;
        self.next_group = gid + 1;
        self.reel.link(&self.marked, gid);
        self.marked.clear();
        self.status = "Grouped — the items now move together; Ctrl+Shift+G ungroups.".to_owned();
    }

    /// Take apart the group of the selected item, or of the first marked item
    /// that is in one.
    pub fn ungroup_sel(&mut self)
        requires
            old(self)@.wf(),
        ensures
            final(self)@ == old(self)@.ungrouped(),
            final(self)@.wf(),
    {
        self.push_undo("");
        let mut gid: u64 = match self.selected {
            Some(s) => self.reel.group_of(s),
            None => 0,
        };
        let mut k: usize = 0;
        while gid == 0 && k < self.marked.len()
            invariant
                k <= self.marked.len(),
                chosen_group(self@) == if gid != 0 {
                    gid
                } else {
                    first_group(self@.reel, self@.marked, k as int)
                },
            decreases self.marked.len() - k,
        {
            gid = self.reel.group_of(self.marked[k]);
            k += 1;
        }
        if gid == 0 {
            self.status = "Select a grouped item to ungroup.".to_owned();
            return;
        }
        self.reel.unlink(gid);
        self.marked.clear();
        self.status = "Ungrouped.".to_owned();
    }
}

/// Law: grouping changes nothing but groups: an item that is neither marked nor in a
/// group with a marked one stays as it is. It is one undo step and clears the marks;
/// with fewer than two marked it changes nothing on the reel.
pub proof fn law_group_changes_only_groups(e: EditorView)
    requires
        e.next_group < u64::MAX,
    ensures
        ({
            let f = e.grouped();
            let a = e.reel;
            let b = f.reel;
            &&& one_edit(e, f)
            &&& e.marked.len() < 2 ==> b == a && f.marked == e.marked && f.next_group == e.next_group
            &&& e.marked.len() >= 2 ==> f.marked.len() == 0 && f.next_group == e.next_group + 1
            &&& b == (Reel {
                clips: b.clips,
                overlays: b.overlays,
                audios: b.audios,
                titles: b.titles,
                adjustments: b.adjustments,
                ..a
            })
            &&& b.clips.len() == a.clips.len() && b.overlays.len() == a.overlays.len() && b.audios.len()
                == a.audios.len() && b.titles.len() == a.titles.len() && b.adjustments.len() == a.adjustments.len()
            &&& forall|i: int|
                0 <= i < a.clips.len() ==> (#[trigger] b.clips[i]) == (Clip { group: b.clips[i].group, ..a.clips[i] })
                    && (!e.marked.contains(Sel::Main(i as usize)) && a.clips[i].group == 0 ==> b.clips[i].group == 0)
            &&& forall|i: int|
                0 <= i < a.overlays.len() ==> (#[trigger] b.overlays[i]) == (OverlayItem {
                    group: b.overlays[i].group,
                    ..a.overlays[i]
                }) && (!e.marked.contains(Sel::Over(i as usize)) && a.overlays[i].group == 0 ==> b.overlays[i].group == 0)
            &&& forall|i: int|
                0 <= i < a.audios.len() ==> (#[trigger] b.audios[i]) == (AudioItem { group: b.audios[i].group, ..a.audios[i] })
                    && (!e.marked.contains(Sel::Aud(i as usize)) && a.audios[i].group == 0 ==> b.audios[i].group == 0)
            &&& forall|i: int|
                0 <= i < a.titles.len() ==> (#[trigger] b.titles[i]) == (TitleView { group: b.titles[i].group, ..a.titles[i] })
                    && (!e.marked.contains(Sel::Title(i as usize)) && a.titles[i].group == 0 ==> b.titles[i].group == 0)
            &&& forall|i: int|
                0 <= i < a.adjustments.len() ==> (#[trigger] b.adjustments[i]) == (AdjustmentItem {
                    group: b.adjustments[i].group,
                    ..a.adjustments[i]
                }) && (!e.marked.contains(Sel::Adjust(i as usize)) && a.adjustments[i].group == 0
                    ==> b.adjustments[i].group == 0)
        }),
{
    reveal(EditorView::pushed);
    reveal_strlit("");
}

/// Law: ungrouping takes the selected item's group apart, or else that of the first
/// marked item that has one; nothing but groups changes.
pub proof fn law_ungroup_takes_the_selected_group(e: EditorView)
    ensures
        ({
            let f = e.ungrouped();
            let a = e.reel;
            let b = f.reel;
            let g = chosen_group(e);
            &&& one_edit(e, f)
            &&& e.selected matches Some(s) ==> group_at(a, s) != 0 ==> g == group_at(a, s)
            &&& (e.selected is None || group_at(a, e.selected->0) == 0) && g != 0 ==> exists|k: int|
                0 <= k < e.marked.len() && group_at(a, #[trigger] e.marked[k]) == g && forall|j: int|
                    0 <= j < k ==> group_at(a, #[trigger] e.marked[j]) == 0
            &&& g == 0 ==> b == a && forall|k: int| 0 <= k < e.marked.len() ==> group_at(a, #[trigger] e.marked[k]) == 0
            &&& b == (Reel {
                clips: b.clips,
                overlays: b.overlays,
                audios: b.audios,
                titles: b.titles,
                adjustments: b.adjustments,
                ..a
            })
            &&& forall|i: int|
                0 <= i < a.clips.len() ==> (#[trigger] b.clips[i]) == (Clip { group: b.clips[i].group, ..a.clips[i] }) && (
                a.clips[i].group == g ==> b.clips[i].group == 0)
            &&& forall|i: int|
                0 <= i < a.overlays.len() ==> (#[trigger] b.overlays[i]) == (OverlayItem {
                    group: b.overlays[i].group,
                    ..a.overlays[i]
                }) && (a.overlays[i].group == g ==> b.overlays[i].group == 0)
            &&& forall|i: int|
                0 <= i < a.audios.len() ==> (#[trigger] b.audios[i]) == (AudioItem { group: b.audios[i].group, ..a.audios[i] })
                    && (a.audios[i].group == g ==> b.audios[i].group == 0)
        }),
{
    reveal(EditorView::pushed);
    reveal_strlit("");
    lemma_first_group(e.reel, e.marked, 0);
}

proof fn lemma_first_group(r: Reel, marked: Seq<Sel>, n: int)
    requires
        0 <= n <= marked.len(),
        forall|j: int| 0 <= j < n ==> group_at(r, #[trigger] marked[j]) == 0,
    ensures
        first_group(r, marked, n) == 0 ==> forall|k: int| 0 <= k < marked.len() ==> group_at(r, #[trigger] marked[k]) == 0,
        first_group(r, marked, n) != 0 ==> exists|k: int|
            0 <= k < marked.len() && group_at(r, #[trigger] marked[k]) == first_group(r, marked, n) && forall|j: int|
                0 <= j < k ==> group_at(r, #[trigger] marked[j]) == 0,
    decreases marked.len() - n,
{
    if n < marked.len() && group_at(r, marked[n]) == 0 {
        lemma_first_group(r, marked, n + 1);
    }
}

/// Law: marking an item and marking it again leaves it unmarked; no other mark changes.
pub proof fn law_mark_toggles(e: EditorView, s: Sel, x: Sel)
    requires
        e.marked.no_duplicates(),
    ensures
        e.mark_toggled(s).marked.contains(s) != e.marked.contains(s),
        x != s ==> e.mark_toggled(s).marked.contains(x) == e.marked.contains(x),
        e.mark_toggled(s).marked.no_duplicates(),
        e.mark_toggled(s).reel == e.reel,
{
    let m = e.marked;
    let n = e.mark_toggled(s).marked;
    if m.contains(s) {
        m.index_of_first_ensures(s);
        let i = m.index_of_first(s)->0;
        assert(m[i] == s);
        assert forall|y: Sel| #[trigger] n.contains(y) implies y != s && m.contains(y) by {
            let k = choose|k: int| 0 <= k < n.len() && n[k] == y;
            let j = if k < i { k } else { k + 1 };
            assert(m[j] == y);
        }
        if x != s && m.contains(x) {
            let k = choose|k: int| 0 <= k < m.len() && m[k] == x;
            assert(n[if k < i { k } else { k - 1 }] == x);
        }
    } else {
        assert(n[m.len() as int] == s);
        assert(n.contains(s));
        if x != s && m.contains(x) {
            let k = choose|k: int| 0 <= k < m.len() && m[k] == x;
            assert(n[k] == x);
        }
        if x != s && n.contains(x) {
            let k = choose|k: int| 0 <= k < n.len() && n[k] == x;
            assert(m[k] == x);
        }
    }
}

} // verus!
