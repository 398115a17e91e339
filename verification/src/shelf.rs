//! Named things that are kept between sessions: title styles and panel layouts.

use crate::adds::TitlePreset;
use crate::editor::Editor;
use crate::model::TitleView;
use crate::sorting::{by_text, order_by_text, places};
use crate::text::{cat2, cat3, lowercase, lowercased, same_text, texts, trim, trimmed_text};
use vstd::prelude::*;

verus! {

/// The first `n` entries without those of a name.
pub open spec fn without<T>(s: Seq<(Seq<char>, T)>, name: Seq<char>, n: int) -> Seq<(Seq<char>, T)>
    decreases n,
{
    if n <= 0 {
        Seq::empty()
    } else if s[n - 1].0 == name {
        without(s, name, n - 1)
    } else {
        without(s, name, n - 1).push(s[n - 1])
    }
}

/// The entries with one of that name replaced, or added at the end.
pub open spec fn replaced<T>(s: Seq<(Seq<char>, T)>, name: Seq<char>, item: T) -> Seq<(Seq<char>, T)> {
    without(s, name, s.len() as int).push((name, item))
}

/// What entries are sorted by: their names, whatever their case.
pub open spec fn sort_keys<T>(s: Seq<(Seq<char>, T)>) -> Seq<Seq<char>> {
    Seq::new(s.len(), |k: int| lowercased(s[k].0))
}

/// The entries in another order.
pub open spec fn arranged<T>(s: Seq<(Seq<char>, T)>, order: Seq<usize>) -> Seq<(Seq<char>, T)> {
    Seq::new(order.len(), |k: int| s[order[k] as int])
}

/// Whether `after` is the shelf `s` with an item stored under a name: one that had
/// the name is gone, and the entries are in the order of their names.
pub open spec fn shelved<T>(s: Seq<(Seq<char>, T)>, name: Seq<char>, item: T, after: Seq<(Seq<char>, T)>) -> bool {
    let all = replaced(s, name, item);
    exists|order: Seq<usize>| #[trigger] by_text(order, sort_keys(all)) && after == arranged(all, order)
}

/// Law: a stored item is found under its name, and nothing else is.
pub proof fn law_a_name_holds_one_item<T>(
    s: Seq<(Seq<char>, T)>,
    name: Seq<char>,
    item: T,
    after: Seq<(Seq<char>, T)>,
)
    requires
        shelved(s, name, item, after),
        s.len() < usize::MAX,
    ensures
        after.contains((name, item)),
        forall|k: int| 0 <= k < after.len() && (#[trigger] after[k]).0 == name ==> after[k].1 == item,
{
    let all = replaced(s, name, item);
    let order = choose|order: Seq<usize>| #[trigger]
        by_text(order, sort_keys(all)) && after == arranged(all, order);
    let last = (all.len() - 1) as int;
    lemma_without(s, name, s.len() as int);
    assert(sort_keys(all).len() == all.len());
    assert(places(order, all.len() as int));
    assert(order.contains(last as usize));
    let i = choose|i: int| 0 <= i < order.len() && order[i] == last as usize;
    assert(after[i] == (name, item));
    assert forall|k: int| 0 <= k < after.len() && (#[trigger] after[k]).0 == name implies after[k].1 == item by {
        let p = order[k] as int;
        assert(0 <= p < all.len());
        if p < last {
            assert(without(s, name, s.len() as int)[p].0 != name);
        }
    }
}

proof fn lemma_without<T>(s: Seq<(Seq<char>, T)>, name: Seq<char>, n: int)
    requires
        n <= s.len(),
    ensures
        n >= 0 ==> without(s, name, n).len() <= n,
        forall|k: int| 0 <= k < without(s, name, n).len() ==> (#[trigger] without(s, name, n)[k]).0 != name,
        forall|k: int|
            0 <= k < n && (#[trigger] s[k]).0 != name ==> without(s, name, n).contains(s[k]),
    decreases n,
{
    if n > 0 {
        lemma_without(s, name, n - 1);
        let before = without(s, name, n - 1);
        let now = without(s, name, n);
        assert forall|k: int| 0 <= k < n && (#[trigger] s[k]).0 != name implies now.contains(s[k]) by {
            if k < n - 1 {
                assert(before.contains(s[k]));
                let j = choose|j: int| 0 <= j < before.len() && before[j] == s[k];
                assert(now[j] == s[k]);
            } else {
                assert(now[before.len() as int] == s[k]);
            }
        }
    }
}

/// Law: what was stored under other names is still there.
pub proof fn law_other_names_stay<T>(
    s: Seq<(Seq<char>, T)>,
    name: Seq<char>,
    item: T,
    after: Seq<(Seq<char>, T)>,
    k: int,
)
    requires
        shelved(s, name, item, after),
        0 <= k < s.len(),
        s[k].0 != name,
        s.len() < usize::MAX,
    ensures
        after.contains(s[k]),
{
    let all = replaced(s, name, item);
    let order = choose|order: Seq<usize>| #[trigger]
        by_text(order, sort_keys(all)) && after == arranged(all, order);
    let kept = without(s, name, s.len() as int);
    lemma_without(s, name, s.len() as int);
    assert(kept.contains(s[k]));
    let j = choose|j: int| 0 <= j < kept.len() && kept[j] == s[k];
    assert(all[j] == s[k]);
    assert(sort_keys(all).len() == all.len());
    assert(places(order, all.len() as int));
    assert(order.contains(j as usize));
    let i = choose|i: int| 0 <= i < order.len() && order[i] == j as usize;
    assert(after[i] == s[k]);
}

/// Where a panel is and whether it shows.
#[derive(Clone, Copy, Debug)]
pub struct Panel {
    pub open: bool,
    pub float: bool,
    pub xy: Option<(i32, i32)>,
    pub size: Option<(i32, i32)>,
}

/// A named arrangement of the panel.
pub struct Layout {
    pub name: String,
    pub panel: Panel,
}

impl Clone for Layout {
    fn clone(&self) -> (r: Self)
        ensures
            r == *self,
    {
        Layout { name: self.name.clone(), panel: self.panel }
    }
}

impl Clone for TitlePreset {
    fn clone(&self) -> (r: Self)
        ensures
            r.name == self.name,
            r.style@ == self.style@,
    {
        TitlePreset { name: self.name.clone(), style: self.style.clone() }
    }
}

/// Layouts as entries.
pub open spec fn layout_entries(s: Seq<Layout>) -> Seq<(Seq<char>, Panel)> {
    Seq::new(s.len(), |k: int| (s[k].name@, s[k].panel))
}

/// Styles as entries.
pub open spec fn preset_entries(s: Seq<TitlePreset>) -> Seq<(Seq<char>, TitleView)> {
    Seq::new(s.len(), |k: int| (s[k].name@, s[k].style@))
}

fn lower_names(names: &Vec<String>) -> (r: Vec<String>)
    ensures
        r.len() == names.len(),
        forall|k: int| 0 <= k < r.len() ==> (#[trigger] r@[k])@ == lowercased(names@[k]@),
{
    let mut r: Vec<String> = Vec::new();
    let n: usize = names.len();
    let mut k: usize = 0;
    while k < n
        invariant
            k <= n,
            n == names.len(),
            r.len() == k,
            forall|j: int| 0 <= j < k ==> (#[trigger] r@[j])@ == lowercased(names@[j]@),
        decreases n - k,
    {
        r.push(lowercase(names[k].as_str()));
        k += 1;
    }
    r
}

/// Store a layout under its name.
pub fn shelve_layout(all: &mut Vec<Layout>, l: Layout)
    ensures
        shelved(layout_entries(old(all)@), l.name@, l.panel, layout_entries(final(all)@)),
{
    let ghost was = layout_entries(all@);
    let ghost name = l.name@;
    let ghost panel = l.panel;
    let n: usize = all.len();
    let mut kept: Vec<Layout> = Vec::new();
    let mut names: Vec<String> = Vec::new();
    let mut k: usize = 0;
    while k < n
        invariant
            k <= n,
            n == all.len(),
            was == layout_entries(all@),
            name == l.name@,
            layout_entries(kept@) == without(was, name, k as int),
            names.len() == kept.len(),
            forall|j: int| 0 <= j < kept.len() ==> (#[trigger] names@[j])@ == kept@[j].name@,
        decreases n - k,
    {
        if !same_text(all[k].name.as_str(), l.name.as_str()) {
            let item: Layout = all[k].clone();
            let ghost before = kept@;
            names.push(item.name.clone());
            kept.push(item);
            assert(layout_entries(kept@) =~= layout_entries(before).push(was[k as int]));
        }
        k += 1;
    }
    let ghost before = kept@;
    names.push(l.name.clone());
    kept.push(l);
    let ghost want = replaced(was, name, panel);
    assert(layout_entries(kept@) =~= want);
    let keys: Vec<String> = lower_names(&names);
    assert forall|j: int| 0 <= j < kept.len() implies (#[trigger] names@[j])@ == kept@[j].name@ by {
        if j < before.len() {
            assert(kept@[j] == before[j]);
        }
    }
    assert(texts(keys@) =~= sort_keys(want)) by {
        assert forall|j: int| 0 <= j < keys.len() implies texts(keys@)[j] == #[trigger] sort_keys(want)[j] by {
            assert(want[j].0 == layout_entries(kept@)[j].0);
            assert(names@[j]@ == kept@[j].name@);
            assert(keys@[j]@ == lowercased(names@[j]@));
        }
    }
    let order: Vec<usize> = order_by_text(&keys);
    let mut sorted: Vec<Layout> = Vec::new();
    let m: usize = order.len();
    let mut k: usize = 0;
    while k < m
        invariant
            k <= m,
            m == order.len(),
            places(order@, kept.len() as int),
            sorted.len() == k,
            forall|j: int| 0 <= j < k ==> #[trigger] sorted@[j] == kept@[order@[j] as int],
        decreases m - k,
    {
        assert(order@[k as int] < kept.len());
        sorted.push(kept[order[k]].clone());
        k += 1;
    }
    *all = sorted;
    assert(layout_entries(all@) =~= arranged(want, order@)) by {
        assert forall|j: int| 0 <= j < m implies layout_entries(all@)[j] == #[trigger] arranged(want, order@)[j] by {
            assert(order@[j] < kept.len());
            assert(sorted@[j] == kept@[order@[j] as int]);
            assert(layout_entries(kept@)[order@[j] as int] == want[order@[j] as int]);
        }
    }
    assert(by_text(order@, sort_keys(want)));
}

/// Store a style under its name.
pub fn shelve_preset(all: &mut Vec<TitlePreset>, p: TitlePreset)
    ensures
        shelved(preset_entries(old(all)@), p.name@, p.style@, preset_entries(final(all)@)),
{
    let ghost was = preset_entries(all@);
    let ghost name = p.name@;
    let ghost style = p.style@;
    let n: usize = all.len();
    let mut kept: Vec<TitlePreset> = Vec::new();
    let mut names: Vec<String> = Vec::new();
    let mut k: usize = 0;
    while k < n
        invariant
            k <= n,
            n == all.len(),
            was == preset_entries(all@),
            name == p.name@,
            preset_entries(kept@) == without(was, name, k as int),
            names.len() == kept.len(),
            forall|j: int| 0 <= j < kept.len() ==> (#[trigger] names@[j])@ == kept@[j].name@,
        decreases n - k,
    {
        if !same_text(all[k].name.as_str(), p.name.as_str()) {
            let item: TitlePreset = all[k].clone();
            let ghost before = kept@;
            names.push(item.name.clone());
            kept.push(item);
            assert(preset_entries(kept@) =~= preset_entries(before).push(was[k as int]));
        }
        k += 1;
    }
    let ghost before = kept@;
    names.push(p.name.clone());
    kept.push(p);
    let ghost want = replaced(was, name, style);
    assert(preset_entries(kept@) =~= want);
    let keys: Vec<String> = lower_names(&names);
    assert forall|j: int| 0 <= j < kept.len() implies (#[trigger] names@[j])@ == kept@[j].name@ by {
        if j < before.len() {
            assert(kept@[j] == before[j]);
        }
    }
    assert(texts(keys@) =~= sort_keys(want)) by {
        assert forall|j: int| 0 <= j < keys.len() implies texts(keys@)[j] == #[trigger] sort_keys(want)[j] by {
            assert(want[j].0 == preset_entries(kept@)[j].0);
            assert(names@[j]@ == kept@[j].name@);
            assert(keys@[j]@ == lowercased(names@[j]@));
        }
    }
    let order: Vec<usize> = order_by_text(&keys);
    let mut sorted: Vec<TitlePreset> = Vec::new();
    let m: usize = order.len();
    let mut k: usize = 0;
    while k < m
        invariant
            k <= m,
            m == order.len(),
            places(order@, kept.len() as int),
            sorted.len() == k,
            forall|j: int|
                0 <= j < k ==> (#[trigger] sorted@[j]).name == kept@[order@[j] as int].name && sorted@[j].style@
                    == kept@[order@[j] as int].style@,
        decreases m - k,
    {
        assert(order@[k as int] < kept.len());
        sorted.push(kept[order[k]].clone());
        k += 1;
    }
    *all = sorted;
    assert(preset_entries(all@) =~= arranged(want, order@)) by {
        assert forall|j: int| 0 <= j < m implies preset_entries(all@)[j] == #[trigger] arranged(want, order@)[j] by {
            assert(order@[j] < kept.len());
            assert(sorted@[j].name == kept@[order@[j] as int].name);
            assert(preset_entries(kept@)[order@[j] as int] == want[order@[j] as int]);
        }
    }
    assert(by_text(order@, sort_keys(want)));
}

impl Editor {
    /// Store the look of card `k` under a name that was typed; whether it was. A
    /// card that is not there, or a blank name, stores nothing.
    pub fn store_preset(&self, k: usize, typed: &str, all: &mut Vec<TitlePreset>) -> (r: Option<String>)
        requires
            self@.wf(),
        ensures
            if k < self@.reel.titles.len() && trimmed_text(typed@).len() > 0 {
                &&& r matches Some(name)
                &&& name@ == trimmed_text(typed@)
                &&& shelved(
                    preset_entries(old(all)@),
                    trimmed_text(typed@),
                    self@.reel.titles[k as int],
                    preset_entries(final(all)@),
                )
            } else {
                r is None && final(all)@ == old(all)@
            },
    {
        if k >= self.reel.titles.len() {
            return None;
        }
        let name: String = trim(typed);
        if name.as_str().is_empty() {
            return None;
        }
        shelve_preset(all, TitlePreset { name: name.clone(), style: self.reel.titles[k].clone() });
        Some(name)
    }

    /// The shelf of styles was written, or could not be.
    pub fn preset_saved(&mut self, name: &str, saved: Result<(), String>)
        requires
            old(self)@.wf(),
        ensures
            final(self)@ == old(self)@.says(
                match saved {
                    Ok(_) => "Saved the style \""@ + name@ + "\"."@,
                    Err(e) => "Could not save the preset: "@ + e@,
                },
            ),
            final(self)@.wf(),
    {
        self.status = match saved {
            Ok(_) => cat3("Saved the style \"", name, "\"."),
            Err(e) => cat2("Could not save the preset: ", e.as_str()),
        };
    }

    /// The shelf of layouts was written, or could not be.
    pub fn layout_saved(&mut self, name: &str, saved: Result<(), String>)
        requires
            old(self)@.wf(),
        ensures
            final(self)@ == old(self)@.says(
                match saved {
                    Ok(_) => "Saved layout \""@ + name@ + "\"."@,
                    Err(e) => "Could not save layout: "@ + e@,
                },
            ),
            final(self)@.wf(),
    {
        self.status = match saved {
            Ok(_) => cat3("Saved layout \"", name, "\"."),
            Err(e) => cat2("Could not save layout: ", e.as_str()),
        };
    }
}

impl Panel {
    /// Store the panel as it is under a name that was typed; whether it was.
    pub fn store_layout(&self, typed: &str, all: &mut Vec<Layout>) -> (r: Option<String>)
        ensures
            if trimmed_text(typed@).len() > 0 {
                &&& r matches Some(name)
                &&& name@ == trimmed_text(typed@)
                &&& shelved(
                    layout_entries(old(all)@),
                    trimmed_text(typed@),
                    *self,
                    layout_entries(final(all)@),
                )
            } else {
                r is None && final(all)@ == old(all)@
            },
    {
        let name: String = trim(typed);
        if name.as_str().is_empty() {
            return None;
        }
        shelve_layout(all, Layout { name: name.clone(), panel: *self });
        Some(name)
    }
}

/// The layouts that come with the program: the panel docked, put away, or floating.
pub open spec fn built_in_layouts() -> Seq<(Seq<char>, Panel)> {
    seq![
        ("Editing"@, Panel { open: true, float: false, xy: None, size: None }),
        ("Focus"@, Panel { open: false, float: false, xy: None, size: None }),
        ("Floating"@, Panel { open: true, float: true, xy: None, size: None }),
    ]
}

pub fn preset_layouts() -> (r: Vec<Layout>)
    ensures
        layout_entries(r@) == built_in_layouts(),
{
    let mut r: Vec<Layout> = Vec::new();
    r.push(Layout { name: "Editing".to_owned(), panel: Panel { open: true, float: false, xy: None, size: None } });
    r.push(Layout { name: "Focus".to_owned(), panel: Panel { open: false, float: false, xy: None, size: None } });
    r.push(Layout { name: "Floating".to_owned(), panel: Panel { open: true, float: true, xy: None, size: None } });
    assert(layout_entries(r@) =~= built_in_layouts());
    r
}

/// Law: a shelf is in the order of its names, whatever their case, and holds one entry
/// for a name that was put on it: no entry is lost but those it replaces.
pub proof fn law_shelf_is_in_order<T>(s: Seq<(Seq<char>, T)>, name: Seq<char>, item: T, after: Seq<(Seq<char>, T)>)
    requires
        shelved(s, name, item, after),
        s.len() < usize::MAX,
    ensures
        forall|i: int, j: int|
            0 <= i < j < after.len() ==> crate::sorting::text_before(
                lowercased((#[trigger] after[i]).0),
                lowercased((#[trigger] after[j]).0),
            ) || lowercased(after[i].0) == lowercased(after[j].0),
        after.len() <= s.len() + 1,
        (forall|k: int| 0 <= k < s.len() ==> (#[trigger] s[k]).0 != name) ==> after.len() == s.len() + 1,
        (exists|k: int| 0 <= k < s.len() && (#[trigger] s[k]).0 == name) ==> after.len() <= s.len(),
{
    let all = replaced(s, name, item);
    let order = choose|order: Seq<usize>| #[trigger] by_text(order, sort_keys(all)) && after == arranged(all, order);
    lemma_without_len(s, name, s.len() as int);
    assert forall|i: int, j: int| 0 <= i < j < after.len() implies crate::sorting::text_before(
        lowercased((#[trigger] after[i]).0),
        lowercased((#[trigger] after[j]).0),
    ) || lowercased(after[i].0) == lowercased(after[j].0) by {
        assert(order[i] < all.len() && order[j] < all.len());
        assert(sort_keys(all)[order[i] as int] == lowercased(after[i].0));
        assert(sort_keys(all)[order[j] as int] == lowercased(after[j].0));
    }
}

proof fn lemma_without_len<T>(s: Seq<(Seq<char>, T)>, name: Seq<char>, n: int)
    requires
        0 <= n <= s.len(),
    ensures
        without(s, name, n).len() <= n,
        (forall|k: int| 0 <= k < n ==> (#[trigger] s[k]).0 != name) ==> without(s, name, n).len() == n,
        (exists|k: int| 0 <= k < n && (#[trigger] s[k]).0 == name) ==> without(s, name, n).len() < n,
    decreases n,
{
    if n > 0 {
        lemma_without_len(s, name, n - 1);
    }
}

} // verus!
