//! The effects palette: which effects it shows, under which headings.

use crate::editor::{Editor, EditorView};
use crate::model::Sel;
use crate::text::{same_text, texts};
use crate::time::Time;
use vstd::prelude::*;

verus! {

/// An effect as it is listed.
pub struct Effect {
    pub category: String,
    pub name: String,
}

/// One heading of the palette with the names of its effects.
pub struct EffectGroup {
    pub category: String,
    pub names: Vec<String>,
}

/// The headings of the first `n` effects, each where it first comes. Keyers are
/// picked elsewhere.
pub open spec fn headings(s: Seq<Effect>, n: int) -> Seq<Seq<char>>
    decreases n,
{
    if n <= 0 {
        Seq::empty()
    } else if s[n - 1].category@ == "Key"@ || headings(s, n - 1).contains(s[n - 1].category@) {
        headings(s, n - 1)
    } else {
        headings(s, n - 1).push(s[n - 1].category@)
    }
}

/// The effects among the first `n` that belong under a heading, in order.
pub open spec fn members(s: Seq<Effect>, heading: Seq<char>, n: int) -> Seq<Seq<char>>
    decreases n,
{
    if n <= 0 {
        Seq::empty()
    } else if s[n - 1].category@ == heading {
        members(s, heading, n - 1).push(s[n - 1].name@)
    } else {
        members(s, heading, n - 1)
    }
}

/// Whether group `g` is the heading `h` with its effects among the first `n`.
pub open spec fn is_group(g: EffectGroup, s: Seq<Effect>, h: Seq<char>, n: int) -> bool {
    g.category@ == h && texts(g.names@) == members(s, h, n)
}

/// The place of a heading among the groups.
fn find_group(groups: &Vec<EffectGroup>, category: &str) -> (r: usize)
    ensures
        r <= groups.len(),
        r < groups.len() ==> groups@[r as int].category@ == category@,
        forall|j: int| 0 <= j < r ==> (#[trigger] groups@[j]).category@ != category@,
{
    let mut g: usize = 0;
    while g < groups.len()
        invariant
            g <= groups.len(),
            forall|j: int| 0 <= j < g ==> (#[trigger] groups@[j]).category@ != category@,
        decreases groups.len() - g,
    {
        if same_text(groups[g].category.as_str(), category) {
            return g;
        }
        g += 1;
    }
    g
}

/// The effects under their headings.
pub fn effect_groups(all: &Vec<Effect>) -> (r: Vec<EffectGroup>)
    ensures
        r.len() == headings(all@, all.len() as int).len(),
        forall|g: int|
            0 <= g < r.len() ==> is_group(
                #[trigger] r@[g],
                all@,
                headings(all@, all.len() as int)[g],
                all.len() as int,
            ),
{
    let mut groups: Vec<EffectGroup> = Vec::new();
    let n: usize = all.len();
    let ghost s = all@;
    let mut k: usize = 0;
    while k < n
        invariant
            k <= n,
            n == all.len(),
            s == all@,
            groups.len() == headings(s, k as int).len(),
            forall|g: int|
                0 <= g < groups.len() ==> is_group(#[trigger] groups@[g], s, headings(s, k as int)[g], k as int),
            no_twice(headings(s, k as int)),
            !headings(s, k as int).contains("Key"@),
        decreases n - k,
    {
        let ghost before = headings(s, k as int);
        let ghost was = groups@;
        let ghost h = s[k as int].category@;
        if !same_text(all[k].category.as_str(), "Key") {
            let g: usize = find_group(&groups, all[k].category.as_str());
            proof {
                if before.contains(h) {
                    let j = choose|j: int| 0 <= j < before.len() && before[j] == h;
                    assert(is_group(was[j], s, before[j], k as int));
                    assert(g < groups.len());
                }
                if g < groups.len() {
                    assert(is_group(was[g as int], s, before[g as int], k as int));
                    assert(before[g as int] == h);
                    assert(before.contains(h));
                }
            }
            if g < groups.len() {
                let name: String = all[k].name.clone();
                groups[g].names.push(name);
                assert forall|j: int| 0 <= j < groups.len() implies is_group(
                    #[trigger] groups@[j],
                    s,
                    headings(s, k + 1)[j],
                    k + 1,
                ) by {
                    assert(is_group(was[j], s, before[j], k as int));
                    if j == g {
                        assert(texts(groups@[j].names@) =~= texts(was[j].names@).push(name@));
                    } else {
                        assert(groups@[j] == was[j]);
                        assert(before[j] != h);
                    }
                }
            } else {
                let names: Vec<String> = vec![all[k].name.clone()];
                assert(texts(names@) =~= seq![s[k as int].name@]);
                proof {
                    lemma_no_members(s, h, k as int);
                    assert(members(s, h, k + 1) =~= seq![s[k as int].name@]);
                }
                groups.push(EffectGroup { category: all[k].category.clone(), names });
                assert forall|j: int| 0 <= j < groups.len() implies is_group(
                    #[trigger] groups@[j],
                    s,
                    headings(s, k + 1)[j],
                    k + 1,
                ) by {
                    if j < was.len() {
                        assert(is_group(was[j], s, before[j], k as int));
                        assert(groups@[j] == was[j]);
                        assert(before.contains(before[j]));
                    }
                }
            }
        } else {
            assert forall|j: int| 0 <= j < groups.len() implies is_group(
                #[trigger] groups@[j],
                s,
                headings(s, k + 1)[j],
                k + 1,
            ) by {
                assert(is_group(was[j], s, before[j], k as int));
                assert(before.contains(before[j]));
            }
        }
        proof {
            lemma_headings(s, k + 1);
        }
        k += 1;
    }
    groups
}

/// Nothing comes twice.
pub open spec fn no_twice(s: Seq<Seq<char>>) -> bool {
    forall|i: int, j: int| 0 <= i < j < s.len() ==> #[trigger] s[i] != #[trigger] s[j]
}

proof fn lemma_headings(s: Seq<Effect>, n: int)
    ensures
        no_twice(headings(s, n)),
        !headings(s, n).contains("Key"@),
    decreases n,
{
    if n > 0 {
        lemma_headings(s, n - 1);
        let before = headings(s, n - 1);
        let h = s[n - 1].category@;
        if h != "Key"@ && !before.contains(h) {
            assert forall|i: int, j: int| 0 <= i < j < before.push(h).len() implies #[trigger] before.push(h)[i]
                != #[trigger] before.push(h)[j] by {
                if j == before.len() {
                    assert(before.contains(before[i]));
                }
            }
        }
    }
}

proof fn lemma_no_members(s: Seq<Effect>, h: Seq<char>, n: int)
    requires
        h != "Key"@,
        !headings(s, n).contains(h),
    ensures
        members(s, h, n) == Seq::<Seq<char>>::empty(),
    decreases n,
{
    if n > 0 {
        let before = headings(s, n - 1);
        let last = s[n - 1].category@;
        assert(!before.contains(h)) by {
            if before.contains(h) && last != "Key"@ && !before.contains(last) {
                let j = choose|j: int| 0 <= j < before.len() && before[j] == h;
                assert(before.push(last)[j] == h);
            }
        }
        if last == h {
            assert(before.push(last)[before.len() as int] == h);
        }
        lemma_no_members(s, h, n - 1);
    }
}

/// Law: every effect but the keyers is shown, under its own heading, and no heading
/// comes twice.
pub proof fn law_every_look_is_shown(s: Seq<Effect>, k: int)
    requires
        0 <= k < s.len(),
    ensures
        no_twice(headings(s, s.len() as int)),
        !headings(s, s.len() as int).contains("Key"@),
        s[k].category@ != "Key"@ ==> headings(s, s.len() as int).contains(s[k].category@),
        members(s, s[k].category@, s.len() as int).contains(s[k].name@),
{
    lemma_headings(s, s.len() as int);
    lemma_shown(s, k, s.len() as int);
}

proof fn lemma_shown(s: Seq<Effect>, k: int, n: int)
    requires
        0 <= k < n <= s.len(),
    ensures
        s[k].category@ != "Key"@ ==> headings(s, n).contains(s[k].category@),
        members(s, s[k].category@, n).contains(s[k].name@),
    decreases n,
{
    let h = s[k].category@;
    let before = headings(s, n - 1);
    let last = s[n - 1].category@;
    let names = members(s, h, n - 1);
    if k < n - 1 {
        lemma_shown(s, k, n - 1);
        if h != "Key"@ {
            let j = choose|j: int| 0 <= j < before.len() && before[j] == h;
            assert(headings(s, n)[j] == h);
        }
        let j = choose|j: int| 0 <= j < names.len() && names[j] == s[k].name@;
        assert(members(s, h, n)[j] == s[k].name@);
    } else {
        if h != "Key"@ && !before.contains(h) {
            assert(headings(s, n)[before.len() as int] == h);
        }
        assert(members(s, h, n)[names.len() as int] == s[k].name@);
    }
}

impl EditorView {
    /// The frame the palette tries its effects on: the first kept one of the
    /// selected picture, from its stand-in file where there is one.
    pub open spec fn sample(self) -> Option<(String, Time, String)> {
        match self.selected {
            Some(Sel::Main(i)) => {
                let c = self.reel.clips[i as int];
                Some((if c.proxy@.len() > 0 { c.proxy } else { c.path }, c.in_s, c.framing))
            },
            Some(Sel::Over(j)) => {
                let o = self.reel.overlays[j as int];
                Some((if o.proxy@.len() > 0 { o.proxy } else { o.path }, o.in_s, o.framing))
            },
            _ => None,
        }
    }
}

impl Editor {
    /// The frame the palette tries its effects on.
    pub fn palette_sample(&self) -> (r: Option<(String, Time, String)>)
        requires
            self@.wf(),
        ensures
            r == self@.sample(),
    {
        match self.selected {
            Some(Sel::Main(i)) => {
                let c = &self.reel.clips[i];
                let path: String = if c.proxy.as_str().is_empty() { c.path.clone() } else { c.proxy.clone() };
                Some((path, c.in_s, c.framing.clone()))
            },
            Some(Sel::Over(j)) => {
                let o = &self.reel.overlays[j];
                let path: String = if o.proxy.as_str().is_empty() { o.path.clone() } else { o.proxy.clone() };
                Some((path, o.in_s, o.framing.clone()))
            },
            _ => None,
        }
    }
}

/// Law: the looks are tried on the selected picture, at its in point and from its proxy
/// where it has one; where no picture is selected there is nothing to try them on.
pub proof fn law_sample(e: EditorView)
    ensures
        e.selected matches Some(Sel::Main(i)) ==> {
            let c = e.reel.clips[i as int];
            e.sample() matches Some(p) && p.1 == c.in_s && p.2 == c.framing && p.0 == (if c.proxy@.len() > 0 {
                c.proxy
            } else {
                c.path
            })
        },
        e.selected matches Some(Sel::Over(j)) ==> {
            let o = e.reel.overlays[j as int];
            e.sample() matches Some(p) && p.1 == o.in_s && p.2 == o.framing && p.0 == (if o.proxy@.len() > 0 {
                o.proxy
            } else {
                o.path
            })
        },
        e.selected is None || e.selected->0 is Aud || e.selected->0 is Title || e.selected->0 is Adjust ==> e.sample() is None,
{
}

} // verus!
