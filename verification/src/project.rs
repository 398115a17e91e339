//! Opening, saving and exporting: what is named, counted and reported.

use crate::cuts::{poster_of, Poster};
use crate::editor::{Editor, EditorView};
use crate::model::{Reel, Snapshot};
use crate::sorting::{comes_before, law_text_order, law_text_order_carries, text_before};
use crate::text::{cat2, cat3, cat4, cat5, decimal, digits, is_white, same_text, texts, trim, trim_end, trim_start, trimmed_text};
use vstd::prelude::*;

verus! {

/// The sources a reel refers to: those of its clips, its cutaways and its beds.
pub open spec fn sources(r: Reel) -> Seq<Seq<char>> {
    media(r) + Seq::new(r.audios.len(), |k: int| r.audios[k].path@)
}

/// The pictures a reel refers to: those of its clips, then those of its cutaways.
pub open spec fn media(r: Reel) -> Seq<Seq<char>> {
    Seq::new(r.clips.len(), |k: int| r.clips[k].path@) + Seq::new(r.overlays.len(), |k: int| r.overlays[k].path@)
}

/// The distinct sources of the clips that have sound.
pub open spec fn is_voiced(r: Reel, path: Seq<char>) -> bool {
    exists|k: int| 0 <= k < r.clips.len() && (#[trigger] r.clips[k]).has_audio && r.clips[k].path@ == path
}

impl Snapshot {
    /// The pictures the reel refers to.
    pub fn media_paths(&self) -> (r: Vec<String>)
        ensures
            texts(r@) == media(self@),
    {
        let mut r: Vec<String> = Vec::new();
        let n: usize = self.clips.len();
        let mut k: usize = 0;
        while k < n
            invariant
                k <= n,
                n == self.clips.len(),
                texts(r@) == Seq::new(k as nat, |j: int| self.clips@[j].path@),
            decreases n - k,
        {
            let ghost was = r@;
            r.push(self.clips[k].path.clone());
            assert(texts(r@) =~= texts(was).push(self.clips@[k as int].path@));
            k += 1;
            assert(texts(r@) =~= Seq::new(k as nat, |j: int| self.clips@[j].path@));
        }
        let ghost front = texts(r@);
        let m: usize = self.overlays.len();
        let mut k: usize = 0;
        assert(texts(r@) =~= front + Seq::new(0, |j: int| self.overlays@[j].path@));
        while k < m
            invariant
                k <= m,
                m == self.overlays.len(),
                texts(r@) == front + Seq::new(k as nat, |j: int| self.overlays@[j].path@),
            decreases m - k,
        {
            let ghost was = r@;
            r.push(self.overlays[k].path.clone());
            assert(texts(r@) =~= texts(was).push(self.overlays@[k as int].path@));
            k += 1;
            assert(texts(r@) =~= front + Seq::new(k as nat, |j: int| self.overlays@[j].path@));
        }
        assert(texts(r@) =~= media(self@));
        r
    }

    /// The sources the reel refers to.
    pub fn source_paths(&self) -> (r: Vec<String>)
        ensures
            texts(r@) == sources(self@),
    {
        let mut r: Vec<String> = self.media_paths();
        let ghost front = texts(r@);
        let n: usize = self.audios.len();
        let mut k: usize = 0;
        assert(texts(r@) =~= front + Seq::new(0, |j: int| self.audios@[j].path@));
        while k < n
            invariant
                k <= n,
                n == self.audios.len(),
                texts(r@) == front + Seq::new(k as nat, |j: int| self.audios@[j].path@),
            decreases n - k,
        {
            let ghost was = r@;
            r.push(self.audios[k].path.clone());
            assert(texts(r@) =~= texts(was).push(self.audios@[k as int].path@));
            k += 1;
            assert(texts(r@) =~= front + Seq::new(k as nat, |j: int| self.audios@[j].path@));
        }
        assert(texts(r@) =~= sources(self@));
        r
    }

    /// The sources of the clips that have sound, each once and in order.
    pub fn voiced_paths(&self) -> (r: Vec<String>)
        ensures
            strictly_rising(texts(r@)),
            forall|p: Seq<char>| #[trigger] texts(r@).contains(p) <==> is_voiced(self@, p),
    {
        let mut all: Vec<String> = Vec::new();
        let n: usize = self.clips.len();
        let mut k: usize = 0;
        while k < n
            invariant
                k <= n,
                n == self.clips.len(),
                strictly_rising(texts(all@)),
                forall|p: Seq<char>| #[trigger]
                    texts(all@).contains(p) <==> exists|j: int|
                        0 <= j < k && (#[trigger] self@.clips[j]).has_audio && self@.clips[j].path@ == p,
            decreases n - k,
        {
            let ghost was = texts(all@);
            let ghost path = self.clips@[k as int].path@;
            if self.clips[k].has_audio {
                shelve(&mut all, self.clips[k].path.clone());
            }
            assert forall|p: Seq<char>| #[trigger] texts(all@).contains(p) <==> exists|j: int|
                0 <= j < k + 1 && (#[trigger] self@.clips[j]).has_audio && self@.clips[j].path@ == p by {
                if texts(all@).contains(p) {
                    if was.contains(p) {
                        let j = choose|j: int|
                            0 <= j < k && (#[trigger] self@.clips[j]).has_audio && self@.clips[j].path@ == p;
                        assert(0 <= j < k + 1 && self@.clips[j].has_audio && self@.clips[j].path@ == p);
                    } else {
                        assert(self@.clips[k as int].has_audio && self@.clips[k as int].path@ == p);
                    }
                }
                if exists|j: int|
                    0 <= j < k + 1 && (#[trigger] self@.clips[j]).has_audio && self@.clips[j].path@ == p {
                    let j = choose|j: int|
                        0 <= j < k + 1 && (#[trigger] self@.clips[j]).has_audio && self@.clips[j].path@ == p;
                    if j < k {
                        assert(was.contains(p));
                    }
                }
            }
            k += 1;
        }
        assert forall|p: Seq<char>| #[trigger] texts(all@).contains(p) <==> is_voiced(self@, p) by {}
        all
    }

    /// The posters of all clips.
    pub fn all_posters(&self) -> (r: Vec<Poster>)
        ensures
            r.len() == self@.clips.len(),
            forall|i: int| 0 <= i < r.len() ==> poster_of(self@.clips, i, #[trigger] r@[i]),
    {
        let mut r: Vec<Poster> = Vec::new();
        let n: usize = self.clips.len();
        let mut k: usize = 0;
        while k < n
            invariant
                k <= n,
                n == self.clips.len(),
                r.len() == k,
                forall|i: int| 0 <= i < k ==> poster_of(self@.clips, i, #[trigger] r@[i]),
            decreases n - k,
        {
            r.push(self.clips[k].poster(k));
            k += 1;
        }
        r
    }
}

/// Texts in order, none twice.
pub open spec fn strictly_rising(s: Seq<Seq<char>>) -> bool {
    forall|i: int, j: int| 0 <= i < j < s.len() ==> text_before(#[trigger] s[i], #[trigger] s[j])
}

/// Put a text where it belongs, unless it is there.
fn shelve(all: &mut Vec<String>, t: String)
    requires
        strictly_rising(texts(old(all)@)),
    ensures
        strictly_rising(texts(final(all)@)),
        forall|p: Seq<char>| #[trigger]
            texts(final(all)@).contains(p) <==> texts(old(all)@).contains(p) || p == t@,
{
    let ghost was = texts(all@);
    let mut p: usize = 0;
    while p < all.len() && comes_before(all[p].as_str(), t.as_str())
        invariant
            p <= all.len(),
            was == texts(all@),
            forall|j: int| 0 <= j < p ==> text_before(#[trigger] was[j], t@),
        ensures
            p < all.len() ==> !text_before(was[p as int], t@),
        decreases all.len() - p,
    {
        assert(was[p as int] == all@[p as int]@);
        p += 1;
    }
    if p < all.len() && same_text(all[p].as_str(), t.as_str()) {
        assert(was[p as int] == t@);
        return;
    }
    let ghost text = t@;
    let ghost before = all@;
    all.insert(p, t);
    let ghost now = texts(all@);
    assert(now =~= was.insert(p as int, text));
    proof {
        if p < was.len() {
            law_text_order(was[p as int], text);
            assert(text_before(text, was[p as int]));
        }
        assert forall|i: int, j: int| 0 <= i < j < now.len() implies text_before(
            #[trigger] now[i],
            #[trigger] now[j],
        ) by {
            let a = if i < p { i } else { i - 1 };
            let b = if j < p { j } else { j - 1 };
            if i == p {
                assert(now[j] == was[b]);
                if b > p {
                    assert(text_before(was[p as int], was[b]));
                    law_text_order_carries(text, was[p as int], was[b]);
                }
            } else if j == p {
                assert(now[i] == was[i]);
            } else {
                assert(now[i] == was[a] && now[j] == was[b]);
            }
        }
        assert forall|q: Seq<char>| #[trigger] now.contains(q) <==> was.contains(q) || q == text by {
            if now.contains(q) {
                let i = choose|i: int| 0 <= i < now.len() && now[i] == q;
                if i < p {
                    assert(was[i] == q);
                } else if i > p {
                    assert(was[i - 1] == q);
                }
            }
            if was.contains(q) {
                let i = choose|i: int| 0 <= i < was.len() && was[i] == q;
                if i < p {
                    assert(now[i] == q);
                } else {
                    assert(now[i + 1] == q);
                }
            }
            assert(now[p as int] == text);
        }
    }
}

/// A text with every slash made a dash.
pub open spec fn dashed(s: Seq<char>) -> Seq<char> {
    Seq::new(s.len(), |k: int| if s[k] == '/' { '-' } else { s[k] })
}

/// The name an export is offered under.
pub open spec fn named_for_export(typed: Seq<char>) -> Seq<char> {
    let name = trimmed_text(dashed(typed));
    if name.len() == 0 { "morreel"@ } else { name }
}

/// The name an export is offered under: slashes would make directories of it.
pub fn export_name(typed: &str) -> (r: String)
    ensures
        r@ == named_for_export(typed@),
{
    let n: usize = typed.unicode_len();
    let mut plain: String = "".to_owned();
    proof {
        reveal_strlit("");
        reveal_strlit("-");
    }
    let mut k: usize = 0;
    assert(plain@ =~= dashed(typed@).take(0));
    while k < n
        invariant
            k <= n,
            n == typed@.len(),
            plain@ == dashed(typed@).take(k as int),
        decreases n - k,
    {
        proof {
            reveal_strlit("-");
        }
        let c: char = typed.get_char(k);
        if c == '/' {
            plain.append("-");
        } else {
            plain.append(typed.substring_char(k, k + 1));
        }
        k += 1;
        assert(plain@ =~= dashed(typed@).take(k as int));
    }
    assert(dashed(typed@).take(n as int) =~= dashed(typed@));
    let name: String = trim(plain.as_str());
    if name.as_str().is_empty() { "morreel".to_owned() } else { name }
}

proof fn lemma_head(s: Seq<char>, k: int)
    requires
        0 <= k < trim_start(s).len(),
    ensures
        s.contains(trim_start(s)[k]),
    decreases s.len(),
{
    if is_white(s[0]) && s.len() > 0 {
        lemma_head(s.drop_first(), k);
        let c = trim_start(s)[k];
        let i = choose|i: int| 0 <= i < s.drop_first().len() && s.drop_first()[i] == c;
        assert(s[i + 1] == c);
    } else {
        assert(s[k] == trim_start(s)[k]);
    }
}

proof fn lemma_tail(s: Seq<char>, k: int)
    requires
        0 <= k < trim_end(s).len(),
    ensures
        k < s.len(),
        trim_end(s)[k] == s[k],
    decreases s.len(),
{
    if s.len() > 0 && is_white(s.last()) {
        lemma_tail(s.drop_last(), k);
    }
}

/// Law: an export's name has no slash in it and is never empty.
pub proof fn law_export_names_are_plain(typed: Seq<char>, k: int)
    requires
        0 <= k < named_for_export(typed).len(),
    ensures
        named_for_export(typed).len() > 0,
        named_for_export(typed)[k] != '/',
{
    reveal_strlit("morreel");
    let name = trimmed_text(dashed(typed));
    if name.len() > 0 {
        let plain = dashed(typed);
        lemma_tail(trim_start(plain), k);
        lemma_head(plain, k);
        let i = choose|i: int| 0 <= i < plain.len() && plain[i] == name[k];
        assert(plain[i] != '/');
    }
}

/// What the window says it shows: the project's own name, or the format.
pub open spec fn subtitle_text(title: Seq<char>) -> Seq<char> {
    let name = trimmed_text(title);
    if name.len() == 0 { "portrait 9:16"@ } else { name + " · 9:16"@ }
}

pub fn subtitle(title: &str) -> (r: String)
    ensures
        r@ == subtitle_text(title@),
{
    let name: String = trim(title);
    if name.as_str().is_empty() { "portrait 9:16".to_owned() } else { cat2(name.as_str(), " · 9:16") }
}

impl EditorView {
    /// After a project was opened, with some of its sources missing.
    pub open spec fn project_opened(self, r: Reel, name: Seq<char>, missing: nat) -> EditorView {
        self.pushed(""@).restored(r).says(
            if missing > 0 {
                "Opened "@ + name + " — "@ + digits(missing) + " source file(s) are missing."@
            } else {
                "Opened "@ + name
            },
        )
    }
}

impl Editor {
    /// Whether an export, a preview or a transcription may start: there is
    /// something to render, and nothing is being rendered.
    pub fn can_render(&self, busy: bool) -> (r: bool)
        ensures
            r == (self@.reel.clips.len() > 0 && !busy),
    {
        self.reel.clips.len() > 0 && !busy
    }

    /// A project file was read, or could not be. Opening is undone like any edit.
    pub fn land_project(&mut self, opened: Result<(Snapshot, usize), String>, name: &str)
        requires
            old(self)@.wf(),
            opened matches Ok(p) ==> p.0@.wf(),
        ensures
            final(self)@ == match opened {
                Ok((s, missing)) => old(self)@.project_opened(s@, name@, missing as nat),
                Err(e) => old(self)@.says("Could not open "@ + name@ + ": "@ + e@),
            },
            final(self)@.wf(),
    {
        match opened {
            Err(e) => {
                self.status = cat4("Could not open ", name, ": ", e.as_str());
            },
            Ok((s, missing)) => {
                self.push_undo("");
                self.restore(s);
                self.status = if missing > 0 {
                    let n: String = decimal(missing as u128);
                    cat5("Opened ", name, " — ", n.as_str(), " source file(s) are missing.")
                } else {
                    cat2("Opened ", name)
                };
            },
        }
    }

    /// A file was written, or could not be: what is said before its path, and
    /// before the failure.
    pub fn land_write(&mut self, done: &str, failed: &str, written: Result<String, String>)
        requires
            old(self)@.wf(),
        ensures
            final(self)@ == old(self)@.says(
                match written {
                    Ok(path) => done@ + path@,
                    Err(e) => failed@ + e@,
                },
            ),
            final(self)@.wf(),
    {
        self.status = match written {
            Ok(path) => cat2(done, path.as_str()),
            Err(e) => cat2(failed, e.as_str()),
        };
    }

    /// An export ended; whether what it left behind is to be removed.
    pub fn land_export(&mut self, ended: Result<String, String>) -> (r: bool)
        requires
            old(self)@.wf(),
        ensures
            r == (ended matches Err(e) && e@ == "cancelled"@),
            final(self)@ == old(self)@.says(
                match ended {
                    Ok(path) => "Exported "@ + path@,
                    Err(e) => if e@ == "cancelled"@ {
                        "Export cancelled."@
                    } else {
                        "Export failed: "@ + e@
                    },
                },
            ),
            final(self)@.wf(),
    {
        match ended {
            Ok(path) => {
                self.status = cat2("Exported ", path.as_str());
                false
            },
            Err(e) => {
                if same_text(e.as_str(), "cancelled") {
                    self.status = "Export cancelled.".to_owned();
                    true
                } else {
                    self.status = cat2("Export failed: ", e.as_str());
                    false
                }
            },
        }
    }

    /// A full preview was rendered and handed to a player, or was not.
    pub fn land_preview(&mut self, ended: Result<Result<String, String>, String>)
        requires
            old(self)@.wf(),
        ensures
            final(self)@ == old(self)@.says(
                match ended {
                    Ok(Ok(player)) => "Playing preview in "@ + player@ + "."@,
                    Ok(Err(e)) => "Preview rendered but "@ + e@,
                    Err(e) => if e@ == "cancelled"@ {
                        "Preview render cancelled."@
                    } else {
                        "Preview render failed: "@ + e@
                    },
                },
            ),
            final(self)@.wf(),
    {
        self.status = match ended {
            Ok(Ok(player)) => cat3("Playing preview in ", player.as_str(), "."),
            Ok(Err(e)) => cat2("Preview rendered but ", e.as_str()),
            Err(e) => if same_text(e.as_str(), "cancelled") {
                "Preview render cancelled.".to_owned()
            } else {
                cat2("Preview render failed: ", e.as_str())
            },
        };
    }
}

/// Law: opening a project can be undone: the reel before it comes back.
pub proof fn law_opening_can_be_undone(e: EditorView, r: Reel, name: Seq<char>, missing: nat)
    ensures
        e.project_opened(r, name, missing).undone().reel == crate::lanes::normal(e.reel),
{
    reveal_strlit("");
    crate::editor::law_undo_takes_an_edit_back(e, ""@, e.project_opened(r, name, missing));
}

/// Law: the sources of a reel are the files of its clips, cutaways and beds, in that
/// order, one for each; the media are those of clips and cutaways.
pub proof fn law_sources(r: Reel, k: int)
    ensures
        sources(r).len() == r.clips.len() + r.overlays.len() + r.audios.len(),
        media(r).len() == r.clips.len() + r.overlays.len(),
        0 <= k < r.clips.len() ==> sources(r)[k] == r.clips[k].path@ && media(r)[k] == r.clips[k].path@,
        0 <= k < r.overlays.len() ==> sources(r)[r.clips.len() + k] == r.overlays[k].path@ && media(r)[r.clips.len() + k]
            == r.overlays[k].path@,
        0 <= k < r.audios.len() ==> sources(r)[r.clips.len() + r.overlays.len() + k] == r.audios[k].path@,
{
}

} // verus!
