//! Background work: the latest preview request wins, proxies are made one after
//! another, and a title is rendered once typing settles.

use crate::editor::{Editor, EditorView};
use crate::model::{
    sound, overlays_ok, audios_ok, AudioItem, Clip, OverlayItem, Reel, Snapshot, TitleItem,
    TitleView,
};
use vstd::prelude::*;

verus! {

/// At most one request waits; a newer one takes its place.
pub struct Latest<T> {
    pub pending: Option<T>,
    /// Whether a worker is at it.
    pub busy: bool,
}

impl<T> Latest<T> {
    pub fn new() -> (r: Self)
        ensures
            r.pending is None,
            !r.busy,
    {
        Latest { pending: None, busy: false }
    }

    /// Ask for work. Whether a worker has to be started is returned.
    pub fn request(&mut self, job: T) -> (start: bool)
        ensures
            start == !old(self).busy,
            final(self).busy,
            final(self).pending == Some(job),
    {
        self.pending = Some(job);
        if self.busy {
            return false;
        }
        self.busy = true;
        true
    }

    /// The worker asks what is next; with nothing left it goes home.
    pub fn next(&mut self) -> (r: Option<T>)
        ensures
            r == old(self).pending,
            final(self).pending is None,
            final(self).busy == (old(self).busy && r is Some),
    {
        let job: Option<T> = self.pending.take();
        if job.is_none() {
            self.busy = false;
        }
        job
    }
}

/// Jobs that are done one after another.
pub struct Line {
    pub waiting: Vec<String>,
    pub busy: bool,
}

impl Line {
    pub fn new() -> (r: Self)
        ensures
            r.waiting@.len() == 0,
            !r.busy,
    {
        Line { waiting: Vec::new(), busy: false }
    }

    /// Line a job up. Whether a worker has to be started is returned.
    pub fn queue_proxy(&mut self, path: String) -> (start: bool)
        ensures
            start == !old(self).busy,
            final(self).busy,
            final(self).waiting@ == old(self).waiting@.push(path),
    {
        self.waiting.push(path);
        if self.busy {
            return false;
        }
        self.busy = true;
        true
    }

    /// The worker asks what is next: the job that has waited longest.
    pub fn next(&mut self) -> (r: Option<String>)
        ensures
            serves(old(self).waiting@, old(self).busy, r, final(self).waiting@, final(self).busy),
    {
        if self.waiting.len() == 0 {
            self.busy = false;
            return None;
        }
        let job: String = self.waiting.remove(0);
        assert(self.waiting@ =~= old(self).waiting@.subrange(1, old(self).waiting@.len() as int));
        Some(job)
    }
}

/// Which of a run of changes is the last.
#[derive(Clone, Copy, PartialEq, Eq, Structural, Debug)]
pub struct Settling {
    pub last: u64,
}

impl Settling {
    /// Something changed; the number of the change is returned.
    pub fn touch(&mut self) -> (r: u64)
        requires
            old(self).last < u64::MAX,
        ensures
            r == old(self).last + 1,
            final(self).last == r,
    {
        self.last = self.last + 1;
        self.last
    }

    /// Whether nothing changed since change `n`.
    pub fn settled(&self, n: u64) -> (r: bool)
        ensures
            r == (self.last == n),
    {
        self.last == n
    }
}

/// A reel whose pictures from `src` scrub through `proxy`.
#[verifier::opaque]
pub open spec fn proxied(r: Reel, src: Seq<char>, proxy: String) -> Reel {
    Reel {
        clips: Seq::new(
            r.clips.len(),
            |i: int| if r.clips[i].path@ == src { Clip { proxy, ..r.clips[i] } } else { r.clips[i] },
        ),
        overlays: Seq::new(
            r.overlays.len(),
            |i: int|
                if r.overlays[i].path@ == src { OverlayItem { proxy, ..r.overlays[i] } } else { r.overlays[i] },
        ),
        ..r
    }
}

/// A track whose clips from `src` show waveform `wave`.
pub open spec fn clips_waved(s: Seq<Clip>, src: Seq<char>, wave: String) -> Seq<Clip> {
    Seq::new(s.len(), |i: int| if s[i].path@ == src { Clip { wave, ..s[i] } } else { s[i] })
}

/// Beds of which those from `src` show waveform `wave`.
pub open spec fn beds_waved(s: Seq<AudioItem>, src: Seq<char>, wave: String) -> Seq<AudioItem> {
    Seq::new(s.len(), |i: int| if s[i].path@ == src { AudioItem { wave, ..s[i] } } else { s[i] })
}

impl Snapshot {
    fn take_proxy(&mut self, src: &String, proxy: &String)
        requires
            old(self)@.wf(),
        ensures
            final(self)@ == proxied(old(self)@, src@, *proxy),
            final(self)@.wf(),
    {
        let ghost was = self@;
        let ghost to = proxied(was, src@, *proxy);
        proof {
            reveal(proxied);
            reveal(sound);
            reveal(overlays_ok);
        }
        let mut i: usize = 0;
        while i < self.clips.len()
            invariant
                i <= self.clips.len(),
                to == proxied(was, src@, *proxy),
                self@ == (Reel { clips: self@.clips, ..was }),
                self@.clips.len() == was.clips.len(),
                forall|k: int| 0 <= k < i ==> #[trigger] self@.clips[k] == to.clips[k],
                forall|k: int| i <= k < was.clips.len() ==> #[trigger] self@.clips[k] == was.clips[k],
            decreases self.clips.len() - i,
        {
            proof {
                reveal(proxied);
            }
            let ghost before = self@.clips;
            assert(before[i as int] == was.clips[i as int]);
            if self.clips[i].path == *src {
                self.clips[i].proxy = proxy.clone();
            }
            assert(self@.clips =~= before.update(i as int, to.clips[i as int]));
            i += 1;
        }
        assert(self@.clips =~= to.clips);
        let mut i: usize = 0;
        while i < self.overlays.len()
            invariant
                i <= self.overlays.len(),
                to == proxied(was, src@, *proxy),
                self@ == (Reel { clips: to.clips, overlays: self@.overlays, ..was }),
                self@.overlays.len() == was.overlays.len(),
                forall|k: int| 0 <= k < i ==> #[trigger] self@.overlays[k] == to.overlays[k],
                forall|k: int| i <= k < was.overlays.len() ==> #[trigger] self@.overlays[k] == was.overlays[k],
            decreases self.overlays.len() - i,
        {
            proof {
                reveal(proxied);
            }
            let ghost before = self@.overlays;
            assert(before[i as int] == was.overlays[i as int]);
            if self.overlays[i].path == *src {
                self.overlays[i].proxy = proxy.clone();
            }
            assert(self@.overlays =~= before.update(i as int, to.overlays[i as int]));
            i += 1;
        }
        assert(self@.overlays =~= to.overlays);
        assert(self@ == to);
    }
}

impl Editor {
    /// A proxy is there, or could not be made.
    pub fn land_proxy(&mut self, src: &String, made: Result<String, String>)
        requires
            old(self)@.wf(),
        ensures
            final(self)@.wf(),
            match made {
                Ok(proxy) => final(self)@ == (EditorView {
                    reel: proxied(old(self)@.reel, src@, proxy),
                    ..old(self)@
                }),
                Err(e) => final(self)@ == old(self)@.says(
                    "Proxy build failed (scrubbing uses the original): "@ + e@,
                ),
            },
    {
        match made {
            Ok(proxy) => {
                proof {
                    reveal(proxied);
                }
                self.reel.take_proxy(src, &proxy);
            },
            Err(e) => {
                self.status = crate::text::cat2(
                    "Proxy build failed (scrubbing uses the original): ",
                    e.as_str(),
                );
            },
        }
    }

    /// The waveform of a clip's source is there: every clip from it shows it.
    pub fn fill_clip_waves(&mut self, src: &String, wave: String)
        requires
            old(self)@.wf(),
        ensures
            final(self)@ == (EditorView {
                reel: Reel { clips: clips_waved(old(self)@.reel.clips, src@, wave), ..old(self)@.reel },
                ..old(self)@
            }),
            final(self)@.wf(),
    {
        let ghost was = self@;
        let ghost to = clips_waved(was.reel.clips, src@, wave);
        let mut i: usize = 0;
        proof {
            reveal(sound);
        }
        while i < self.reel.clips.len()
            invariant
                i <= self.reel.clips@.len(),
                to == clips_waved(was.reel.clips, src@, wave),
                self@ == (EditorView { reel: Reel { clips: self@.reel.clips, ..was.reel }, ..was }),
                self@.reel.clips.len() == was.reel.clips.len(),
                forall|k: int| 0 <= k < i ==> #[trigger] self@.reel.clips[k] == to[k],
                forall|k: int| i <= k < was.reel.clips.len() ==> #[trigger] self@.reel.clips[k] == was.reel.clips[k],
            decreases self.reel.clips@.len() - i,
        {
            let ghost before = self@.reel.clips;
            assert(before[i as int] == was.reel.clips[i as int]);
            if self.reel.clips[i].path == *src {
                self.reel.clips[i].wave = wave.clone();
            }
            assert(self@.reel.clips =~= before.update(i as int, to[i as int]));
            i += 1;
        }
        assert(self@.reel.clips =~= to);
    }

    /// The waveform of a bed's source is there: every bed from it shows it.
    pub fn fill_audio_waves(&mut self, src: &String, wave: String)
        requires
            old(self)@.wf(),
        ensures
            final(self)@ == (EditorView {
                reel: Reel { audios: beds_waved(old(self)@.reel.audios, src@, wave), ..old(self)@.reel },
                ..old(self)@
            }),
            final(self)@.wf(),
    {
        let ghost was = self@;
        let ghost to = beds_waved(was.reel.audios, src@, wave);
        let mut i: usize = 0;
        proof {
            reveal(audios_ok);
        }
        while i < self.reel.audios.len()
            invariant
                i <= self.reel.audios@.len(),
                to == beds_waved(was.reel.audios, src@, wave),
                self@ == (EditorView { reel: Reel { audios: self@.reel.audios, ..was.reel }, ..was }),
                self@.reel.audios.len() == was.reel.audios.len(),
                forall|k: int| 0 <= k < i ==> #[trigger] self@.reel.audios[k] == to[k],
                forall|k: int| i <= k < was.reel.audios.len() ==> #[trigger] self@.reel.audios[k] == was.reel.audios[k],
            decreases self.reel.audios@.len() - i,
        {
            let ghost before = self@.reel.audios;
            assert(before[i as int] == was.reel.audios[i as int]);
            if self.reel.audios[i].path == *src {
                self.reel.audios[i].wave = wave.clone();
            }
            assert(self@.reel.audios =~= before.update(i as int, to[i as int]));
            i += 1;
        }
        assert(self@.reel.audios =~= to);
    }

    /// The cards that have not been rendered.
    pub fn unrendered_titles(&self) -> (r: Vec<usize>)
        ensures
            r@ == unrendered(self@.reel.titles, self@.reel.titles.len() as int),
    {
        let mut r: Vec<usize> = Vec::new();
        let mut k: usize = 0;
        while k < self.reel.titles.len()
            invariant
                k <= self.reel.titles@.len(),
                r@ == unrendered(self@.reel.titles, k as int),
            decreases self.reel.titles@.len() - k,
        {
            if self.reel.titles[k].pngs.len() == 0 {
                r.push(k);
            }
            k += 1;
        }
        r
    }

    /// The cards of title `k` were rendered. Where the title is gone meanwhile
    /// there is nothing to do but show the reel again.
    pub fn land_title(&mut self, k: usize, rendered: Result<Vec<String>, String>)
        requires
            old(self)@.wf(),
        ensures
            final(self)@.wf(),
            lands_title(old(self)@, k, rendered, final(self)@),
    {
        match rendered {
            Ok(pngs) => {
                let t: crate::time::Time = self.playhead;
                if k < self.reel.titles.len() {
                    proof {
                        crate::model::lemma_titles_ok_at(self@.reel.titles, k as int);
                    }
                    let mut item: TitleItem = self.reel.titles[k].clone();
                    item.pngs = pngs;
                    self.set_title(k, item);
                }
                self.seek_to(t);
            },
            Err(e) => {
                self.status = crate::text::cat2("Text render failed: ", e.as_str());
            },
        }
    }
}

/// Those of the first `n` cards that have not been rendered.
pub open spec fn unrendered(s: Seq<TitleView>, n: int) -> Seq<usize>
    decreases n,
{
    if n <= 0 {
        Seq::empty()
    } else if s[n - 1].pngs.len() == 0 {
        unrendered(s, n - 1).push((n - 1) as usize)
    } else {
        unrendered(s, n - 1)
    }
}

/// Law: a proxy that was built, and a waveform, go to every clip, cutaway or bed of its
/// file and to nothing else; nothing but the proxy or the waveform changes.
pub proof fn law_arrivals(r: Reel, src: Seq<char>, made: String)
    ensures
        ({
            let q = proxied(r, src, made);
            &&& q == (Reel { clips: q.clips, overlays: q.overlays, ..r })
            &&& q.clips.len() == r.clips.len() && q.overlays.len() == r.overlays.len()
            &&& forall|i: int|
                0 <= i < r.clips.len() ==> (#[trigger] q.clips[i]) == (Clip { proxy: q.clips[i].proxy, ..r.clips[i] }) && (
                r.clips[i].path@ == src ==> q.clips[i].proxy == made) && (r.clips[i].path@ != src ==> q.clips[i]
                    == r.clips[i])
            &&& forall|i: int|
                0 <= i < r.overlays.len() ==> (#[trigger] q.overlays[i]) == (OverlayItem {
                    proxy: q.overlays[i].proxy,
                    ..r.overlays[i]
                }) && (r.overlays[i].path@ == src ==> q.overlays[i].proxy == made) && (r.overlays[i].path@ != src
                    ==> q.overlays[i] == r.overlays[i])
        }),
        ({
            let q = clips_waved(r.clips, src, made);
            &&& q.len() == r.clips.len()
            &&& forall|i: int|
                0 <= i < q.len() ==> (#[trigger] q[i]) == (Clip { wave: q[i].wave, ..r.clips[i] }) && (r.clips[i].path@
                    == src ==> q[i].wave == made) && (r.clips[i].path@ != src ==> q[i] == r.clips[i])
        }),
        ({
            let q = beds_waved(r.audios, src, made);
            &&& q.len() == r.audios.len()
            &&& forall|i: int|
                0 <= i < q.len() ==> (#[trigger] q[i]) == (AudioItem { wave: q[i].wave, ..r.audios[i] }) && (
                r.audios[i].path@ == src ==> q[i].wave == made) && (r.audios[i].path@ != src ==> q[i] == r.audios[i])
        }),
{
    reveal(proxied);
}

/// Law: the titles to draw are those that have no cards, each once and in order.
pub proof fn law_unrendered(s: Seq<TitleView>, n: int)
    requires
        0 <= n <= s.len(),
        s.len() <= usize::MAX,
    ensures
        ({
            let q = unrendered(s, n);
            &&& forall|i: int| 0 <= i < n ==> (q.contains(i as usize) <==> (#[trigger] s[i]).pngs.len() == 0)
            &&& forall|k: int| 0 <= k < q.len() ==> (#[trigger] q[k]) < n
            &&& forall|j: int, k: int| 0 <= j < k < q.len() ==> (#[trigger] q[j]) < (#[trigger] q[k])
        }),
    decreases n,
{
    if n > 0 {
        law_unrendered(s, n - 1);
        let p = unrendered(s, n - 1);
        let q = unrendered(s, n);
        assert forall|i: int| 0 <= i < n implies (q.contains(i as usize) <==> (#[trigger] s[i]).pngs.len() == 0) by {
            if i < n - 1 {
                if p.contains(i as usize) {
                    let k = choose|k: int| 0 <= k < p.len() && p[k] == i as usize;
                    assert(q[k] == i as usize);
                }
                if q.contains(i as usize) {
                    let k = choose|k: int| 0 <= k < q.len() && q[k] == i as usize;
                    assert(k < p.len());
                    assert(p[k] == i as usize);
                }
            } else if s[i].pngs.len() == 0 {
                assert(q[p.len() as int] == i as usize);
            } else if q.contains(i as usize) {
                let k = choose|k: int| 0 <= k < q.len() && q[k] == i as usize;
                assert(p[k] < n - 1);
            }
        }
    }
}

/// The line was asked for its next file.
pub open spec fn serves(w: Seq<String>, busy: bool, r: Option<String>, after: Seq<String>, still: bool) -> bool {
    if w.len() == 0 {
        r is None && !still && after.len() == 0
    } else {
        &&& r == Some(w[0])
        &&& after == w.subrange(1, w.len() as int)
        &&& still == busy
    }
}

/// Law: files are served in the order they were queued: the first is handed out, the
/// others move up, and one queued meanwhile comes last. An empty line is at rest.
pub proof fn law_first_come_first_served(w: Seq<String>, busy: bool, r: Option<String>, after: Seq<String>, still: bool, k: int)
    requires
        serves(w, busy, r, after, still),
    ensures
        w.len() == 0 ==> r is None && !still && after.len() == 0,
        w.len() > 0 ==> r == Some(w[0]) && after.len() == w.len() - 1 && still == busy,
        0 < k < w.len() ==> after[k - 1] == w[k],
{
}

/// The cards of a title were drawn.
pub open spec fn lands_title(e: EditorView, k: usize, rendered: Result<Vec<String>, String>, f: EditorView) -> bool {
    match rendered {
        Ok(pngs) => f == (if k < e.reel.titles.len() {
            e.put_title(k as int, TitleView { pngs: pngs@, ..e.reel.titles[k as int] })
        } else {
            e
        }).sought(e.playhead as int),
        Err(why) => f == e.says("Text render failed: "@ + why@),
    }
}

/// Law: drawn cards go to their title and no other, in their order, and change nothing
/// else; cards that could not be drawn leave the titles as they are.
pub proof fn law_cards_land(e: EditorView, k: usize, rendered: Result<Vec<String>, String>, f: EditorView)
    requires
        lands_title(e, k, rendered, f),
    ensures
        f.undo == e.undo && f.playhead == e.playhead,
        rendered is Err || k >= e.reel.titles.len() ==> f.reel == e.reel,
        rendered matches Ok(pngs) ==> k < e.reel.titles.len() ==> {
            &&& f.reel == (Reel { titles: f.reel.titles, ..e.reel })
            &&& crate::editor::same_but(e.reel.titles, f.reel.titles, k as int)
            &&& f.reel.titles[k as int] == (TitleView { pngs: pngs@, ..e.reel.titles[k as int] })
        },
{
}

} // verus!
