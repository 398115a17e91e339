//! Files dropped on the timeline: which lane each goes to, and what is said of it.

use crate::model::{sound, Clip};
use crate::paths::{base_name, file_name_of, kind_of, media_kind, Kind};
use crate::text::{cat2, cat3, cat4, join, joined, texts};
use crate::time::{on_axis, Time};
use crate::track::{insert_index, slot};
use vstd::prelude::*;

verus! {

/// A lane that files can be dropped on.
#[derive(Clone, Copy, PartialEq, Eq, Structural, Debug)]
pub enum Lane {
    V1,
    /// An overlay track, from two on.
    V(u8),
    /// An audio lane, from one on.
    A(u8),
}

/// The lane a file goes to and a note where that needs explaining; none for a
/// photo on an audio lane, which has nothing to give it.
pub open spec fn routed(kind: Kind, onto: Lane) -> Option<(Lane, Option<Seq<char>>)> {
    match (kind, onto) {
        (Kind::Audio, Lane::A(n)) => Some((Lane::A(n), None)),
        (Kind::Audio, _) => Some((Lane::A(1), Some("audio goes to A1"@))),
        (Kind::Video, Lane::A(n)) => Some((Lane::A(n), Some("using its soundtrack"@))),
        (Kind::Still, Lane::A(_)) => None,
        (_, lane) => Some((lane, None)),
    }
}

pub open spec fn refusal() -> Seq<char> {
    "a photo has no sound"@
}

/// Which lane a file goes to when it was dropped on one.
pub fn route_drop(kind: Kind, onto: Lane) -> (r: Result<(Lane, Option<&'static str>), &'static str>)
    ensures
        match r {
            Ok((lane, note)) => {
                &&& routed(kind, onto) matches Some(p)
                &&& p.0 == lane
                &&& match note {
                    Some(n) => p.1 == Some(n@),
                    None => p.1 is None,
                }
            },
            Err(why) => routed(kind, onto) is None && why@ == refusal(),
        },
{
    match kind {
        Kind::Audio => match onto {
            Lane::A(n) => Ok((Lane::A(n), None)),
            _ => Ok((Lane::A(1), Some("audio goes to A1"))),
        },
        Kind::Video => match onto {
            Lane::A(n) => Ok((Lane::A(n), Some("using its soundtrack"))),
            lane => Ok((lane, None)),
        },
        Kind::Still => match onto {
            Lane::A(_) => Err("a photo has no sound"),
            lane => Ok((lane, None)),
        },
    }
}

/// A file that goes to a lane of its own.
pub struct Placement {
    pub path: String,
    pub lane: Lane,
}

/// What a drop comes to.
pub struct DropPlan {
    /// The files for the main track, in the order they were dropped.
    pub clips: Vec<String>,
    /// Where on the main track they go in.
    pub index: usize,
    /// The files for the other lanes, in order.
    pub lanes: Vec<Placement>,
    /// What the status line says, where there is something to say.
    pub status: Option<String>,
}

/// Those of the first `n` files that go to the main track.
pub open spec fn for_v1(paths: Seq<String>, onto: Lane, n: int) -> Seq<String>
    decreases n,
{
    if n <= 0 {
        Seq::empty()
    } else {
        let head = for_v1(paths, onto, n - 1);
        match routed(media_kind(paths[n - 1]@), onto) {
            Some((Lane::V1, _)) => head.push(paths[n - 1]),
            _ => head,
        }
    }
}

/// Those of the first `n` files that go to other lanes, with the lane.
pub open spec fn for_lanes(paths: Seq<String>, onto: Lane, n: int) -> Seq<Placement>
    decreases n,
{
    if n <= 0 {
        Seq::empty()
    } else {
        let head = for_lanes(paths, onto, n - 1);
        match routed(media_kind(paths[n - 1]@), onto) {
            Some((Lane::V1, _)) => head,
            Some((lane, _)) => head.push(Placement { path: paths[n - 1], lane }),
            None => head,
        }
    }
}

/// What is said of those of the first `n` files that no lane takes.
pub open spec fn refusals(paths: Seq<String>, onto: Lane, n: int) -> Seq<Seq<char>>
    decreases n,
{
    if n <= 0 {
        Seq::empty()
    } else {
        let head = refusals(paths, onto, n - 1);
        if routed(media_kind(paths[n - 1]@), onto) is None {
            head.push(base_name(paths[n - 1]@) + " ("@ + refusal() + ")"@)
        } else {
            head
        }
    }
}

/// The notes on the first `n` files, each once.
pub open spec fn notes(paths: Seq<String>, onto: Lane, n: int) -> Seq<Seq<char>>
    decreases n,
{
    if n <= 0 {
        Seq::empty()
    } else {
        let head = notes(paths, onto, n - 1);
        match routed(media_kind(paths[n - 1]@), onto) {
            Some((_, Some(note))) => if head.contains(note) { head } else { head.push(note) },
            _ => head,
        }
    }
}

/// What the status line says of a drop: what was refused, or else what was noted.
pub open spec fn drop_text(paths: Seq<String>, onto: Lane) -> Option<Seq<char>> {
    let n = paths.len() as int;
    let refused = refusals(paths, onto, n);
    let noted = notes(paths, onto, n);
    if refused.len() > 0 {
        Some("Skipped "@ + joined(refused, ", "@))
    } else if noted.len() > 0 {
        Some("Dropped — "@ + joined(noted, ", "@) + "."@)
    } else {
        None
    }
}

/// Law: every dropped file goes somewhere or is refused, and only one of these.
pub proof fn law_every_file_is_accounted_for(paths: Seq<String>, onto: Lane, n: int)
    requires
        0 <= n <= paths.len(),
    ensures
        for_v1(paths, onto, n).len() + for_lanes(paths, onto, n).len() + refusals(paths, onto, n).len() == n,
    decreases n,
{
    if n > 0 {
        law_every_file_is_accounted_for(paths, onto, n - 1);
    }
}

/// Law: nothing is refused but on an audio lane, and nothing aimed at an audio
/// lane goes to a video lane.
pub proof fn law_routes(kind: Kind, onto: Lane)
    ensures
        routed(kind, onto) is None <==> kind is Still && onto is A,
        onto is A ==> (routed(kind, onto) matches Some(p) ==> p.0 == onto),
        kind is Audio ==> (routed(kind, onto) matches Some(p) && p.0 is A),
        kind !is Audio && !(onto is A) ==> routed(kind, onto) == Some((onto, None::<Seq<char>>)),
{
}

fn has_text(v: &Vec<String>, t: &str) -> (r: bool)
    ensures
        r == texts(v@).contains(t@),
{
    let mut i: usize = 0;
    while i < v.len()
        invariant
            i <= v@.len(),
            forall|k: int| 0 <= k < i ==> texts(v@)[k] != t@,
        decreases v@.len() - i,
    {
        if crate::text::same_text(v[i].as_str(), t) {
            assert(texts(v@)[i as int] == t@);
            return true;
        }
        i += 1;
    }
    false
}

/// Sort out what a drop of files comes to.
pub fn handle_drop(clips: &Vec<Clip>, paths: &Vec<String>, onto: Lane, at: Time) -> (r: DropPlan)
    requires
        sound(clips@),
        on_axis(at),
    ensures
        r.clips@ == for_v1(paths@, onto, paths@.len() as int),
        r.index == slot(clips@, at as int),
        r.lanes@ == for_lanes(paths@, onto, paths@.len() as int),
        match r.status {
            Some(s) => drop_text(paths@, onto) == Some(s@),
            None => drop_text(paths@, onto) is None,
        },
{
    let mut to_v1: Vec<String> = Vec::new();
    let mut lanes: Vec<Placement> = Vec::new();
    let mut noted: Vec<String> = Vec::new();
    let mut refused: Vec<String> = Vec::new();
    let mut i: usize = 0;
    assert(texts(noted@) =~= notes(paths@, onto, 0));
    assert(texts(refused@) =~= refusals(paths@, onto, 0));
    while i < paths.len()
        invariant
            i <= paths@.len(),
            to_v1@ == for_v1(paths@, onto, i as int),
            lanes@ == for_lanes(paths@, onto, i as int),
            texts(noted@) == notes(paths@, onto, i as int),
            texts(refused@) == refusals(paths@, onto, i as int),
        decreases paths@.len() - i,
    {
        let ghost was_noted = texts(noted@);
        let ghost was_refused = texts(refused@);
        match route_drop(kind_of(paths[i].as_str()), onto) {
            Err(why) => {
                let name: String = file_name_of(paths[i].as_str());
                let text: String = cat4(name.as_str(), " (", why, ")");
                refused.push(text);
                assert(texts(refused@) =~= was_refused.push(text@));
            },
            Ok((lane, note)) => {
                if let Some(n) = note {
                    if !has_text(&noted, n) {
                        let text: String = n.to_owned();
                        noted.push(text);
                        assert(texts(noted@) =~= was_noted.push(n@));
                    }
                }
                match lane {
                    Lane::V1 => {
                        to_v1.push(paths[i].clone());
                    },
                    other => {
                        lanes.push(Placement { path: paths[i].clone(), lane: other });
                    },
                }
            },
        }
        i += 1;
    }
    let status: Option<String> = if refused.len() > 0 {
        Some(cat2("Skipped ", join(&refused, ", ").as_str()))
    } else if noted.len() > 0 {
        Some(cat3("Dropped — ", join(&noted, ", ").as_str(), "."))
    } else {
        None
    };
    DropPlan { clips: to_v1, index: insert_index(clips, at), lanes, status }
}

/// Law: a dropped file goes where its kind and the lane say: onto the main track with
/// the clips, onto a lane of its own kind, or nowhere, in the order they were dropped.
pub proof fn law_dropped_files_keep_their_order(paths: Seq<String>, onto: Lane, n: int)
    requires
        0 <= n < paths.len(),
    ensures
        ({
            let kind = media_kind(paths[n]@);
            let sound = kind is Audio;
            let main = !sound && onto is V1;
            let refused = kind is Still && onto is A;
            let lane = if sound && !(onto is A) { Lane::A(1) } else { onto };
            &&& main ==> for_v1(paths, onto, n + 1) == for_v1(paths, onto, n).push(paths[n])
            &&& !main ==> for_v1(paths, onto, n + 1) == for_v1(paths, onto, n)
            &&& !main && !refused ==> for_lanes(paths, onto, n + 1) == for_lanes(paths, onto, n).push(
                Placement { path: paths[n], lane },
            )
            &&& main || refused ==> for_lanes(paths, onto, n + 1) == for_lanes(paths, onto, n)
            &&& refused ==> refusals(paths, onto, n + 1).len() == refusals(paths, onto, n).len() + 1
            &&& !refused ==> refusals(paths, onto, n + 1) == refusals(paths, onto, n)
        }),
        for_v1(paths, onto, 0).len() == 0 && for_lanes(paths, onto, 0).len() == 0 && refusals(paths, onto, 0).len() == 0,
{
}

} // verus!
