//! How long a reel the platforms take.

use crate::text::{cat2, join, joined, same_text, texts};
use crate::time::{Time, SECOND};
use vstd::prelude::*;

verus! {

/// Shorts take a minute.
pub const SHORTS_CAP: Time = 60 * SECOND;

/// Reels take a minute and a half.
pub const REELS_CAP: Time = 90 * SECOND;

/// TikTok takes ten minutes.
pub const TIKTOK_CAP: Time = 600 * SECOND;

/// A platform is aimed at: by its name, or with all the others.
pub open spec fn aimed_at(platform: Seq<char>, name: Seq<char>) -> bool {
    platform == "All platforms"@ || platform == name
}

/// The name of a platform alone, where the reel is aimed at it and too long for it.
pub open spec fn too_long(total: Time, platform: Seq<char>, name: Seq<char>, cap: Time) -> Seq<Seq<char>> {
    if total > cap && aimed_at(platform, name) { seq![name] } else { Seq::empty() }
}

/// The platforms a reel has outgrown, of those it is aimed at.
pub open spec fn outgrown(total: Time, platform: Seq<char>) -> Seq<Seq<char>> {
    too_long(total, platform, "Shorts"@, SHORTS_CAP) + too_long(total, platform, "Reels"@, REELS_CAP) + too_long(
        total,
        platform,
        "TikTok"@,
        TIKTOK_CAP,
    )
}

fn aims(platform: &str, name: &str) -> (r: bool)
    ensures
        r == aimed_at(platform@, name@),
{
    same_text(platform, "All platforms") || same_text(platform, name)
}

fn note(over: &mut Vec<String>, total: Time, platform: &str, name: &str, cap: Time)
    ensures
        texts(final(over)@) == texts(old(over)@) + too_long(total, platform@, name@, cap),
{
    let ghost before = texts(over@);
    if total > cap && aims(platform, name) {
        over.push(name.to_owned());
        assert(texts(over@) =~= before + seq![name@]);
    } else {
        assert(before =~= before + Seq::<Seq<char>>::empty());
    }
}

/// A warning that names the platforms the reel is too long for; none where it fits
/// all it is aimed at. A reel exactly as long as a platform takes still fits.
pub fn over_limits(total: Time, platform: &str) -> (r: Option<String>)
    ensures
        match r {
            Some(w) => outgrown(total, platform@).len() > 0 && w@ == "Too long for "@ + joined(
                outgrown(total, platform@),
                ", "@,
            ),
            None => outgrown(total, platform@).len() == 0,
        },
{
    let mut over: Vec<String> = Vec::new();
    assert(texts(over@) =~= Seq::<Seq<char>>::empty());
    note(&mut over, total, platform, "Shorts", SHORTS_CAP);
    note(&mut over, total, platform, "Reels", REELS_CAP);
    note(&mut over, total, platform, "TikTok", TIKTOK_CAP);
    assert(texts(over@) =~= outgrown(total, platform@));
    assert(over@.len() == texts(over@).len());
    if over.len() == 0 {
        None
    } else {
        let names: String = join(&over, ", ");
        Some(cat2("Too long for ", names.as_str()))
    }
}

/// Law: a reel aimed at one platform is warned of no other.
pub proof fn law_one_target(total: Time, platform: Seq<char>, name: Seq<char>)
    requires
        platform != "All platforms"@,
        outgrown(total, platform).contains(name),
    ensures
        name == platform,
{
    let all = outgrown(total, platform);
    let i = choose|i: int| 0 <= i < all.len() && all[i] == name;
    assert(all[i] == platform);
}

/// Law: a longer reel is too long for no fewer platforms.
pub proof fn law_longer_fits_no_more(total: Time, longer: Time, platform: Seq<char>, name: Seq<char>)
    requires
        total <= longer,
        outgrown(total, platform).contains(name),
    ensures
        outgrown(longer, platform).contains(name),
{
    let a = too_long(longer, platform, "Shorts"@, SHORTS_CAP);
    let b = too_long(longer, platform, "Reels"@, REELS_CAP);
    let c = too_long(longer, platform, "TikTok"@, TIKTOK_CAP);
    let was = outgrown(total, platform);
    let i = choose|i: int| 0 <= i < was.len() && was[i] == name;
    assert(was[i] == name);
    let all = outgrown(longer, platform);
    if name == "Shorts"@ && a.len() > 0 {
        assert(all[0] == name);
    } else if name == "Reels"@ && b.len() > 0 {
        assert(all[a.len() as int] == name);
    } else {
        assert(all[(a.len() + b.len()) as int] == name);
    }
}

/// Law: what the platforms take is in order, so a reel that has outgrown a later
/// one has outgrown every earlier one it is aimed at.
pub proof fn law_caps_in_order(total: Time)
    ensures
        outgrown(total, "All platforms"@) == seq!["Shorts"@, "Reels"@, "TikTok"@].take(
            if total > TIKTOK_CAP {
                3
            } else if total > REELS_CAP {
                2
            } else if total > SHORTS_CAP {
                1
            } else {
                0
            },
        ),
{
}

/// Law: a reel fits Shorts up to a minute, Reels up to a minute and a half and TikTok up
/// to ten; only what it is made for is warned of.
pub proof fn law_upload_caps(total: Time, platform: Seq<char>)
    ensures
        total <= 60 * SECOND ==> outgrown(total, platform).len() == 0,
        platform == "Shorts"@ && total > 60 * SECOND ==> outgrown(total, platform).contains("Shorts"@),
        platform == "Reels"@ && total <= 90 * SECOND ==> outgrown(total, platform).len() == 0,
        platform == "Reels"@ && total > 90 * SECOND ==> outgrown(total, platform).contains("Reels"@),
        platform == "TikTok"@ && total <= 600 * SECOND ==> outgrown(total, platform).len() == 0,
        platform == "TikTok"@ && total > 600 * SECOND ==> outgrown(total, platform).contains("TikTok"@),
        platform == "All platforms"@ && total > 600 * SECOND ==> outgrown(total, platform).len() == 3,
{
    reveal_strlit("Shorts");
    reveal_strlit("Reels");
    reveal_strlit("TikTok");
    reveal_strlit("All platforms");
    assert("Shorts"@[0] == 'S' && "Reels"@[0] == 'R' && "TikTok"@[0] == 'T' && "All platforms"@[0] == 'A');
    let r = outgrown(total, platform);
    if platform == "Shorts"@ && total > 60 * SECOND {
        assert(r[0] == "Shorts"@);
    }
    if platform == "Reels"@ && total > 90 * SECOND {
        assert(r[0] == "Reels"@);
    }
    if platform == "TikTok"@ && total > 600 * SECOND {
        assert(r[0] == "TikTok"@);
    }
}

} // verus!
