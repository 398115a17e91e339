//! File names: the last part of a path, its extension, and what kind of media
//! that makes it.

use crate::text::same_text;
use vstd::prelude::*;

verus! {

/// Where the last `c` of a text stands; minus one when there is none.
pub open spec fn last_place(s: Seq<char>, c: char) -> int
    decreases s.len(),
{
    if s.len() == 0 {
        -1
    } else if s.last() == c {
        s.len() - 1
    } else {
        last_place(s.drop_last(), c)
    }
}

/// The last part of a path: what stands behind the last slash, where trailing
/// slashes and dots for the same directory do not count. A path that ends in the
/// parent directory, and one with no parts, has none.
pub open spec fn base_name(path: Seq<char>) -> Seq<char>
    decreases path.len(),
{
    let k = last_place(path, '/');
    let part = path.subrange(k + 1, path.len() as int);
    if !(part.len() == 0 || part == "."@) {
        if part == ".."@ { Seq::empty() } else { part }
    } else if k <= 0 || k >= path.len() {
        Seq::empty()
    } else {
        base_name(path.subrange(0, k))
    }
}

/// The extension of a file name: what stands behind its last dot, unless that dot
/// is the first character.
pub open spec fn extension(name: Seq<char>) -> Option<Seq<char>> {
    let k = last_place(name, '.');
    if k <= 0 { None } else { Some(name.subrange(k + 1, name.len() as int)) }
}

/// A Latin letter in lower case; any other character as it is.
pub open spec fn lower_letter(c: char) -> char {
    if 'A' <= c && c <= 'Z' { ((c as u32) + 32) as char } else { c }
}

/// Whether an extension is the given one, in whatever case.
pub open spec fn is_ext(ext: Seq<char>, lit: Seq<char>) -> bool {
    &&& ext.len() == lit.len()
    &&& forall|i: int| 0 <= i < ext.len() ==> lower_letter(#[trigger] ext[i]) == lit[i]
}

/// What a dropped file is.
#[derive(Clone, Copy, PartialEq, Eq, Structural, Debug)]
pub enum Kind {
    Video,
    Still,
    Audio,
}

pub open spec fn image_ext(e: Seq<char>) -> bool {
    is_ext(e, "png"@) || is_ext(e, "jpg"@) || is_ext(e, "jpeg"@) || is_ext(e, "webp"@) || is_ext(e, "bmp"@)
        || is_ext(e, "tif"@) || is_ext(e, "tiff"@) || is_ext(e, "heic"@) || is_ext(e, "heif"@) || is_ext(e, "avif"@)
}

pub open spec fn audio_ext(e: Seq<char>) -> bool {
    is_ext(e, "mp3"@) || is_ext(e, "wav"@) || is_ext(e, "flac"@) || is_ext(e, "m4a"@) || is_ext(e, "aac"@)
        || is_ext(e, "ogg"@) || is_ext(e, "opus"@)
}

/// The kind of a file by its extension; an unknown one counts as video, where the
/// probe has the last word.
pub open spec fn media_kind(path: Seq<char>) -> Kind {
    match extension(base_name(path)) {
        Some(e) => if image_ext(e) {
            Kind::Still
        } else if audio_ext(e) {
            Kind::Audio
        } else {
            Kind::Video
        },
        None => Kind::Video,
    }
}

proof fn lemma_last_place(s: Seq<char>, c: char)
    ensures
        -1 <= last_place(s, c) < s.len(),
        last_place(s, c) >= 0 ==> s[last_place(s, c)] == c,
        forall|i: int| last_place(s, c) < i < s.len() ==> s[i] != c,
    decreases s.len(),
{
    if s.len() > 0 && s.last() != c {
        lemma_last_place(s.drop_last(), c);
        assert forall|i: int| last_place(s, c) < i < s.len() implies s[i] != c by {
            if i < s.len() - 1 {
                assert(s.drop_last()[i] == s[i]);
            }
        }
    }
}

/// Where the last `c` among the first `n` characters stands, counted from one;
/// zero when there is none.
fn find_last(s: &str, n: usize, c: char) -> (r: usize)
    requires
        n <= s@.len(),
    ensures
        r == last_place(s@.subrange(0, n as int), c) + 1,
        r <= n,
{
    let mut k: usize = n;
    while k > 0
        invariant
            k <= n <= s@.len(),
            last_place(s@.subrange(0, n as int), c) == last_place(s@.subrange(0, k as int), c),
        decreases k,
    {
        assert(s@.subrange(0, k as int).last() == s@[k - 1]);
        assert(s@.subrange(0, k as int).drop_last() =~= s@.subrange(0, k - 1));
        if s.get_char(k - 1) == c {
            return k;
        }
        k -= 1;
    }
    0
}

/// The last part of a path.
pub fn file_name_of(path: &str) -> (r: String)
    ensures
        r@ == base_name(path@),
{
    let mut n: usize = path.unicode_len();
    assert(path@.subrange(0, n as int) =~= path@);
    loop
        invariant
            n <= path@.len(),
            base_name(path@) == base_name(path@.subrange(0, n as int)),
        decreases n,
    {
        let k: usize = find_last(path, n, '/');
        proof {
            lemma_last_place(path@.subrange(0, n as int), '/');
        }
        let part: String = path.substring_char(k, n).to_owned();
        assert(part@ =~= path@.subrange(0, n as int).subrange(k as int, n as int));
        if k < n && !same_text(part.as_str(), ".") {
            if same_text(part.as_str(), "..") {
                return String::new();
            }
            return part;
        }
        if k <= 1 {
            return String::new();
        }
        assert(path@.subrange(0, n as int).subrange(0, k - 1) =~= path@.subrange(0, k - 1));
        n = k - 1;
    }
}

fn ext_is(ext: &str, lit: &str) -> (r: bool)
    ensures
        r == is_ext(ext@, lit@),
{
    let n: usize = ext.unicode_len();
    if n != lit.unicode_len() {
        return false;
    }
    let mut i: usize = 0;
    while i < n
        invariant
            n == ext@.len(),
            n == lit@.len(),
            i <= n,
            forall|k: int| 0 <= k < i ==> lower_letter(#[trigger] ext@[k]) == lit@[k],
        decreases n - i,
    {
        let c: char = ext.get_char(i);
        let c: char = if 'A' <= c && c <= 'Z' { ((c as u8) + 32) as char } else { c };
        if c != lit.get_char(i) {
            assert(lower_letter(ext@[i as int]) != lit@[i as int]);
            return false;
        }
        i += 1;
    }
    true
}

/// The kind of a file by its extension.
pub fn kind_of(path: &str) -> (r: Kind)
    ensures
        r == media_kind(path@),
{
    let name: String = file_name_of(path);
    let n: usize = name.as_str().unicode_len();
    let k: usize = find_last(name.as_str(), n, '.');
    assert(name@.subrange(0, n as int) =~= name@);
    if k <= 1 {
        return Kind::Video;
    }
    let ext: String = name.as_str().substring_char(k, n).to_owned();
    let e: &str = ext.as_str();
    if ext_is(e, "png") || ext_is(e, "jpg") || ext_is(e, "jpeg") || ext_is(e, "webp") || ext_is(e, "bmp")
        || ext_is(e, "tif") || ext_is(e, "tiff") || ext_is(e, "heic") || ext_is(e, "heif") || ext_is(e, "avif") {
        Kind::Still
    } else if ext_is(e, "mp3") || ext_is(e, "wav") || ext_is(e, "flac") || ext_is(e, "m4a") || ext_is(e, "aac")
        || ext_is(e, "ogg") || ext_is(e, "opus") {
        Kind::Audio
    } else {
        Kind::Video
    }
}

/// Whether a file is a photo.
pub fn is_still(path: &str) -> (r: bool)
    ensures
        r == (media_kind(path@) is Still),
{
    matches!(kind_of(path), Kind::Still)
}

/// A name under a directory, as a path: an absolute name stands for itself.
pub open spec fn under(dir: Seq<char>, name: Seq<char>) -> Seq<char> {
    if name.len() > 0 && name[0] == '/' {
        name
    } else if dir.len() == 0 || dir.last() == '/' {
        dir + name
    } else {
        dir + "/"@ + name
    }
}

/// Put a name under a directory.
pub fn join_path(dir: &str, name: &str) -> (r: String)
    ensures
        r@ == under(dir@, name@),
{
    if name.unicode_len() > 0 && name.get_char(0) == '/' {
        return name.to_owned();
    }
    let n: usize = dir.unicode_len();
    if n == 0 || dir.get_char(n - 1) == '/' {
        crate::text::cat2(dir, name)
    } else {
        crate::text::cat3(dir, "/", name)
    }
}

/// Law: the name of a file is what stands behind the last slash of its path; a file put
/// under a directory has its own name.
pub proof fn law_base_name(dir: Seq<char>, name: Seq<char>)
    requires
        !name.contains('/'),
        name.len() > 0,
        name != "."@,
        name != ".."@,
    ensures
        base_name(dir + "/"@ + name) == name,
        base_name(name) == name,
        base_name(under(dir, name)) == name,
{
    reveal_strlit("/");
    let p = dir + "/"@ + name;
    lemma_place_before(dir + "/"@, name, '/');
    assert((dir + "/"@).last() == '/');
    assert(p.subrange(dir.len() as int + 1, p.len() as int) =~= name);
    lemma_no_place(name, '/');
    assert(name.subrange(0, name.len() as int) =~= name);
    assert(name[0] != '/') by {
        assert(name.contains(name[0]));
    }
    if dir.len() > 0 && dir.last() == '/' {
        let q = dir + name;
        lemma_place_before(dir, name, '/');
        assert(q.subrange(dir.len() as int, q.len() as int) =~= name);
    }
    if dir.len() == 0 {
        assert(dir + name =~= name);
    }
}

proof fn lemma_no_place(s: Seq<char>, c: char)
    requires
        !s.contains(c),
    ensures
        last_place(s, c) == -1,
    decreases s.len(),
{
    if s.len() > 0 {
        assert(s.contains(s.last()));
        assert forall|i: int| 0 <= i < s.drop_last().len() implies s.drop_last()[i] != c by {
            assert(s.contains(s[i]));
        }
        lemma_no_place(s.drop_last(), c);
    }
}

proof fn lemma_place_before(a: Seq<char>, b: Seq<char>, c: char)
    requires
        !b.contains(c),
        a.len() > 0,
        a.last() == c,
    ensures
        last_place(a + b, c) == a.len() - 1,
    decreases b.len(),
{
    if b.len() == 0 {
        assert(a + b =~= a);
    } else {
        assert(b.contains(b.last()));
        assert forall|i: int| 0 <= i < b.drop_last().len() implies b.drop_last()[i] != c by {
            assert(b.contains(b[i]));
        }
        assert((a + b).last() == b.last());
        assert((a + b).drop_last() =~= a + b.drop_last());
        lemma_place_before(a, b.drop_last(), c);
    }
}

/// Law: the kind of a file is told by what stands behind the last dot of its name, in
/// capitals or not: pictures are stills, sound files audio, and all others video.
pub proof fn law_kind_by_extension(stem: Seq<char>, ext: Seq<char>)
    requires
        stem.len() > 0,
        !stem.contains('/'),
        !ext.contains('/'),
        !ext.contains('.'),
        ext.len() > 0,
    ensures
        extension(stem + "."@ + ext) == Some(ext),
        image_ext(ext) ==> media_kind(stem + "."@ + ext) == Kind::Still,
        audio_ext(ext) && !image_ext(ext) ==> media_kind(stem + "."@ + ext) == Kind::Audio,
        !audio_ext(ext) && !image_ext(ext) ==> media_kind(stem + "."@ + ext) == Kind::Video,
{
    reveal_strlit(".");
    reveal_strlit("..");
    let name = stem + "."@ + ext;
    lemma_place_before(stem + "."@, ext, '.');
    assert(name.subrange(stem.len() as int + 1, name.len() as int) =~= ext);
    assert(!name.contains('/')) by {
        if name.contains('/') {
            let i = choose|i: int| 0 <= i < name.len() && name[i] == '/';
            if i < stem.len() {
                assert(stem[i] == '/');
            } else if i > stem.len() {
                assert(ext[i - stem.len() - 1] == '/');
            }
        }
    }
    assert(name.len() >= 3);
    lemma_no_place(name, '/');
    assert(name.subrange(0, name.len() as int) =~= name);
}

} // verus!
