//! How items are drawn on the timeline: their classes, and the strips of a clip.

use crate::text::cat2;
use vstd::prelude::*;

verus! {

/// What a clip shows of itself: its sound, its frames, how much of each, or its name.
#[derive(Clone, Copy, PartialEq, Eq, Structural, Debug)]
pub enum ClipAppear {
    Wave,
    WaveFilm,
    Equal,
    FilmWave,
    Film,
    Labels,
}

/// The ways a clip can be shown, in the order of their keys.
pub open spec fn appearances() -> Seq<ClipAppear> {
    seq![
        ClipAppear::Wave,
        ClipAppear::WaveFilm,
        ClipAppear::Equal,
        ClipAppear::FilmWave,
        ClipAppear::Film,
        ClipAppear::Labels,
    ]
}

/// The heights of the frames and of the sound at full size, in pixels.
pub open spec fn strip_heights(a: ClipAppear) -> (int, int) {
    match a {
        ClipAppear::Wave => (0, 94),
        ClipAppear::WaveFilm => (22, 72),
        ClipAppear::Equal => (47, 47),
        ClipAppear::FilmWave => (72, 22),
        ClipAppear::Film => (94, 0),
        ClipAppear::Labels => (24, 0),
    }
}

/// The smallest and the largest a clip is drawn, in thousandths of full size.
pub const SMALLEST: u32 = 500;

pub const LARGEST: u32 = 2000;

/// A step of the size.
pub const SIZE_STEP: u32 = 150;

impl ClipAppear {
    /// Every way, in order.
    pub fn all() -> (r: Vec<ClipAppear>)
        ensures
            r@ == appearances(),
    {
        let r: Vec<ClipAppear> = vec![
            ClipAppear::Wave,
            ClipAppear::WaveFilm,
            ClipAppear::Equal,
            ClipAppear::FilmWave,
            ClipAppear::Film,
            ClipAppear::Labels,
        ];
        assert(r@ =~= appearances());
        r
    }

    /// The heights of the frames and of the sound at a size, in thousandths of a pixel.
    pub fn heights(self, size: u32) -> (r: (u64, u64))
        ensures
            r.0 == strip_heights(self).0 * size,
            r.1 == strip_heights(self).1 * size,
    {
        let s: u64 = size as u64;
        match self {
            ClipAppear::Wave => (0, 94 * s),
            ClipAppear::WaveFilm => (22 * s, 72 * s),
            ClipAppear::Equal => (47 * s, 47 * s),
            ClipAppear::FilmWave => (72 * s, 22 * s),
            ClipAppear::Film => (94 * s, 0),
            ClipAppear::Labels => (24 * s, 0),
        }
    }

    /// Whether there is a strip of frames, or of the name in its place.
    pub fn show_film(self) -> (r: bool)
        ensures
            r == (strip_heights(self).0 > 0),
    {
        !matches!(self, ClipAppear::Wave)
    }

    /// Whether there is a strip of sound.
    pub fn show_wave(self) -> (r: bool)
        ensures
            r == (strip_heights(self).1 > 0),
    {
        !matches!(self, ClipAppear::Film | ClipAppear::Labels)
    }

    /// Whether there is nothing but the name.
    pub fn labels_only(self) -> (r: bool)
        ensures
            r == (self is Labels),
    {
        matches!(self, ClipAppear::Labels)
    }

    /// How high a clip is drawn: a silent one has no strip of sound.
    pub fn lane_height(self, size: u32, has_audio: bool) -> (r: u64)
        ensures
            r == strip_heights(self).0 * size + if has_audio { strip_heights(self).1 * size } else { 0 },
    {
        let (film, wave) = self.heights(size);
        if has_audio && self.show_wave() { film + wave } else { film }
    }
}

/// A size one step larger or smaller, held in its bounds.
pub open spec fn resized(size: u32, larger: bool) -> int {
    if larger {
        if size + SIZE_STEP < LARGEST { size + SIZE_STEP } else { LARGEST as int }
    } else {
        if size - SIZE_STEP > SMALLEST { size - SIZE_STEP } else { SMALLEST as int }
    }
}

pub fn resize(size: u32, larger: bool) -> (r: u32)
    ensures
        r == resized(size, larger),
{
    if larger {
        if size < LARGEST - SIZE_STEP { size + SIZE_STEP } else { LARGEST }
    } else {
        if size > SMALLEST + SIZE_STEP { size - SIZE_STEP } else { SMALLEST }
    }
}

/// The classes of an item: its own, and one for each state it is in.
pub open spec fn classes(base: Seq<char>, selected: bool, marked: bool, disabled: bool, solo: bool) -> Seq<char> {
    let a = if selected { base + " selected"@ } else { base };
    let b = if marked { a + " marked"@ } else { a };
    let c = if disabled { b + " disabled"@ } else { b };
    if solo { c + " solo"@ } else { c }
}

pub fn item_class(base: &str, selected: bool, marked: bool, disabled: bool, solo: bool) -> (r: String)
    ensures
        r@ == classes(base@, selected, marked, disabled, solo),
{
    let mut r: String = base.to_owned();
    if selected {
        r = cat2(r.as_str(), " selected");
    }
    if marked {
        r = cat2(r.as_str(), " marked");
    }
    if disabled {
        r = cat2(r.as_str(), " disabled");
    }
    if solo {
        r = cat2(r.as_str(), " solo");
    }
    r
}

/// Law: film and sound share the height of a tile: what the one gives up the other
/// takes, from all sound to all film; labels alone are low.
pub proof fn law_tile_heights(a: ClipAppear)
    ensures
        !(a is Labels) ==> strip_heights(a).0 + strip_heights(a).1 == 94,
        strip_heights(a).0 >= 0 && strip_heights(a).1 >= 0,
        strip_heights(ClipAppear::Wave).0 == 0 && strip_heights(ClipAppear::Film).1 == 0,
        strip_heights(ClipAppear::Wave).0 < strip_heights(ClipAppear::WaveFilm).0 < strip_heights(ClipAppear::Equal).0
            < strip_heights(ClipAppear::FilmWave).0 < strip_heights(ClipAppear::Film).0,
        strip_heights(ClipAppear::Equal).0 == strip_heights(ClipAppear::Equal).1,
        strip_heights(ClipAppear::WaveFilm).0 == strip_heights(ClipAppear::FilmWave).1,
        strip_heights(ClipAppear::Labels).1 == 0 && 0 < strip_heights(ClipAppear::Labels).0 < 47,
{
}

/// Law: a step of size goes fifteen hundredths up or down, between a half and double.
pub proof fn law_tile_size(size: u32)
    requires
        500 <= size <= 2000,
    ensures
        500 <= resized(size, true) <= 2000 && 500 <= resized(size, false) <= 2000,
        size + 150 <= 2000 ==> resized(size, true) - size == 150,
        size + 150 > 2000 ==> resized(size, true) == 2000,
        size >= 650 ==> size - resized(size, false) == 150,
        size < 650 ==> resized(size, false) == 500,
{
}

} // verus!
