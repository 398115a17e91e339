//! What a project file records of a reel, and whether the reel has changed since.
//!
//! Posters, waveforms, proxies and rendered cards are made again from the media when
//! a project is opened, so they are no part of the record.

use crate::model::{AdjustmentItem, AudioItem, Bus, Clip, Look, OverlayItem, Reel, Snapshot, TitleItem, TitleStyle, TitleView, Transform};
use crate::editor::{Editor, EditorView};
use crate::lanes::{audio_crest, normal, overlay_crest, title_crest};
use crate::queues::{beds_waved, clips_waved, proxied};
use crate::text::same_text;
use vstd::prelude::*;

verus! {

/// An optional text as characters.
pub open spec fn written(s: Option<String>) -> Option<Seq<char>> {
    match s {
        Some(t) => Some(t@),
        None => None,
    }
}

fn same_choice(a: &Option<String>, b: &Option<String>) -> (r: bool)
    ensures
        r == (written(*a) == written(*b)),
{
    match (a, b) {
        (Some(x), Some(y)) => same_text(x.as_str(), y.as_str()),
        (None, None) => true,
        _ => false,
    }
}

fn same_pose(a: &Transform, b: &Transform) -> (r: bool)
    ensures
        r == (*a == *b),
{
    a.x == b.x && a.y == b.y && a.scale.same(&b.scale) && a.scale_x == b.scale_x && a.scale_y == b.scale_y && a.rotation
        == b.rotation && a.anchor_x == b.anchor_x && a.anchor_y == b.anchor_y && a.opacity.same(&b.opacity) && a.flip_h
        == b.flip_h && a.flip_v == b.flip_v && a.cover == b.cover && a.bg == b.bg
}

/// Two looks are recorded alike.
pub open spec fn look_kept(a: Look, b: Look) -> bool {
    &&& written(a.effect) == written(b.effect)
    &&& a.effect_amount == b.effect_amount
    &&& a.transform == b.transform
    &&& a.grade == b.grade
}

fn same_look(a: &Look, b: &Look) -> (r: bool)
    ensures
        r == look_kept(*a, *b),
{
    same_choice(&a.effect, &b.effect) && a.effect_amount == b.effect_amount && same_pose(&a.transform, &b.transform) && a.grade
        == b.grade
}

/// Two clips are recorded alike: they may differ in poster, waveform and proxy.
pub open spec fn clip_kept(a: Clip, b: Clip) -> bool {
    &&& a.path@ == b.path@
    &&& a.name@ == b.name@
    &&& a.duration == b.duration
    &&& a.in_s == b.in_s
    &&& a.out_s == b.out_s
    &&& a.has_audio == b.has_audio
    &&& look_kept(a.look, b.look)
    &&& a.framing@ == b.framing@
    &&& a.speed == b.speed
    &&& a.reverse == b.reverse
    &&& a.volume == b.volume
    &&& a.denoise == b.denoise
    &&& written(a.treat) == written(b.treat)
    &&& written(a.transition) == written(b.transition)
    &&& a.trans_dur == b.trans_dur
    &&& a.group == b.group
    &&& a.enabled == b.enabled
    &&& a.solo == b.solo
}

fn same_clip(a: &Clip, b: &Clip) -> (r: bool)
    ensures
        r == clip_kept(*a, *b),
{
    let words: bool = same_text(a.path.as_str(), b.path.as_str()) && same_text(a.name.as_str(), b.name.as_str())
        && same_text(a.framing.as_str(), b.framing.as_str()) && same_choice(&a.treat, &b.treat) && same_choice(
        &a.transition,
        &b.transition,
    );
    let numbers: bool = a.duration == b.duration && a.in_s == b.in_s && a.out_s == b.out_s && a.speed == b.speed
        && a.volume == b.volume && a.denoise == b.denoise && a.trans_dur == b.trans_dur && a.group == b.group;
    let switches: bool = a.has_audio == b.has_audio && a.reverse == b.reverse && a.enabled == b.enabled && a.solo
        == b.solo;
    words && numbers && switches && same_look(&a.look, &b.look)
}

/// Two cutaways are recorded alike: they may differ in proxy.
pub open spec fn overlay_kept(a: OverlayItem, b: OverlayItem) -> bool {
    &&& a.path@ == b.path@
    &&& a.name@ == b.name@
    &&& a.duration == b.duration
    &&& a.in_s == b.in_s
    &&& a.out_s == b.out_s
    &&& a.at == b.at
    &&& look_kept(a.look, b.look)
    &&& a.framing@ == b.framing@
    &&& a.speed == b.speed
    &&& a.reverse == b.reverse
    &&& a.blend@ == b.blend@
    &&& a.track == b.track
    &&& a.group == b.group
    &&& a.enabled == b.enabled
    &&& a.solo == b.solo
}

fn same_overlay(a: &OverlayItem, b: &OverlayItem) -> (r: bool)
    ensures
        r == overlay_kept(*a, *b),
{
    let words: bool = same_text(a.path.as_str(), b.path.as_str()) && same_text(a.name.as_str(), b.name.as_str())
        && same_text(a.framing.as_str(), b.framing.as_str()) && same_text(a.blend.as_str(), b.blend.as_str());
    let numbers: bool = a.duration == b.duration && a.in_s == b.in_s && a.out_s == b.out_s && a.at == b.at && a.speed
        == b.speed && a.track == b.track && a.group == b.group;
    let switches: bool = a.reverse == b.reverse && a.enabled == b.enabled && a.solo == b.solo;
    words && numbers && switches && same_look(&a.look, &b.look)
}

/// Two beds are recorded alike: they may differ in waveform.
pub open spec fn bed_kept(a: AudioItem, b: AudioItem) -> bool {
    &&& a.path@ == b.path@
    &&& a.name@ == b.name@
    &&& a.duration == b.duration
    &&& a.in_s == b.in_s
    &&& a.out_s == b.out_s
    &&& a.at == b.at
    &&& a.volume == b.volume
    &&& a.vol_end == b.vol_end
    &&& a.fade_in == b.fade_in
    &&& a.fade_out == b.fade_out
    &&& a.shaping == b.shaping
    &&& written(a.treat) == written(b.treat)
    &&& a.lane == b.lane
    &&& a.group == b.group
    &&& a.enabled == b.enabled
    &&& a.solo == b.solo
}

fn same_bed(a: &AudioItem, b: &AudioItem) -> (r: bool)
    ensures
        r == bed_kept(*a, *b),
{
    let words: bool = same_text(a.path.as_str(), b.path.as_str()) && same_text(a.name.as_str(), b.name.as_str())
        && same_choice(&a.treat, &b.treat);
    let numbers: bool = a.duration == b.duration && a.in_s == b.in_s && a.out_s == b.out_s && a.at == b.at && a.volume
        == b.volume && a.fade_in == b.fade_in && a.fade_out == b.fade_out && a.lane == b.lane && a.group == b.group;
    let tail: bool = match (a.vol_end, b.vol_end) {
        (Some(x), Some(y)) => x == y,
        (None, None) => true,
        _ => false,
    };
    words && numbers && tail && a.shaping == b.shaping && a.enabled == b.enabled && a.solo == b.solo
}

/// Two card styles are recorded alike.
pub open spec fn style_kept(a: TitleStyle, b: TitleStyle) -> bool {
    &&& a.font@ == b.font@
    &&& a.font_size == b.font_size
    &&& a.color@ == b.color@
    &&& a.pos@ == b.pos@
    &&& a.y_frac == b.y_frac
    &&& a.align@ == b.align@
    &&& written(a.anim) == written(b.anim)
    &&& a.reveal == b.reveal
    &&& a.karaoke == b.karaoke
    &&& a.karaoke_color@ == b.karaoke_color@
    &&& a.boxed == b.boxed
    &&& a.box_opacity == b.box_opacity
    &&& a.outline == b.outline
    &&& a.outline_color@ == b.outline_color@
    &&& a.bevel@ == b.bevel@
    &&& a.bevel_size == b.bevel_size
    &&& a.soften == b.soften
    &&& a.depth == b.depth
    &&& a.angle == b.angle
    &&& a.altitude == b.altitude
    &&& a.hi_opacity == b.hi_opacity
    &&& a.sh_opacity == b.sh_opacity
}

fn same_style(a: &TitleStyle, b: &TitleStyle) -> (r: bool)
    ensures
        r == style_kept(*a, *b),
{
    let words: bool = same_text(a.font.as_str(), b.font.as_str()) && same_text(a.color.as_str(), b.color.as_str())
        && same_text(a.pos.as_str(), b.pos.as_str()) && same_text(a.align.as_str(), b.align.as_str()) && same_choice(
        &a.anim,
        &b.anim,
    ) && same_text(a.karaoke_color.as_str(), b.karaoke_color.as_str()) && same_text(
        a.outline_color.as_str(),
        b.outline_color.as_str(),
    ) && same_text(a.bevel.as_str(), b.bevel.as_str());
    let seat: bool = match (a.y_frac, b.y_frac) {
        (Some(x), Some(y)) => x == y,
        (None, None) => true,
        _ => false,
    };
    let numbers: bool = a.font_size == b.font_size && a.box_opacity == b.box_opacity && a.outline == b.outline
        && a.bevel_size == b.bevel_size && a.soften == b.soften && a.depth == b.depth && a.angle == b.angle && a.altitude
        == b.altitude && a.hi_opacity == b.hi_opacity && a.sh_opacity == b.sh_opacity;
    words && seat && numbers && a.reveal == b.reveal && a.karaoke == b.karaoke && a.boxed == b.boxed
}

/// Two cards are recorded alike: they may differ in what was rendered.
pub open spec fn card_kept(a: TitleView, b: TitleView) -> bool {
    &&& a.text@ == b.text@
    &&& a.kind@ == b.kind@
    &&& a.at == b.at
    &&& a.dur == b.dur
    &&& style_kept(a.style, b.style)
    &&& a.shape == b.shape
    &&& a.caption == b.caption
    &&& a.group == b.group
    &&& a.track == b.track
    &&& a.enabled == b.enabled
}

fn same_card(a: &TitleItem, b: &TitleItem) -> (r: bool)
    ensures
        r == card_kept(a@, b@),
{
    same_text(a.text.as_str(), b.text.as_str()) && same_text(a.kind.as_str(), b.kind.as_str()) && a.at == b.at && a.dur
        == b.dur && same_style(&a.style, &b.style) && a.shape == b.shape && a.caption == b.caption && a.group == b.group && a.track == b.track
        && a.enabled == b.enabled
}

/// Two adjustment layers are recorded alike.
pub open spec fn layer_kept(a: AdjustmentItem, b: AdjustmentItem) -> bool {
    &&& a.at == b.at
    &&& a.dur == b.dur
    &&& written(a.effect) == written(b.effect)
    &&& a.effect_amount == b.effect_amount
    &&& a.grade == b.grade
    &&& a.group == b.group
    &&& a.enabled == b.enabled
}

fn same_layer(a: &AdjustmentItem, b: &AdjustmentItem) -> (r: bool)
    ensures
        r == layer_kept(*a, *b),
{
    a.at == b.at && a.dur == b.dur && same_choice(&a.effect, &b.effect) && a.effect_amount == b.effect_amount && a.grade
        == b.grade && a.group == b.group && a.enabled == b.enabled
}

pub open spec fn clips_kept(a: Seq<Clip>, b: Seq<Clip>) -> bool {
    a.len() == b.len() && forall|i: int| 0 <= i < a.len() ==> clip_kept(#[trigger] a[i], b[i])
}

pub open spec fn overlays_kept(a: Seq<OverlayItem>, b: Seq<OverlayItem>) -> bool {
    a.len() == b.len() && forall|i: int| 0 <= i < a.len() ==> overlay_kept(#[trigger] a[i], b[i])
}

pub open spec fn beds_kept(a: Seq<AudioItem>, b: Seq<AudioItem>) -> bool {
    a.len() == b.len() && forall|i: int| 0 <= i < a.len() ==> bed_kept(#[trigger] a[i], b[i])
}

pub open spec fn cards_kept(a: Seq<TitleView>, b: Seq<TitleView>) -> bool {
    a.len() == b.len() && forall|i: int| 0 <= i < a.len() ==> card_kept(#[trigger] a[i], b[i])
}

pub open spec fn layers_kept(a: Seq<AdjustmentItem>, b: Seq<AdjustmentItem>) -> bool {
    a.len() == b.len() && forall|i: int| 0 <= i < a.len() ==> layer_kept(#[trigger] a[i], b[i])
}

/// A project file would record the same of both reels.
pub open spec fn kept(a: Reel, b: Reel) -> bool {
    &&& clips_kept(a.clips, b.clips)
    &&& overlays_kept(a.overlays, b.overlays)
    &&& beds_kept(a.audios, b.audios)
    &&& cards_kept(a.titles, b.titles)
    &&& layers_kept(a.adjustments, b.adjustments)
    &&& a.markers == b.markers
    &&& a.mixer.tracks == b.mixer.tracks
    &&& a.mixer.master == b.mixer.master
    &&& a.v_lanes == b.v_lanes
    &&& a.t_lanes == b.t_lanes
    &&& a.a_lanes == b.a_lanes
}

/// Something lies on the reel.
pub open spec fn has_content(r: Reel) -> bool {
    r.clips.len() > 0 || r.overlays.len() > 0 || r.audios.len() > 0 || r.titles.len() > 0 || r.adjustments.len() > 0
        || r.markers.len() > 0
}

fn same_clips(a: &Vec<Clip>, b: &Vec<Clip>) -> (r: bool)
    ensures
        r == clips_kept(a@, b@),
{
    if a.len() != b.len() {
        return false;
    }
    let mut i: usize = 0;
    while i < a.len()
        invariant
            i <= a@.len(),
            a@.len() == b@.len(),
            forall|k: int| 0 <= k < i ==> clip_kept(#[trigger] a@[k], b@[k]),
        decreases a@.len() - i,
    {
        if !same_clip(&a[i], &b[i]) {
            assert(!clip_kept(a@[i as int], b@[i as int]));
            return false;
        }
        i += 1;
    }
    true
}

fn same_overlays(a: &Vec<OverlayItem>, b: &Vec<OverlayItem>) -> (r: bool)
    ensures
        r == overlays_kept(a@, b@),
{
    if a.len() != b.len() {
        return false;
    }
    let mut i: usize = 0;
    while i < a.len()
        invariant
            i <= a@.len(),
            a@.len() == b@.len(),
            forall|k: int| 0 <= k < i ==> overlay_kept(#[trigger] a@[k], b@[k]),
        decreases a@.len() - i,
    {
        if !same_overlay(&a[i], &b[i]) {
            assert(!overlay_kept(a@[i as int], b@[i as int]));
            return false;
        }
        i += 1;
    }
    true
}

fn same_beds(a: &Vec<AudioItem>, b: &Vec<AudioItem>) -> (r: bool)
    ensures
        r == beds_kept(a@, b@),
{
    if a.len() != b.len() {
        return false;
    }
    let mut i: usize = 0;
    while i < a.len()
        invariant
            i <= a@.len(),
            a@.len() == b@.len(),
            forall|k: int| 0 <= k < i ==> bed_kept(#[trigger] a@[k], b@[k]),
        decreases a@.len() - i,
    {
        if !same_bed(&a[i], &b[i]) {
            assert(!bed_kept(a@[i as int], b@[i as int]));
            return false;
        }
        i += 1;
    }
    true
}

fn same_cards(a: &Vec<TitleItem>, b: &Vec<TitleItem>) -> (r: bool)
    ensures
        r == cards_kept(crate::model::cards(a@), crate::model::cards(b@)),
{
    if a.len() != b.len() {
        return false;
    }
    let ghost x = crate::model::cards(a@);
    let ghost y = crate::model::cards(b@);
    let mut i: usize = 0;
    while i < a.len()
        invariant
            i <= a@.len(),
            a@.len() == b@.len(),
            x == crate::model::cards(a@),
            y == crate::model::cards(b@),
            forall|k: int| 0 <= k < i ==> card_kept(#[trigger] x[k], y[k]),
        decreases a@.len() - i,
    {
        if !same_card(&a[i], &b[i]) {
            assert(!card_kept(x[i as int], y[i as int]));
            return false;
        }
        i += 1;
    }
    true
}

fn same_layers(a: &Vec<AdjustmentItem>, b: &Vec<AdjustmentItem>) -> (r: bool)
    ensures
        r == layers_kept(a@, b@),
{
    if a.len() != b.len() {
        return false;
    }
    let mut i: usize = 0;
    while i < a.len()
        invariant
            i <= a@.len(),
            a@.len() == b@.len(),
            forall|k: int| 0 <= k < i ==> layer_kept(#[trigger] a@[k], b@[k]),
        decreases a@.len() - i,
    {
        if !same_layer(&a[i], &b[i]) {
            assert(!layer_kept(a@[i as int], b@[i as int]));
            return false;
        }
        i += 1;
    }
    true
}

fn same_markers(a: &Vec<crate::time::Time>, b: &Vec<crate::time::Time>) -> (r: bool)
    ensures
        r == (a@ == b@),
{
    if a.len() != b.len() {
        return false;
    }
    let mut i: usize = 0;
    while i < a.len()
        invariant
            i <= a@.len(),
            a@.len() == b@.len(),
            forall|k: int| 0 <= k < i ==> #[trigger] a@[k] == b@[k],
        decreases a@.len() - i,
    {
        if a[i] != b[i] {
            assert(a@[i as int] != b@[i as int]);
            return false;
        }
        i += 1;
    }
    assert(a@ =~= b@);
    true
}

fn same_strips(a: &Vec<Bus>, b: &Vec<Bus>) -> (r: bool)
    ensures
        r == (a@ == b@),
{
    if a.len() != b.len() {
        return false;
    }
    let mut i: usize = 0;
    while i < a.len()
        invariant
            i <= a@.len(),
            a@.len() == b@.len(),
            forall|k: int| 0 <= k < i ==> #[trigger] a@[k] == b@[k],
        decreases a@.len() - i,
    {
        if a[i] != b[i] {
            assert(a@[i as int] != b@[i as int]);
            return false;
        }
        i += 1;
    }
    assert(a@ =~= b@);
    true
}

/// Whether the reel has changes that no project file holds: against what was last
/// saved or opened, or against an empty reel where nothing was.
pub fn timeline_dirty(now: &Snapshot, saved: Option<&Snapshot>) -> (r: bool)
    ensures
        r == match saved {
            Some(s) => !kept(now@, s@),
            None => has_content(now@),
        },
{
    match saved {
        Some(s) => {
            let lanes: bool = now.v_lanes == s.v_lanes && now.t_lanes == s.t_lanes && now.a_lanes == s.a_lanes;
            let mixer: bool = same_strips(&now.mixer.tracks, &s.mixer.tracks) && now.mixer.master == s.mixer.master;
            let items: bool = same_clips(&now.clips, &s.clips) && same_overlays(&now.overlays, &s.overlays) && same_beds(
                &now.audios,
                &s.audios,
            ) && same_cards(&now.titles, &s.titles) && same_layers(&now.adjustments, &s.adjustments);
            !(lanes && mixer && items && same_markers(&now.markers, &s.markers))
        },
        None => {
            now.clips.len() > 0 || now.overlays.len() > 0 || now.audios.len() > 0 || now.titles.len() > 0
                || now.adjustments.len() > 0 || now.markers.len() > 0
        },
    }
}

/// Law: a reel just saved or opened has no unsaved changes, and having the same
/// record is passed on and goes both ways.
pub proof fn law_record(a: Reel, b: Reel, c: Reel)
    ensures
        kept(a, a),
        kept(a, b) ==> kept(b, a),
        kept(a, b) && kept(b, c) ==> kept(a, c),
{
}

/// Law: a proxy, a waveform, a poster or a rendered card that arrives is no edit.
pub proof fn law_arrivals_are_no_edits(r: Reel, src: Seq<char>, made: String, k: int, pngs: Seq<String>)
    ensures
        kept(proxied(r, src, made), r),
        kept(Reel { clips: clips_waved(r.clips, src, made), ..r }, r),
        kept(Reel { audios: beds_waved(r.audios, src, made), ..r }, r),
        0 <= k < r.clips.len() ==> kept(
            Reel { clips: r.clips.update(k, Clip { thumb: made, ..r.clips[k] }), ..r },
            r,
        ),
        0 <= k < r.titles.len() ==> kept(
            Reel { titles: r.titles.update(k, TitleView { pngs, ..r.titles[k] }), ..r },
            r,
        ),
{
    reveal(proxied);
}

/// Law: moving either edge of a clip is an edit.
pub proof fn law_a_trim_is_an_edit(r: Reel, k: int, c: Clip)
    requires
        0 <= k < r.clips.len(),
        c.in_s != r.clips[k].in_s || c.out_s != r.clips[k].out_s,
    ensures
        !kept(Reel { clips: r.clips.update(k, c), ..r }, r),
{
    let n = r.clips.update(k, c);
    assert(!clip_kept(n[k], r.clips[k]));
}

/// What a project holds besides the edit; no part of the undo history.
pub struct ProjectSettings {
    /// The width an export is offered at.
    pub resolution: u32,
    /// The platform the reel is aimed at.
    pub platform: String,
    /// Whether the safe-area guides are shown.
    pub guides: bool,
    pub title: String,
    pub author: String,
}

impl Default for ProjectSettings {
    fn default() -> (r: Self)
        ensures
            r.resolution == 1080,
            r.platform@ == "All platforms"@,
            !r.guides,
            r.title@ == ""@,
            r.author@ == ""@,
    {
        ProjectSettings {
            resolution: 1080,
            platform: "All platforms".to_owned(),
            guides: false,
            title: "".to_owned(),
            author: "".to_owned(),
        }
    }
}

impl Clone for ProjectSettings {
    fn clone(&self) -> (r: Self)
        ensures
            r == *self,
    {
        ProjectSettings {
            resolution: self.resolution,
            platform: self.platform.clone(),
            guides: self.guides,
            title: self.title.clone(),
            author: self.author.clone(),
        }
    }
}

/// What a project file holds.
pub struct Project {
    pub snap: Snapshot,
    pub settings: ProjectSettings,
}

/// Nothing that is made again from the media is on a reel.
pub open spec fn bare(r: Reel) -> bool {
    &&& forall|i: int|
        0 <= i < r.clips.len() ==> (#[trigger] r.clips[i]).thumb@.len() == 0 && r.clips[i].wave@.len() == 0
            && r.clips[i].proxy@.len() == 0
    &&& forall|i: int| 0 <= i < r.overlays.len() ==> (#[trigger] r.overlays[i]).proxy@.len() == 0
    &&& forall|i: int| 0 <= i < r.audios.len() ==> (#[trigger] r.audios[i]).wave@.len() == 0
    &&& forall|i: int| 0 <= i < r.titles.len() ==> (#[trigger] r.titles[i]).pngs.len() == 0
}

impl Snapshot {
    /// The reel as a project file records it.
    pub fn stored(&self) -> (r: Snapshot)
        requires
            self@.wf(),
        ensures
            kept(r@, self@),
            bare(r@),
            r@.wf(),
    {
        let mut r: Snapshot = self.clone();
        proof {
            reveal(crate::model::sound);
            reveal(crate::model::overlays_ok);
            reveal(crate::model::audios_ok);
            reveal(crate::model::titles_ok);
            reveal_strlit("");
        }
        let ghost was = self@;
        let mut i: usize = 0;
        while i < r.clips.len()
            invariant
                i <= r.clips.len(),
                was.wf(),
                ""@.len() == 0,
                r@ == (Reel { clips: r@.clips, ..was }),
                r@.clips.len() == was.clips.len(),
                forall|k: int|
                    0 <= k < i ==> clip_kept(#[trigger] r@.clips[k], was.clips[k]) && r@.clips[k].wf()
                        && r@.clips[k].thumb@.len() == 0 && r@.clips[k].wave@.len() == 0 && r@.clips[k].proxy@.len() == 0,
                forall|k: int| i <= k < was.clips.len() ==> #[trigger] r@.clips[k] == was.clips[k],
            decreases r.clips.len() - i,
        {
            let ghost before = r@.clips;
            assert(before[i as int] == was.clips[i as int]);
            proof {
                crate::model::lemma_sound_at(was.clips, i as int);
            }
            r.clips[i].thumb = "".to_owned();
            r.clips[i].wave = "".to_owned();
            r.clips[i].proxy = "".to_owned();
            assert(forall|k: int| 0 <= k < before.len() && k != i ==> r@.clips[k] == before[k]);
            i += 1;
        }
        let ghost clips = r@.clips;
        let mut i: usize = 0;
        while i < r.overlays.len()
            invariant
                i <= r.overlays.len(),
                was.wf(),
                ""@.len() == 0,
                r@ == (Reel { clips, overlays: r@.overlays, ..was }),
                r@.overlays.len() == was.overlays.len(),
                forall|k: int|
                    0 <= k < i ==> overlay_kept(#[trigger] r@.overlays[k], was.overlays[k]) && r@.overlays[k].wf()
                        && r@.overlays[k].proxy@.len() == 0,
                forall|k: int| i <= k < was.overlays.len() ==> #[trigger] r@.overlays[k] == was.overlays[k],
            decreases r.overlays.len() - i,
        {
            let ghost before = r@.overlays;
            assert(before[i as int] == was.overlays[i as int]);
            proof {
                crate::model::lemma_overlays_ok_at(was.overlays, i as int);
            }
            r.overlays[i].proxy = "".to_owned();
            assert(forall|k: int| 0 <= k < before.len() && k != i ==> r@.overlays[k] == before[k]);
            i += 1;
        }
        let ghost overlays = r@.overlays;
        let mut i: usize = 0;
        while i < r.audios.len()
            invariant
                i <= r.audios.len(),
                was.wf(),
                ""@.len() == 0,
                r@ == (Reel { clips, overlays, audios: r@.audios, ..was }),
                r@.audios.len() == was.audios.len(),
                forall|k: int|
                    0 <= k < i ==> bed_kept(#[trigger] r@.audios[k], was.audios[k]) && r@.audios[k].wf()
                        && r@.audios[k].wave@.len() == 0,
                forall|k: int| i <= k < was.audios.len() ==> #[trigger] r@.audios[k] == was.audios[k],
            decreases r.audios.len() - i,
        {
            let ghost before = r@.audios;
            assert(before[i as int] == was.audios[i as int]);
            proof {
                crate::model::lemma_audios_ok_at(was.audios, i as int);
            }
            r.audios[i].wave = "".to_owned();
            assert(forall|k: int| 0 <= k < before.len() && k != i ==> r@.audios[k] == before[k]);
            i += 1;
        }
        let ghost audios = r@.audios;
        let mut i: usize = 0;
        while i < r.titles.len()
            invariant
                i <= r.titles.len(),
                was.wf(),
                r@ == (Reel { clips, overlays, audios, titles: r@.titles, ..was }),
                r@.titles.len() == was.titles.len(),
                forall|k: int|
                    0 <= k < i ==> card_kept(#[trigger] r@.titles[k], was.titles[k]) && r@.titles[k].wf()
                        && r@.titles[k].pngs.len() == 0,
                forall|k: int| i <= k < was.titles.len() ==> #[trigger] r@.titles[k] == was.titles[k],
            decreases r.titles.len() - i,
        {
            let ghost before = r@.titles;
            assert(before[i as int] == was.titles[i as int]);
            proof {
                crate::model::lemma_titles_ok_at(was.titles, i as int);
            }
            r.titles[i].pngs = Vec::new();
            assert(r@.titles =~= before.update(i as int, TitleView { pngs: Seq::empty(), ..before[i as int] }));
            i += 1;
        }
        r
    }

    /// What a project file is to hold.
    pub fn to_project(&self, settings: &ProjectSettings) -> (r: Project)
        requires
            self@.wf(),
        ensures
            kept(r.snap@, self@),
            bare(r.snap@),
            r.snap@.wf(),
            r.settings == *settings,
    {
        Project { snap: self.stored(), settings: settings.clone() }
    }
}

impl Editor {
    /// A project file was read, or could not be: its edit is put in place, which is
    /// undone like any edit, and its settings take over.
    pub fn open_project(&mut self, settings: &mut ProjectSettings, opened: Result<(Project, usize), String>, name: &str)
        requires
            old(self)@.wf(),
            opened matches Ok(p) ==> p.0.snap@.wf(),
        ensures
            final(self)@.wf(),
            match opened {
                Ok((p, missing)) => {
                    &&& final(self)@ == old(self)@.project_opened(p.snap@, name@, missing as nat)
                    &&& *final(settings) == p.settings
                },
                Err(e) => {
                    &&& final(self)@ == old(self)@.says("Could not open "@ + name@ + ": "@ + e@)
                    &&& *final(settings) == *old(settings)
                },
            },
    {
        match opened {
            Ok((p, missing)) => {
                self.land_project(Ok((p.snap, missing)), name);
                *settings = p.settings;
            },
            Err(e) => {
                self.land_project(Err(e), name);
            },
        }
    }
}

/// Law: a project that is saved and opened again is the same reel in all that is
/// recorded, with nothing on it that is made again from the media until that is made;
/// it has no unsaved changes, and opening it was one step.
pub proof fn law_project_round_trip(e: EditorView, s: Reel, file: Reel, name: Seq<char>, missing: nat)
    requires
        kept(file, s),
        bare(file),
    ensures
        ({
            let o = e.project_opened(file, name, missing);
            &&& kept(o.reel, normal(s))
            &&& s == normal(s) ==> kept(o.reel, s)
            &&& bare(o.reel)
            &&& o.undo == e.pushed(""@).undo
        }),
{
    reveal(EditorView::pushed);
    lemma_same_crests(file, s);
}

/// Reels that are recorded alike need the same lanes.
proof fn lemma_same_crests(a: Reel, b: Reel)
    requires
        kept(a, b),
    ensures
        kept(normal(a), normal(b)),
{
    lemma_overlay_crests(a.overlays, b.overlays, a.v_lanes, a.overlays.len() as int);
    lemma_title_crests(a.titles, b.titles, a.t_lanes, a.titles.len() as int);
    lemma_audio_crests(a.audios, b.audios, a.a_lanes, a.audios.len() as int);
}

proof fn lemma_overlay_crests(a: Seq<OverlayItem>, b: Seq<OverlayItem>, base: u8, n: int)
    requires
        overlays_kept(a, b),
        0 <= n <= a.len(),
    ensures
        overlay_crest(a, base, n) == overlay_crest(b, base, n),
    decreases n,
{
    if n > 0 {
        lemma_overlay_crests(a, b, base, n - 1);
        assert(overlay_kept(a[n - 1], b[n - 1]));
    }
}

proof fn lemma_title_crests(a: Seq<TitleView>, b: Seq<TitleView>, base: u8, n: int)
    requires
        cards_kept(a, b),
        0 <= n <= a.len(),
    ensures
        title_crest(a, base, n) == title_crest(b, base, n),
    decreases n,
{
    if n > 0 {
        lemma_title_crests(a, b, base, n - 1);
        assert(card_kept(a[n - 1], b[n - 1]));
    }
}

proof fn lemma_audio_crests(a: Seq<AudioItem>, b: Seq<AudioItem>, base: u8, n: int)
    requires
        beds_kept(a, b),
        0 <= n <= a.len(),
    ensures
        audio_crest(a, base, n) == audio_crest(b, base, n),
    decreases n,
{
    if n > 0 {
        lemma_audio_crests(a, b, base, n - 1);
        assert(bed_kept(a[n - 1], b[n - 1]));
    }
}

/// What quitting comes to.
#[derive(Clone, Copy, PartialEq, Eq, Structural, Debug)]
pub enum QuitAct {
    Close,
    /// Ask whether to quit without saving.
    Ask,
    Stay,
}

/// What quitting comes to, from whether there are unsaved changes, whether there are
/// dialogs to ask with, and the answer where one was given.
pub open spec fn quit_act(dirty: bool, dialogs: bool, answer: Option<bool>) -> QuitAct {
    if !dirty {
        QuitAct::Close
    } else if !dialogs {
        QuitAct::Stay
    } else {
        match answer {
            None => QuitAct::Ask,
            Some(yes) => if yes { QuitAct::Close } else { QuitAct::Stay },
        }
    }
}

impl Editor {
    /// Quit was asked for, or its question answered. Without dialogs to ask with, what
    /// is unsaved keeps the program open, and the status line says so.
    pub fn quit(&mut self, dirty: bool, dialogs: bool, answer: Option<bool>) -> (r: QuitAct)
        requires
            old(self)@.wf(),
        ensures
            r == quit_act(dirty, dialogs, answer),
            final(self)@ == if dirty && !dialogs {
                old(self)@.says("Save the reel first (File → Save), then Quit."@)
            } else {
                old(self)@
            },
            final(self)@.wf(),
    {
        if !dirty {
            QuitAct::Close
        } else if !dialogs {
            self.status = "Save the reel first (File → Save), then Quit.".to_owned();
            QuitAct::Stay
        } else {
            match answer {
                None => QuitAct::Ask,
                Some(yes) => if yes { QuitAct::Close } else { QuitAct::Stay },
            }
        }
    }
}

/// Law: unsaved work is never closed over without a yes.
pub proof fn law_no_work_is_lost(dirty: bool, dialogs: bool, answer: Option<bool>)
    requires
        quit_act(dirty, dialogs, answer) is Close,
    ensures
        !dirty || answer == Some(true),
{
}

/// Law: a project that counts as saved differs from what was saved in nothing that is
/// written: every point, level and text of every item is the same.
pub proof fn law_saved_means_the_same(a: Reel, b: Reel, i: int)
    requires
        kept(a, b),
    ensures
        a.clips.len() == b.clips.len() && a.overlays.len() == b.overlays.len() && a.audios.len() == b.audios.len()
            && a.titles.len() == b.titles.len() && a.adjustments.len() == b.adjustments.len(),
        a.markers == b.markers && a.mixer.tracks == b.mixer.tracks && a.mixer.master == b.mixer.master,
        a.v_lanes == b.v_lanes && a.t_lanes == b.t_lanes && a.a_lanes == b.a_lanes,
        0 <= i < a.clips.len() ==> {
            let (x, y) = (a.clips[i], b.clips[i]);
            &&& x.path@ == y.path@ && x.name@ == y.name@ && x.framing@ == y.framing@
            &&& (x.duration, x.in_s, x.out_s, x.speed, x.reverse) == (y.duration, y.in_s, y.out_s, y.speed, y.reverse)
            &&& (x.has_audio, x.volume, x.denoise, x.trans_dur) == (y.has_audio, y.volume, y.denoise, y.trans_dur)
            &&& (x.group, x.enabled, x.solo) == (y.group, y.enabled, y.solo)
            &&& (x.look.effect_amount, x.look.transform, x.look.grade) == (
                y.look.effect_amount,
                y.look.transform,
                y.look.grade,
            )
            &&& (x.treat is Some) == (y.treat is Some) && (x.transition is Some) == (y.transition is Some)
            &&& x.transition is Some ==> x.transition->0@ == y.transition->0@
            &&& x.look.effect is Some ==> y.look.effect is Some && x.look.effect->0@ == y.look.effect->0@
        },
        0 <= i < a.overlays.len() ==> {
            let (x, y) = (a.overlays[i], b.overlays[i]);
            &&& x.path@ == y.path@ && x.name@ == y.name@ && x.framing@ == y.framing@ && x.blend@ == y.blend@
            &&& (x.duration, x.in_s, x.out_s, x.at, x.speed, x.reverse) == (
                y.duration,
                y.in_s,
                y.out_s,
                y.at,
                y.speed,
                y.reverse,
            )
            &&& (x.track, x.group, x.enabled, x.solo) == (y.track, y.group, y.enabled, y.solo)
            &&& (x.look.effect_amount, x.look.transform, x.look.grade) == (
                y.look.effect_amount,
                y.look.transform,
                y.look.grade,
            )
        },
        0 <= i < a.audios.len() ==> {
            let (x, y) = (a.audios[i], b.audios[i]);
            &&& x.path@ == y.path@ && x.name@ == y.name@
            &&& (x.duration, x.in_s, x.out_s, x.at, x.volume, x.vol_end) == (
                y.duration,
                y.in_s,
                y.out_s,
                y.at,
                y.volume,
                y.vol_end,
            )
            &&& (x.fade_in, x.fade_out, x.shaping, x.lane) == (y.fade_in, y.fade_out, y.shaping, y.lane)
            &&& (x.group, x.enabled, x.solo) == (y.group, y.enabled, y.solo)
            &&& (x.treat is Some) == (y.treat is Some)
        },
        0 <= i < a.titles.len() ==> {
            let (x, y) = (a.titles[i], b.titles[i]);
            &&& x.text@ == y.text@ && x.kind@ == y.kind@ && x.shape == y.shape
            &&& (x.at, x.dur, x.caption, x.group, x.track, x.enabled) == (
                y.at,
                y.dur,
                y.caption,
                y.group,
                y.track,
                y.enabled,
            )
            &&& x.style.font@ == y.style.font@ && x.style.color@ == y.style.color@ && x.style.pos@ == y.style.pos@
            &&& x.style.align@ == y.style.align@ && x.style.bevel@ == y.style.bevel@
            &&& x.style.karaoke_color@ == y.style.karaoke_color@ && x.style.outline_color@ == y.style.outline_color@
            &&& (x.style.font_size, x.style.y_frac, x.style.reveal, x.style.karaoke, x.style.boxed) == (
                y.style.font_size,
                y.style.y_frac,
                y.style.reveal,
                y.style.karaoke,
                y.style.boxed,
            )
            &&& (x.style.box_opacity, x.style.outline, x.style.bevel_size, x.style.soften, x.style.depth) == (
                y.style.box_opacity,
                y.style.outline,
                y.style.bevel_size,
                y.style.soften,
                y.style.depth,
            )
            &&& (x.style.angle, x.style.altitude, x.style.hi_opacity, x.style.sh_opacity) == (
                y.style.angle,
                y.style.altitude,
                y.style.hi_opacity,
                y.style.sh_opacity,
            )
            &&& (x.style.anim is Some) == (y.style.anim is Some)
        },
        0 <= i < a.adjustments.len() ==> {
            let (x, y) = (a.adjustments[i], b.adjustments[i]);
            &&& (x.at, x.dur, x.effect_amount, x.grade, x.group, x.enabled) == (
                y.at,
                y.dur,
                y.effect_amount,
                y.grade,
                y.group,
                y.enabled,
            )
            &&& (x.effect is Some) == (y.effect is Some)
            &&& x.effect is Some ==> x.effect->0@ == y.effect->0@
        },
{
    if 0 <= i < a.clips.len() {
        assert(clip_kept(a.clips[i], b.clips[i]));
    }
    if 0 <= i < a.overlays.len() {
        assert(overlay_kept(a.overlays[i], b.overlays[i]));
    }
    if 0 <= i < a.audios.len() {
        assert(bed_kept(a.audios[i], b.audios[i]));
    }
    if 0 <= i < a.titles.len() {
        assert(card_kept(a.titles[i], b.titles[i]));
    }
    if 0 <= i < a.adjustments.len() {
        assert(layer_kept(a.adjustments[i], b.adjustments[i]));
    }
}

/// Law: what was just saved is saved; whether a reel was saved does not depend on which
/// of the two is asked about; an empty reel has nothing to save, and one with anything
/// on it does.
pub proof fn law_saved_is_mutual(a: Reel, b: Reel)
    ensures
        kept(a, a),
        kept(a, b) == kept(b, a),
        has_content(a) <==> a.clips.len() + a.overlays.len() + a.audios.len() + a.titles.len() + a.adjustments.len()
            + a.markers.len() > 0,
{
    if kept(a, b) {
        lemma_kept_back(a, b);
    }
    if kept(b, a) {
        lemma_kept_back(b, a);
    }
}

proof fn lemma_kept_back(a: Reel, b: Reel)
    requires
        kept(a, b),
    ensures
        kept(b, a),
{
    assert forall|i: int| 0 <= i < b.clips.len() implies clip_kept(#[trigger] b.clips[i], a.clips[i]) by {
        assert(clip_kept(a.clips[i], b.clips[i]));
    }
    assert forall|i: int| 0 <= i < b.overlays.len() implies overlay_kept(#[trigger] b.overlays[i], a.overlays[i]) by {
        assert(overlay_kept(a.overlays[i], b.overlays[i]));
    }
    assert forall|i: int| 0 <= i < b.audios.len() implies bed_kept(#[trigger] b.audios[i], a.audios[i]) by {
        assert(bed_kept(a.audios[i], b.audios[i]));
    }
    assert forall|i: int| 0 <= i < b.titles.len() implies card_kept(#[trigger] b.titles[i], a.titles[i]) by {
        assert(card_kept(a.titles[i], b.titles[i]));
    }
    assert forall|i: int| 0 <= i < b.adjustments.len() implies layer_kept(#[trigger] b.adjustments[i], a.adjustments[i]) by {
        assert(layer_kept(a.adjustments[i], b.adjustments[i]));
    }
}

} // verus!
