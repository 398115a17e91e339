//! The menus: which of their rows can be picked, and what the rows of an item's menu are.

use crate::editor::{Editor, EditorView};
use crate::groups::group_at;
use crate::model::{Clip, Reel, Sel, Snapshot, TitleView};
use crate::trims::{can_join, can_join_clips};
use vstd::prelude::*;

verus! {

/// What else the program is doing.
#[derive(Clone, Copy, PartialEq, Eq, Structural, Debug)]
pub struct Doing {
    pub exporting: bool,
    pub importing: bool,
    /// Whether silence is being looked for.
    pub listening: bool,
    pub transcribing: bool,
    /// Whether the monitor has a window of its own.
    pub monitor_out: bool,
    /// Whether the inspector is shown.
    pub inspector_open: bool,
}

/// A row of the menu bar, and of the menus of the monitor and of an empty timeline.
#[derive(Clone, Copy, PartialEq, Eq, Structural, Debug)]
pub enum MenuRow {
    OpenProject,
    SaveProject,
    Export,
    ExportOtio,
    ProjectSettings,
    Quit,
    Undo,
    Redo,
    Copy,
    Paste,
    PasteLook,
    ResetLook,
    Delete,
    Group,
    Ungroup,
    SetIn,
    SetOut,
    Split,
    Join,
    Freeze,
    Replay,
    Dissolve,
    Mute,
    Disable,
    Solo,
    ClearSolos,
    Detach,
    MoveLeft,
    MoveRight,
    AddToReel,
    AddClips,
    AddOverlay,
    AddSticker,
    AddEmoji,
    AddAudio,
    Voiceover,
    AddText,
    AddLayer,
    AddVideoTrack,
    AddTextTrack,
    AddAudioTrack,
    Autocut,
    Captions,
    RemoveCaptions,
    Beats,
    Marker,
    ClearMarkers,
    Effects,
    PluginHub,
    Play,
    PlayFromStart,
    Loop,
    MarkIn,
    MarkOut,
    ClearMarks,
    Preview,
    Fullscreen,
    ZoomIn,
    ZoomOut,
    Appearance,
    PopMonitor,
    FloatInspector,
    ToggleInspector,
    SafeAreas,
    Handles,
    Magnet,
    SaveLayout,
    KeyboardLayout,
    Shortcuts,
    About,
}

/// Whether any item is soloed, be it on or off.
pub open spec fn some_solo(r: Reel) -> bool {
    ||| exists|i: int| 0 <= i < r.clips.len() && (#[trigger] r.clips[i]).solo
    ||| exists|i: int| 0 <= i < r.overlays.len() && (#[trigger] r.overlays[i]).solo
    ||| exists|i: int| 0 <= i < r.audios.len() && (#[trigger] r.audios[i]).solo
}

/// Whether any card is a caption.
pub open spec fn some_caption(s: Seq<TitleView>) -> bool {
    exists|i: int| 0 <= i < s.len() && (#[trigger] s[i]).caption
}

/// Whether a selection is a clip that sounds.
pub open spec fn sounding(r: Reel, s: Option<Sel>) -> bool {
    s matches Some(Sel::Main(i)) && i < r.clips.len() && r.clips[i as int].has_audio
}

impl EditorView {
    /// Whether a row of the menu bar can be picked.
    pub open spec fn row_enabled(self, row: MenuRow, doing: Doing) -> bool {
        let clips = self.reel.clips.len() > 0;
        let idle = !doing.exporting;
        match row {
            MenuRow::OpenProject | MenuRow::AddToReel | MenuRow::Voiceover => idle,
            MenuRow::SaveProject | MenuRow::ExportOtio => clips,
            MenuRow::Export | MenuRow::Preview => clips && idle,
            MenuRow::Undo => self.undo.len() > 0,
            MenuRow::Redo => self.redo.len() > 0,
            MenuRow::Copy | MenuRow::Delete | MenuRow::Disable => self.selected is Some,
            MenuRow::Paste => self.clipboard is Some && idle,
            MenuRow::PasteLook => self.clipboard is Some && (self.selected matches Some(s) && (s is Main || s is Over)),
            MenuRow::ResetLook => self.selected matches Some(s) && (s is Main || s is Over || s is Adjust),
            MenuRow::Group => self.marked.len() >= 2,
            MenuRow::Ungroup => self.selected matches Some(s) && group_at(self.reel, s) != 0,
            MenuRow::SetIn | MenuRow::SetOut | MenuRow::Split => clips,
            MenuRow::Join => (self.selected matches Some(s) && s is Main) && idle,
            MenuRow::Freeze | MenuRow::Replay | MenuRow::Dissolve => clips && idle,
            MenuRow::Mute => sounding(self.reel, self.selected) || (self.selected matches Some(s) && s is Aud),
            MenuRow::Solo => self.selected matches Some(s) && (s is Main || s is Over || s is Aud),
            MenuRow::ClearSolos => some_solo(self.reel),
            MenuRow::Detach => sounding(self.reel, self.selected),
            MenuRow::MoveLeft | MenuRow::MoveRight => self.selected matches Some(s) && s is Main,
            MenuRow::AddClips => !doing.importing && idle,
            MenuRow::AddOverlay | MenuRow::AddSticker | MenuRow::AddEmoji | MenuRow::AddAudio | MenuRow::AddText
            | MenuRow::AddLayer => clips && idle,
            MenuRow::AddVideoTrack => self.reel.v_lanes < self.limits.video,
            MenuRow::AddTextTrack => self.reel.t_lanes < self.limits.text,
            MenuRow::AddAudioTrack => self.reel.a_lanes < self.limits.audio,
            MenuRow::Autocut => clips && !doing.listening,
            MenuRow::Captions => clips && idle && !doing.transcribing,
            MenuRow::RemoveCaptions => some_caption(self.reel.titles),
            MenuRow::Beats => self.reel.audios.len() > 0,
            MenuRow::ClearMarkers => self.reel.markers.len() > 0,
            MenuRow::Play | MenuRow::PlayFromStart | MenuRow::Loop | MenuRow::MarkIn | MenuRow::MarkOut => clips,
            MenuRow::ClearMarks => self.mark_in is Some || self.mark_out is Some,
            MenuRow::PopMonitor => !doing.monitor_out,
            MenuRow::FloatInspector => doing.inspector_open,
            MenuRow::ProjectSettings | MenuRow::Quit | MenuRow::Marker | MenuRow::Effects | MenuRow::PluginHub
            | MenuRow::Fullscreen | MenuRow::ZoomIn | MenuRow::ZoomOut | MenuRow::Appearance
            | MenuRow::ToggleInspector | MenuRow::SafeAreas | MenuRow::Handles | MenuRow::Magnet | MenuRow::SaveLayout
            | MenuRow::KeyboardLayout | MenuRow::Shortcuts | MenuRow::About => true,
        }
    }
}

impl Snapshot {
    fn some_solo(&self) -> (r: bool)
        ensures
            r == some_solo(self@),
    {
        let mut i: usize = 0;
        while i < self.clips.len()
            invariant
                i <= self.clips@.len(),
                forall|k: int| 0 <= k < i ==> !(#[trigger] self@.clips[k]).solo,
            decreases self.clips@.len() - i,
        {
            if self.clips[i].solo {
                assert(self@.clips[i as int].solo);
                return true;
            }
            i += 1;
        }
        let mut i: usize = 0;
        while i < self.overlays.len()
            invariant
                i <= self.overlays@.len(),
                forall|k: int| 0 <= k < i ==> !(#[trigger] self@.overlays[k]).solo,
            decreases self.overlays@.len() - i,
        {
            if self.overlays[i].solo {
                assert(self@.overlays[i as int].solo);
                return true;
            }
            i += 1;
        }
        let mut i: usize = 0;
        while i < self.audios.len()
            invariant
                i <= self.audios@.len(),
                forall|k: int| 0 <= k < i ==> !(#[trigger] self@.audios[k]).solo,
            decreases self.audios@.len() - i,
        {
            if self.audios[i].solo {
                assert(self@.audios[i as int].solo);
                return true;
            }
            i += 1;
        }
        false
    }

    fn some_caption(&self) -> (r: bool)
        ensures
            r == some_caption(self@.titles),
    {
        let mut i: usize = 0;
        assert(self@.titles.len() == self.titles@.len());
        while i < self.titles.len()
            invariant
                i <= self.titles@.len(),
                self@.titles.len() == self.titles@.len(),
                forall|k: int| 0 <= k < i ==> !(#[trigger] self@.titles[k]).caption,
            decreases self.titles@.len() - i,
        {
            assert(self@.titles[i as int].caption == self.titles@[i as int].caption);
            if self.titles[i].caption {
                return true;
            }
            i += 1;
        }
        false
    }
}

impl Editor {
    fn sounding_sel(&self) -> (r: bool)
        ensures
            r == sounding(self@.reel, self@.selected),
    {
        match self.selected {
            Some(Sel::Main(i)) => i < self.reel.clips.len() && self.reel.clips[i].has_audio,
            _ => false,
        }
    }

    /// Whether a row of the menu bar can be picked.
    pub fn menu_enabled(&self, row: MenuRow, doing: Doing) -> (r: bool)
        ensures
            r == self@.row_enabled(row, doing),
    {
        let clips: bool = self.reel.clips.len() > 0;
        let idle: bool = !doing.exporting;
        match row {
            MenuRow::OpenProject | MenuRow::AddToReel | MenuRow::Voiceover => idle,
            MenuRow::SaveProject | MenuRow::ExportOtio => clips,
            MenuRow::Export | MenuRow::Preview => clips && idle,
            MenuRow::Undo => {
                assert(self@.undo.len() == self.undo_stack@.len());
                self.undo_stack.len() > 0
            },
            MenuRow::Redo => {
                assert(self@.redo.len() == self.redo_stack@.len());
                self.redo_stack.len() > 0
            },
            MenuRow::Copy | MenuRow::Delete | MenuRow::Disable => self.selected.is_some(),
            MenuRow::Paste => self.clipboard.is_some() && idle,
            MenuRow::PasteLook => self.clipboard.is_some() && matches!(self.selected, Some(Sel::Main(_)) | Some(Sel::Over(_))),
            MenuRow::ResetLook => matches!(
                self.selected,
                Some(Sel::Main(_)) | Some(Sel::Over(_)) | Some(Sel::Adjust(_))
            ),
            MenuRow::Group => self.marked.len() >= 2,
            MenuRow::Ungroup => match self.selected {
                Some(s) => self.reel.group_of(s) != 0,
                None => false,
            },
            MenuRow::SetIn | MenuRow::SetOut | MenuRow::Split => clips,
            MenuRow::Join => matches!(self.selected, Some(Sel::Main(_))) && idle,
            MenuRow::Freeze | MenuRow::Replay | MenuRow::Dissolve => clips && idle,
            MenuRow::Mute => self.sounding_sel() || matches!(self.selected, Some(Sel::Aud(_))),
            MenuRow::Solo => matches!(self.selected, Some(Sel::Main(_)) | Some(Sel::Over(_)) | Some(Sel::Aud(_))),
            MenuRow::ClearSolos => self.reel.some_solo(),
            MenuRow::Detach => self.sounding_sel(),
            MenuRow::MoveLeft | MenuRow::MoveRight => matches!(self.selected, Some(Sel::Main(_))),
            MenuRow::AddClips => !doing.importing && idle,
            MenuRow::AddOverlay | MenuRow::AddSticker | MenuRow::AddEmoji | MenuRow::AddAudio | MenuRow::AddText
            | MenuRow::AddLayer => clips && idle,
            MenuRow::AddVideoTrack => self.reel.v_lanes < self.limits.video,
            MenuRow::AddTextTrack => self.reel.t_lanes < self.limits.text,
            MenuRow::AddAudioTrack => self.reel.a_lanes < self.limits.audio,
            MenuRow::Autocut => clips && !doing.listening,
            MenuRow::Captions => clips && idle && !doing.transcribing,
            MenuRow::RemoveCaptions => self.reel.some_caption(),
            MenuRow::Beats => self.reel.audios.len() > 0,
            MenuRow::ClearMarkers => self.reel.markers.len() > 0,
            MenuRow::Play | MenuRow::PlayFromStart | MenuRow::Loop | MenuRow::MarkIn | MenuRow::MarkOut => clips,
            MenuRow::ClearMarks => self.mark_in.is_some() || self.mark_out.is_some(),
            MenuRow::PopMonitor => !doing.monitor_out,
            MenuRow::FloatInspector => doing.inspector_open,
            MenuRow::ProjectSettings | MenuRow::Quit | MenuRow::Marker | MenuRow::Effects | MenuRow::PluginHub
            | MenuRow::Fullscreen | MenuRow::ZoomIn | MenuRow::ZoomOut | MenuRow::Appearance
            | MenuRow::ToggleInspector | MenuRow::SafeAreas | MenuRow::Handles | MenuRow::Magnet | MenuRow::SaveLayout
            | MenuRow::KeyboardLayout | MenuRow::Shortcuts | MenuRow::About => true,
        }
    }
}

/// A row of the menu that an item on the timeline opens.
#[derive(Clone, Copy, PartialEq, Eq, Structural, Debug)]
pub enum ItemRow {
    Split,
    Freeze,
    Replay,
    SetIn,
    SetOut,
    Dissolve,
    Join,
    Effects,
    Mute,
    Disable,
    Solo,
    Detach,
    Copy,
    Paste,
    MoveLeft,
    MoveRight,
    TrackUp,
    TrackDown,
    Align,
    AddText,
    Extend,
    Group,
    Ungroup,
    Remove,
}

/// The rows of an item's menu, from the top. The first clip has none before it to
/// dissolve from.
pub open spec fn item_rows(s: Sel) -> Seq<ItemRow> {
    match s {
        Sel::Main(i) => {
            let head = seq![ItemRow::Split, ItemRow::Freeze, ItemRow::Replay, ItemRow::SetIn, ItemRow::SetOut];
            let tail = seq![
                ItemRow::Join,
                ItemRow::Effects,
                ItemRow::Mute,
                ItemRow::Disable,
                ItemRow::Solo,
                ItemRow::Detach,
                ItemRow::Copy,
                ItemRow::Paste,
                ItemRow::MoveLeft,
                ItemRow::MoveRight,
                ItemRow::Group,
                ItemRow::Ungroup,
                ItemRow::Remove,
            ];
            if i > 0 { head.push(ItemRow::Dissolve) + tail } else { head + tail }
        },
        Sel::Over(_) => seq![
            ItemRow::Split,
            ItemRow::TrackUp,
            ItemRow::TrackDown,
            ItemRow::Copy,
            ItemRow::Paste,
            ItemRow::Effects,
            ItemRow::Disable,
            ItemRow::Solo,
            ItemRow::Group,
            ItemRow::Ungroup,
            ItemRow::Remove,
        ],
        Sel::Aud(_) => seq![
            ItemRow::Split,
            ItemRow::Copy,
            ItemRow::Paste,
            ItemRow::Mute,
            ItemRow::Disable,
            ItemRow::Solo,
            ItemRow::TrackUp,
            ItemRow::TrackDown,
            ItemRow::Align,
            ItemRow::Group,
            ItemRow::Ungroup,
            ItemRow::Remove,
        ],
        Sel::Title(_) => seq![
            ItemRow::AddText,
            ItemRow::TrackUp,
            ItemRow::TrackDown,
            ItemRow::Extend,
            ItemRow::Copy,
            ItemRow::Paste,
            ItemRow::Group,
            ItemRow::Ungroup,
            ItemRow::Remove,
        ],
        Sel::Adjust(_) => Seq::empty(),
    }
}

/// The track of an item with the lowest and the highest it can have; none for what
/// has no track of its own.
pub open spec fn track_range(r: Reel, s: Sel) -> Option<(int, int, int)> {
    match s {
        Sel::Over(j) => Some((at_least(r.overlays[j as int].track, 2), 2, 1 + r.v_lanes)),
        Sel::Aud(k) => Some((at_least(r.audios[k as int].lane, 1), 1, r.a_lanes as int)),
        Sel::Title(k) => Some((at_least(r.titles[k as int].track, 1), 1, r.t_lanes as int)),
        _ => None,
    }
}

pub open spec fn at_least(track: u8, lowest: int) -> int {
    if track > lowest { track as int } else { lowest }
}

impl EditorView {
    /// Whether a row of the menu of item `s` can be picked.
    pub open spec fn item_row_enabled(self, s: Sel, row: ItemRow, exporting: bool) -> bool {
        let clips = self.reel.clips;
        match row {
            ItemRow::Join => s matches Sel::Main(i) && {
                ||| i > 0 && can_join(clips[i - 1], clips[i as int])
                ||| i + 1 < clips.len() && can_join(clips[i as int], clips[i + 1])
            },
            ItemRow::Mute => s matches Sel::Main(i) ==> clips[i as int].has_audio,
            ItemRow::Detach => s matches Sel::Main(i) && clips[i as int].has_audio,
            ItemRow::Paste => self.clipboard is Some,
            ItemRow::MoveLeft => s matches Sel::Main(i) && i > 0,
            ItemRow::MoveRight => s matches Sel::Main(i) && i + 1 < clips.len(),
            ItemRow::TrackUp => track_range(self.reel, s) matches Some((t, lo, hi)) && t < hi,
            ItemRow::TrackDown => track_range(self.reel, s) matches Some((t, lo, hi)) && t > lo,
            ItemRow::AddText => clips.len() > 0 && !exporting,
            ItemRow::Extend => clips.len() > 0,
            ItemRow::Group => self.marked.len() >= 2,
            ItemRow::Ungroup => group_at(self.reel, s) != 0,
            _ => true,
        }
    }
}

/// The rows of an item's menu.
pub fn ctx_rows(s: Sel) -> (r: Vec<ItemRow>)
    ensures
        r@ == item_rows(s),
{
    let r: Vec<ItemRow> = match s {
        Sel::Main(i) => {
            let mut r: Vec<ItemRow> = vec![
                ItemRow::Split,
                ItemRow::Freeze,
                ItemRow::Replay,
                ItemRow::SetIn,
                ItemRow::SetOut,
            ];
            if i > 0 {
                r.push(ItemRow::Dissolve);
            }
            r.push(ItemRow::Join);
            r.push(ItemRow::Effects);
            r.push(ItemRow::Mute);
            r.push(ItemRow::Disable);
            r.push(ItemRow::Solo);
            r.push(ItemRow::Detach);
            r.push(ItemRow::Copy);
            r.push(ItemRow::Paste);
            r.push(ItemRow::MoveLeft);
            r.push(ItemRow::MoveRight);
            r.push(ItemRow::Group);
            r.push(ItemRow::Ungroup);
            r.push(ItemRow::Remove);
            r
        },
        Sel::Over(_) => vec![
            ItemRow::Split,
            ItemRow::TrackUp,
            ItemRow::TrackDown,
            ItemRow::Copy,
            ItemRow::Paste,
            ItemRow::Effects,
            ItemRow::Disable,
            ItemRow::Solo,
            ItemRow::Group,
            ItemRow::Ungroup,
            ItemRow::Remove,
        ],
        Sel::Aud(_) => vec![
            ItemRow::Split,
            ItemRow::Copy,
            ItemRow::Paste,
            ItemRow::Mute,
            ItemRow::Disable,
            ItemRow::Solo,
            ItemRow::TrackUp,
            ItemRow::TrackDown,
            ItemRow::Align,
            ItemRow::Group,
            ItemRow::Ungroup,
            ItemRow::Remove,
        ],
        Sel::Title(_) => vec![
            ItemRow::AddText,
            ItemRow::TrackUp,
            ItemRow::TrackDown,
            ItemRow::Extend,
            ItemRow::Copy,
            ItemRow::Paste,
            ItemRow::Group,
            ItemRow::Ungroup,
            ItemRow::Remove,
        ],
        Sel::Adjust(_) => Vec::new(),
    };
    assert(r@ =~= item_rows(s));
    r
}

impl Editor {
    /// The track of an item with the lowest and the highest it can have.
    fn track_of(&self, s: Sel) -> (r: Option<(u16, u16, u16)>)
        requires
            self@.reel.has(s),
        ensures
            match track_range(self@.reel, s) {
                Some((t, lo, hi)) => r matches Some(x) && x.0 == t && x.1 == lo && x.2 == hi,
                None => r is None,
            },
    {
        match s {
            Sel::Over(j) => {
                let t: u8 = self.reel.overlays[j].track;
                Some((if t > 2 { t as u16 } else { 2 }, 2, 1 + self.reel.v_lanes as u16))
            },
            Sel::Aud(k) => {
                let t: u8 = self.reel.audios[k].lane;
                Some((if t > 1 { t as u16 } else { 1 }, 1, self.reel.a_lanes as u16))
            },
            Sel::Title(k) => {
                assert(self@.reel.titles[k as int].track == self.reel.titles@[k as int].track);
                let t: u8 = self.reel.titles[k].track;
                Some((if t > 1 { t as u16 } else { 1 }, 1, self.reel.t_lanes as u16))
            },
            _ => None,
        }
    }

    /// Whether a row of the menu of item `s` can be picked.
    pub fn ctx_enabled(&self, s: Sel, row: ItemRow, exporting: bool) -> (r: bool)
        requires
            self@.wf(),
            self@.reel.has(s),
        ensures
            r == self@.item_row_enabled(s, row, exporting),
    {
        let n: usize = self.reel.clips.len();
        match row {
            ItemRow::Join => match s {
                Sel::Main(i) => {
                    let clips: &Vec<Clip> = &self.reel.clips;
                    proof {
                        crate::model::lemma_sound_at(self@.reel.clips, i as int);
                        if i > 0 {
                            crate::model::lemma_sound_at(self@.reel.clips, i - 1);
                        }
                        if i + 1 < n {
                            crate::model::lemma_sound_at(self@.reel.clips, i + 1);
                        }
                    }
                    (i > 0 && can_join_clips(&clips[i - 1], &clips[i])) || (i < n - 1 && can_join_clips(
                        &clips[i],
                        &clips[i + 1],
                    ))
                },
                _ => false,
            },
            ItemRow::Mute => match s {
                Sel::Main(i) => self.reel.clips[i].has_audio,
                _ => true,
            },
            ItemRow::Detach => match s {
                Sel::Main(i) => self.reel.clips[i].has_audio,
                _ => false,
            },
            ItemRow::Paste => self.clipboard.is_some(),
            ItemRow::MoveLeft => match s {
                Sel::Main(i) => i > 0,
                _ => false,
            },
            ItemRow::MoveRight => match s {
                Sel::Main(i) => i < n - 1,
                _ => false,
            },
            ItemRow::TrackUp => match self.track_of(s) {
                Some((t, _, hi)) => t < hi,
                None => false,
            },
            ItemRow::TrackDown => match self.track_of(s) {
                Some((t, lo, _)) => t > lo,
                None => false,
            },
            ItemRow::AddText => n > 0 && !exporting,
            ItemRow::Extend => n > 0,
            ItemRow::Group => self.marked.len() >= 2,
            ItemRow::Ungroup => self.reel.group_of(s) != 0,
            _ => true,
        }
    }
}

/// Whether an item is on, and whether it is soloed, by the labels of the rows that
/// switch it.
pub open spec fn switch_names(enabled: bool, solo: bool) -> (Seq<char>, Seq<char>) {
    (if enabled { "Disable"@ } else { "Enable"@ }, if solo { "Unsolo"@ } else { "Solo"@ })
}

pub fn switch_labels(enabled: bool, solo: bool) -> (r: (&'static str, &'static str))
    ensures
        (r.0@, r.1@) == switch_names(enabled, solo),
{
    (if enabled { "Disable" } else { "Enable" }, if solo { "Unsolo" } else { "Solo" })
}

/// Law: where undo, redo or the removal of captions cannot be picked, there is nothing
/// for them to do.
pub proof fn law_rows_follow_what_is_there(e: EditorView, doing: Doing)
    ensures
        !e.row_enabled(MenuRow::Undo, doing) ==> e.undone().reel == e.reel,
        !e.row_enabled(MenuRow::Redo, doing) ==> e.redone().reel == e.reel,
        !e.row_enabled(MenuRow::RemoveCaptions, doing) ==> e.captions_cleared() == e,
{
    if !some_caption(e.reel.titles) {
        lemma_no_captions(e.reel.titles, e.reel.titles.len() as int);
    }
}

proof fn lemma_no_captions(s: Seq<TitleView>, n: int)
    requires
        !some_caption(s),
        0 <= n <= s.len(),
    ensures
        crate::titles::uncaptioned(s, n) == s.take(n),
    decreases n,
{
    if n > 0 {
        lemma_no_captions(s, n - 1);
        assert(!s[n - 1].caption);
        assert(s.take(n - 1).push(s[n - 1]) =~= s.take(n));
    } else {
        assert(s.take(0) =~= Seq::<TitleView>::empty());
    }
}

/// Law: a row of a menu that is greyed out would do nothing: the reel stays as it is.
pub proof fn law_grey_rows_do_nothing(e: EditorView, doing: Doing)
    requires
        e.selected matches Some(s) ==> e.reel.has(s),
        !doing.exporting,
    ensures
        !e.row_enabled(MenuRow::Copy, doing) ==> e.copied().clipboard == e.clipboard,
        !e.row_enabled(MenuRow::Paste, doing) ==> e.pasted().reel == e.reel,
        !e.row_enabled(MenuRow::Delete, doing) ==> e.sel_deleted().reel == e.reel,
        !e.row_enabled(MenuRow::Disable, doing) ==> e.disable_toggled().reel == e.reel,
        !e.row_enabled(MenuRow::Mute, doing) ==> e.muted().reel == e.reel,
        !e.row_enabled(MenuRow::Solo, doing) ==> e.solo_toggled().reel == e.reel,
        !e.row_enabled(MenuRow::ClearSolos, doing) ==> e.solos_cleared() == e,
        !e.row_enabled(MenuRow::Group, doing) ==> e.grouped().reel == e.reel,
        !e.row_enabled(MenuRow::MoveLeft, doing) ==> e.sel_moved(-1) == e,
        !e.row_enabled(MenuRow::MoveRight, doing) ==> e.sel_moved(1) == e,
        !e.row_enabled(MenuRow::AddVideoTrack, doing) ==> e.v_track_added().reel == e.reel,
        !e.row_enabled(MenuRow::AddTextTrack, doing) ==> e.t_track_added().reel == e.reel,
        !e.row_enabled(MenuRow::AddAudioTrack, doing) ==> e.a_track_added().reel == e.reel,
        !e.row_enabled(MenuRow::ClearMarkers, doing) ==> e.markers_cleared() == e,
        !e.row_enabled(MenuRow::ClearMarks, doing) ==> e.range_cleared() == e,
        !e.row_enabled(MenuRow::Join, doing) ==> e.joined_sel().reel == e.reel,
        !e.row_enabled(MenuRow::ResetLook, doing) ==> e.look_reset().reel == e.reel,
{
    reveal(EditorView::pushed);
}

/// Law: a row that is not greyed out does something.
pub proof fn law_live_rows_do_something(e: EditorView, doing: Doing)
    requires
        e.selected matches Some(s) ==> e.reel.has(s),
        doing.exporting == false,
    ensures
        e.row_enabled(MenuRow::Undo, doing) ==> e.undone().undo.len() < e.undo.len(),
        e.row_enabled(MenuRow::Redo, doing) ==> e.redone().redo.len() < e.redo.len(),
        e.row_enabled(MenuRow::Paste, doing) ==> e.pasted().reel != e.reel,
        e.row_enabled(MenuRow::AddVideoTrack, doing) ==> e.v_track_added().reel.v_lanes == e.reel.v_lanes + 1,
        e.row_enabled(MenuRow::AddTextTrack, doing) ==> e.t_track_added().reel.t_lanes == e.reel.t_lanes + 1,
        e.row_enabled(MenuRow::AddAudioTrack, doing) ==> e.a_track_added().reel.a_lanes == e.reel.a_lanes + 1,
        e.row_enabled(MenuRow::ClearMarkers, doing) ==> e.reel.markers.len() > e.markers_cleared().reel.markers.len(),
        e.row_enabled(MenuRow::ClearMarks, doing) ==> e.range_cleared() != e,
        e.row_enabled(MenuRow::Delete, doing) && !(e.selected->0 is Main) ==> e.sel_deleted().reel != e.reel,
        e.row_enabled(MenuRow::Copy, doing) && !(e.selected->0 is Adjust) ==> e.copied().clipboard is Some,
        e.row_enabled(MenuRow::Mute, doing) && e.selected->0 is Main ==> e.muted().reel.clips[e.selected->0->Main_0 as int].volume
            != e.reel.clips[e.selected->0->Main_0 as int].volume,
{
    reveal(EditorView::pushed);
    crate::clipboard::law_paste(e);
    crate::trims::law_delete_takes_the_selected_item(e);
    if e.clipboard is Some {
        let (a, b) = (e.reel, e.pasted().reel);
        assert(b.clips.len() + b.overlays.len() + b.audios.len() + b.titles.len() == a.clips.len() + a.overlays.len()
            + a.audios.len() + a.titles.len() + 1);
    }
}

/// Law: the rows of an item's menu that are greyed out would do nothing to it: a clip at
/// an end is not moved past it, and one without a matching neighbour is not joined.
pub proof fn law_item_rows(e: EditorView, i: usize, exporting: bool)
    requires
        e.selected == Some(Sel::Main(i)),
        i < e.reel.clips.len(),
    ensures
        e.item_row_enabled(Sel::Main(i), ItemRow::MoveLeft, exporting) <==> i > 0,
        e.item_row_enabled(Sel::Main(i), ItemRow::MoveRight, exporting) <==> i + 1 < e.reel.clips.len(),
        !e.item_row_enabled(Sel::Main(i), ItemRow::MoveLeft, exporting) ==> e.sel_moved(-1) == e,
        !e.item_row_enabled(Sel::Main(i), ItemRow::MoveRight, exporting) ==> e.sel_moved(1) == e,
        !e.item_row_enabled(Sel::Main(i), ItemRow::Join, exporting) ==> e.joined_sel().reel == e.reel,
        e.item_row_enabled(Sel::Main(i), ItemRow::Join, exporting) ==> e.joined_sel().reel.clips.len() + 1
            == e.reel.clips.len(),
        e.item_row_enabled(Sel::Main(i), ItemRow::Mute, exporting) <==> e.reel.clips[i as int].has_audio,
        e.item_row_enabled(Sel::Main(i), ItemRow::Detach, exporting) <==> e.reel.clips[i as int].has_audio,
        item_rows(Sel::Main(i)).contains(ItemRow::Dissolve) <==> i > 0,
{
    reveal(crate::magnet::carried);
    crate::trims::law_join(e, i);
    let rows = item_rows(Sel::Main(i));
    if i > 0 {
        assert(rows[5] == ItemRow::Dissolve);
    }
}

/// Law: a cutaway, bed or title can go up a track while there is one above it and down
/// while there is one below.
pub proof fn law_track_rows(e: EditorView, j: usize, exporting: bool)
    requires
        j < e.reel.overlays.len(),
        e.reel.overlays[j as int].track >= 2,
    ensures
        e.item_row_enabled(Sel::Over(j), ItemRow::TrackUp, exporting) <==> e.reel.overlays[j as int].track < 1
            + e.reel.v_lanes,
        e.item_row_enabled(Sel::Over(j), ItemRow::TrackDown, exporting) <==> e.reel.overlays[j as int].track > 2,
{
}

/// Law: on an empty reel there is nothing to save, cut, play or put text on; while an
/// export runs nothing that changes what is exported can be started.
pub proof fn law_rows_of_an_empty_reel(e: EditorView, doing: Doing)
    ensures
        e.reel.clips.len() == 0 ==> {
            &&& !e.row_enabled(MenuRow::SaveProject, doing) && !e.row_enabled(MenuRow::ExportOtio, doing)
            &&& !e.row_enabled(MenuRow::Export, doing) && !e.row_enabled(MenuRow::Preview, doing)
            &&& !e.row_enabled(MenuRow::SetIn, doing) && !e.row_enabled(MenuRow::SetOut, doing)
            &&& !e.row_enabled(MenuRow::Split, doing) && !e.row_enabled(MenuRow::Freeze, doing)
            &&& !e.row_enabled(MenuRow::Replay, doing) && !e.row_enabled(MenuRow::Dissolve, doing)
            &&& !e.row_enabled(MenuRow::AddOverlay, doing) && !e.row_enabled(MenuRow::AddAudio, doing)
            &&& !e.row_enabled(MenuRow::AddText, doing) && !e.row_enabled(MenuRow::AddLayer, doing)
            &&& !e.row_enabled(MenuRow::Autocut, doing) && !e.row_enabled(MenuRow::Captions, doing)
            &&& !e.row_enabled(MenuRow::Play, doing) && !e.row_enabled(MenuRow::PlayFromStart, doing)
            &&& !e.row_enabled(MenuRow::MarkIn, doing) && !e.row_enabled(MenuRow::MarkOut, doing)
        },
        e.reel.clips.len() > 0 ==> e.row_enabled(MenuRow::SaveProject, doing) && e.row_enabled(MenuRow::Split, doing)
            && e.row_enabled(MenuRow::Play, doing) && e.row_enabled(MenuRow::SetIn, doing),
        doing.exporting ==> {
            &&& !e.row_enabled(MenuRow::Export, doing) && !e.row_enabled(MenuRow::Preview, doing)
            &&& !e.row_enabled(MenuRow::OpenProject, doing) && !e.row_enabled(MenuRow::AddClips, doing)
            &&& !e.row_enabled(MenuRow::Freeze, doing) && !e.row_enabled(MenuRow::Replay, doing)
            &&& !e.row_enabled(MenuRow::Dissolve, doing) && !e.row_enabled(MenuRow::Voiceover, doing)
            &&& !e.row_enabled(MenuRow::AddText, doing) && !e.row_enabled(MenuRow::Captions, doing)
            &&& !e.row_enabled(MenuRow::Paste, doing) && !e.row_enabled(MenuRow::Join, doing)
        },
        e.reel.clips.len() > 0 && !doing.exporting ==> e.row_enabled(MenuRow::Export, doing) && e.row_enabled(
            MenuRow::Freeze,
            doing,
        ) && e.row_enabled(MenuRow::AddText, doing) && e.row_enabled(MenuRow::Dissolve, doing),
        e.row_enabled(MenuRow::Undo, doing) <==> e.undo.len() > 0,
        e.row_enabled(MenuRow::Redo, doing) <==> e.redo.len() > 0,
        e.row_enabled(MenuRow::Group, doing) <==> e.marked.len() >= 2,
        e.row_enabled(MenuRow::Beats, doing) <==> e.reel.audios.len() > 0,
{
}

} // verus!
