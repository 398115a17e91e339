//! The keyboard: which keys do what, and the blade keys of other editors.

use crate::text::{cat4, same_text};
use crate::tiles::ClipAppear;
use crate::time::Time;
use vstd::prelude::*;

verus! {

/// Whose blade key splits at the playhead. The other keys are the same for all.
#[derive(Clone, Copy, PartialEq, Eq, Structural, Debug)]
pub enum KeyScheme {
    MorReel,
    Resolve,
    Premiere,
    FinalCut,
}

impl KeyScheme {
    /// What the choice is stored as.
    pub open spec fn id_text(self) -> Seq<char> {
        match self {
            KeyScheme::MorReel => "morreel"@,
            KeyScheme::Resolve => "resolve"@,
            KeyScheme::Premiere => "premiere"@,
            KeyScheme::FinalCut => "finalcut"@,
        }
    }

    /// The blade key.
    pub open spec fn blade(self) -> Seq<char> {
        match self {
            KeyScheme::MorReel => "S"@,
            KeyScheme::Resolve => "Ctrl+\\"@,
            KeyScheme::Premiere => "Ctrl+K"@,
            KeyScheme::FinalCut => "Ctrl+B"@,
        }
    }

    /// What the choice is called.
    pub open spec fn name(self) -> Seq<char> {
        match self {
            KeyScheme::MorReel => "MorReel"@,
            KeyScheme::Resolve => "DaVinci Resolve"@,
            KeyScheme::Premiere => "Premiere Pro"@,
            KeyScheme::FinalCut => "Final Cut Pro"@,
        }
    }

    /// The schemes in the order they are offered.
    pub fn all() -> (r: Vec<KeyScheme>)
        ensures
            r@ == seq![KeyScheme::MorReel, KeyScheme::Resolve, KeyScheme::Premiere, KeyScheme::FinalCut],
    {
        let r: Vec<KeyScheme> = vec![
            KeyScheme::MorReel,
            KeyScheme::Resolve,
            KeyScheme::Premiere,
            KeyScheme::FinalCut,
        ];
        assert(r@ =~= seq![KeyScheme::MorReel, KeyScheme::Resolve, KeyScheme::Premiere, KeyScheme::FinalCut]);
        r
    }

    pub fn id(self) -> (r: &'static str)
        ensures
            r@ == self.id_text(),
    {
        match self {
            KeyScheme::MorReel => "morreel",
            KeyScheme::Resolve => "resolve",
            KeyScheme::Premiere => "premiere",
            KeyScheme::FinalCut => "finalcut",
        }
    }

    pub fn label(self) -> (r: &'static str)
        ensures
            r@ == self.name(),
    {
        match self {
            KeyScheme::MorReel => "MorReel",
            KeyScheme::Resolve => "DaVinci Resolve",
            KeyScheme::Premiere => "Premiere Pro",
            KeyScheme::FinalCut => "Final Cut Pro",
        }
    }

    /// What is said once the choice is made.
    pub fn chosen(self) -> (r: String)
        ensures
            r@ == "Keyboard layout: "@ + self.name() + " — split is now "@ + self.blade(),
    {
        cat4("Keyboard layout: ", self.label(), " — split is now ", self.split())
    }

    /// The scheme of a stored choice; one that is not known is the program's own.
    pub fn from_id(id: &str) -> (r: KeyScheme)
        ensures
            r == scheme_of(id@),
    {
        if same_text(id, "resolve") {
            KeyScheme::Resolve
        } else if same_text(id, "premiere") {
            KeyScheme::Premiere
        } else if same_text(id, "finalcut") {
            KeyScheme::FinalCut
        } else {
            KeyScheme::MorReel
        }
    }

    pub fn split(self) -> (r: &'static str)
        ensures
            r@ == self.blade(),
    {
        match self {
            KeyScheme::MorReel => "S",
            KeyScheme::Resolve => "Ctrl+\\",
            KeyScheme::Premiere => "Ctrl+K",
            KeyScheme::FinalCut => "Ctrl+B",
        }
    }
}

pub open spec fn scheme_of(id: Seq<char>) -> KeyScheme {
    if id == "resolve"@ {
        KeyScheme::Resolve
    } else if id == "premiere"@ {
        KeyScheme::Premiere
    } else if id == "finalcut"@ {
        KeyScheme::FinalCut
    } else {
        KeyScheme::MorReel
    }
}

/// Law: a scheme survives being stored and read again.
pub proof fn law_scheme_round_trip(k: KeyScheme)
    ensures
        scheme_of(k.id_text()) == k,
{
    reveal_strlit("morreel");
    reveal_strlit("resolve");
    reveal_strlit("premiere");
    reveal_strlit("finalcut");
    assert("morreel"@[0] == 'm' && "resolve"@[0] == 'r' && "premiere"@[0] == 'p' && "finalcut"@[0] == 'f');
}

/// The keys that the help shows for a line: the blade's own where the line is the
/// blade's, and otherwise what the line says.
pub open spec fn shown_keys(keys: Seq<char>, what: Seq<char>, scheme: KeyScheme) -> Seq<char> {
    if what == "Split at playhead"@ { scheme.blade() } else { keys }
}

pub fn help_key(keys: &str, what: &str, scheme: KeyScheme) -> (r: String)
    ensures
        r@ == shown_keys(keys@, what@, scheme),
{
    if same_text(what, "Split at playhead") { scheme.split().to_owned() } else { keys.to_owned() }
}

/// What a key does.
#[derive(Clone, Copy, PartialEq, Eq, Structural, Debug)]
pub enum Command {
    /// Split at the playhead.
    Split,
    PlayPause,
    PlayFromStart,
    ToggleLoop,
    MarkIn,
    MarkOut,
    ClearMarks,
    Voiceover,
    Preview,
    Undo,
    Redo,
    Copy,
    Paste,
    PasteLook,
    ResetLook,
    SetIn,
    SetOut,
    Freeze,
    Replay,
    Dissolve,
    Join,
    Mute,
    Disable,
    Solo,
    Delete,
    /// Move the playhead.
    Nudge(Time),
    /// Trim an edge of the selected clip by frames.
    Trim { out: bool, frames: i64 },
    /// Move the selected item by frames.
    NudgeItem(i64),
    /// Go to the cut before or after.
    Jump(i64),
    /// Select the clip before or after.
    StepClip(i64),
    Group,
    Ungroup,
    Magnet,
    Guides,
    Handles,
    Marker,
    ClearMarkers,
    Beats,
    Start,
    End,
    AddClips,
    Open,
    Save,
    Settings,
    Fullscreen,
    AddText,
    Detach,
    Export,
    Quit,
    Escape,
    Zoom { closer: bool },
    Appear(ClipAppear),
    Size { larger: bool },
    Help,
}

/// What keys do in every scheme.
pub open spec fn bound(combo: Seq<char>) -> Option<Command> {
    if combo == "Space"@ {
        Some(Command::PlayPause)
    } else if combo == "Ctrl+Home"@ {
        Some(Command::PlayFromStart)
    } else if combo == "Ctrl+L"@ {
        Some(Command::ToggleLoop)
    } else if combo == "Shift+I"@ {
        Some(Command::MarkIn)
    } else if combo == "Shift+O"@ {
        Some(Command::MarkOut)
    } else if combo == "Shift+X"@ {
        Some(Command::ClearMarks)
    } else if combo == "V"@ {
        Some(Command::Voiceover)
    } else if combo == "Ctrl+P"@ {
        Some(Command::Preview)
    } else if combo == "Ctrl+Z"@ {
        Some(Command::Undo)
    } else if combo == "Ctrl+Shift+Z"@ {
        Some(Command::Redo)
    } else if combo == "Ctrl+C"@ {
        Some(Command::Copy)
    } else if combo == "Ctrl+V"@ {
        Some(Command::Paste)
    } else if combo == "Ctrl+Shift+V"@ {
        Some(Command::PasteLook)
    } else if combo == "Ctrl+Shift+X"@ {
        Some(Command::ResetLook)
    } else if combo == "I"@ {
        Some(Command::SetIn)
    } else if combo == "O"@ {
        Some(Command::SetOut)
    } else if combo == "F"@ {
        Some(Command::Freeze)
    } else if combo == "Ctrl+R"@ {
        Some(Command::Replay)
    } else if combo == "Ctrl+D"@ {
        Some(Command::Dissolve)
    } else if combo == "Ctrl+J"@ {
        Some(Command::Join)
    } else if combo == "Ctrl+Shift+M"@ {
        Some(Command::Mute)
    } else if combo == "Shift+D"@ {
        Some(Command::Disable)
    } else if combo == "Alt+S"@ {
        Some(Command::Solo)
    } else if combo == "Delete"@ {
        Some(Command::Delete)
    } else if combo == "Backspace"@ {
        Some(Command::Delete)
    } else if combo == "ArrowLeft"@ {
        Some(Command::Nudge((-300_000) as Time))
    } else if combo == "ArrowRight"@ {
        Some(Command::Nudge(300_000))
    } else if combo == "Shift+ArrowLeft"@ {
        Some(Command::Nudge((-3_000_000) as Time))
    } else if combo == "Shift+ArrowRight"@ {
        Some(Command::Nudge(3_000_000))
    } else if combo == ","@ {
        Some(Command::Nudge((-100_000) as Time))
    } else if combo == "."@ {
        Some(Command::Nudge(100_000))
    } else if combo == "Alt+,"@ {
        Some(Command::Trim { out: true, frames: (-1) as i64 })
    } else if combo == "Alt+."@ {
        Some(Command::Trim { out: true, frames: 1 })
    } else if combo == "Shift+Alt+,"@ {
        Some(Command::Trim { out: false, frames: (-1) as i64 })
    } else if combo == "Shift+Alt+."@ {
        Some(Command::Trim { out: false, frames: 1 })
    } else if combo == "Shift+,"@ {
        Some(Command::NudgeItem((-1) as i64))
    } else if combo == "Shift+."@ {
        Some(Command::NudgeItem(1))
    } else if combo == "Ctrl+Shift+,"@ {
        Some(Command::NudgeItem((-10) as i64))
    } else if combo == "Ctrl+Shift+."@ {
        Some(Command::NudgeItem(10))
    } else if combo == "ArrowUp"@ {
        Some(Command::Jump((-1) as i64))
    } else if combo == "ArrowDown"@ {
        Some(Command::Jump(1))
    } else if combo == "["@ {
        Some(Command::StepClip((-1) as i64))
    } else if combo == "]"@ {
        Some(Command::StepClip(1))
    } else if combo == "Ctrl+G"@ {
        Some(Command::Group)
    } else if combo == "Ctrl+Shift+G"@ {
        Some(Command::Ungroup)
    } else if combo == "~"@ {
        Some(Command::Magnet)
    } else if combo == "Shift+~"@ {
        Some(Command::Magnet)
    } else if combo == "G"@ {
        Some(Command::Guides)
    } else if combo == "T"@ {
        Some(Command::Handles)
    } else if combo == "M"@ {
        Some(Command::Marker)
    } else if combo == "Shift+M"@ {
        Some(Command::ClearMarkers)
    } else if combo == "B"@ {
        Some(Command::Beats)
    } else if combo == "Home"@ {
        Some(Command::Start)
    } else if combo == "End"@ {
        Some(Command::End)
    } else if combo == "Ctrl+O"@ {
        Some(Command::AddClips)
    } else if combo == "Ctrl+Shift+O"@ {
        Some(Command::Open)
    } else if combo == "Ctrl+S"@ {
        Some(Command::Save)
    } else if combo == "Ctrl+,"@ {
        Some(Command::Settings)
    } else if combo == "F11"@ {
        Some(Command::Fullscreen)
    } else if combo == "Ctrl+T"@ {
        Some(Command::AddText)
    } else if combo == "Ctrl+U"@ {
        Some(Command::Detach)
    } else if combo == "Ctrl+E"@ {
        Some(Command::Export)
    } else if combo == "Escape"@ {
        Some(Command::Escape)
    } else if combo == "Ctrl+Q"@ {
        Some(Command::Quit)
    } else if combo == "Ctrl+="@ {
        Some(Command::Zoom { closer: true })
    } else if combo == "Ctrl++"@ {
        Some(Command::Zoom { closer: true })
    } else if combo == "Ctrl+-"@ {
        Some(Command::Zoom { closer: false })
    } else if combo == "Ctrl+Alt+1"@ {
        Some(Command::Appear(ClipAppear::Wave))
    } else if combo == "Ctrl+Alt+2"@ {
        Some(Command::Appear(ClipAppear::WaveFilm))
    } else if combo == "Ctrl+Alt+3"@ {
        Some(Command::Appear(ClipAppear::Equal))
    } else if combo == "Ctrl+Alt+4"@ {
        Some(Command::Appear(ClipAppear::FilmWave))
    } else if combo == "Ctrl+Alt+5"@ {
        Some(Command::Appear(ClipAppear::Film))
    } else if combo == "Ctrl+Alt+6"@ {
        Some(Command::Appear(ClipAppear::Labels))
    } else if combo == "Ctrl+Alt+ArrowUp"@ {
        Some(Command::Size { larger: true })
    } else if combo == "Ctrl+Alt+ArrowDown"@ {
        Some(Command::Size { larger: false })
    } else if combo == "Ctrl+/"@ {
        Some(Command::Help)
    } else {
        None
    }
}

/// What keys do: the scheme's blade splits.
pub open spec fn command(combo: Seq<char>, scheme: KeyScheme) -> Option<Command> {
    if combo == scheme.blade() { Some(Command::Split) } else { bound(combo) }
}

fn bound_to(combo: &str) -> (r: Option<Command>)
    ensures
        r == bound(combo@),
{
    if same_text(combo, "Space") {
        Some(Command::PlayPause)
    } else if same_text(combo, "Ctrl+Home") {
        Some(Command::PlayFromStart)
    } else if same_text(combo, "Ctrl+L") {
        Some(Command::ToggleLoop)
    } else if same_text(combo, "Shift+I") {
        Some(Command::MarkIn)
    } else if same_text(combo, "Shift+O") {
        Some(Command::MarkOut)
    } else if same_text(combo, "Shift+X") {
        Some(Command::ClearMarks)
    } else if same_text(combo, "V") {
        Some(Command::Voiceover)
    } else if same_text(combo, "Ctrl+P") {
        Some(Command::Preview)
    } else if same_text(combo, "Ctrl+Z") {
        Some(Command::Undo)
    } else if same_text(combo, "Ctrl+Shift+Z") {
        Some(Command::Redo)
    } else if same_text(combo, "Ctrl+C") {
        Some(Command::Copy)
    } else if same_text(combo, "Ctrl+V") {
        Some(Command::Paste)
    } else if same_text(combo, "Ctrl+Shift+V") {
        Some(Command::PasteLook)
    } else if same_text(combo, "Ctrl+Shift+X") {
        Some(Command::ResetLook)
    } else if same_text(combo, "I") {
        Some(Command::SetIn)
    } else if same_text(combo, "O") {
        Some(Command::SetOut)
    } else if same_text(combo, "F") {
        Some(Command::Freeze)
    } else if same_text(combo, "Ctrl+R") {
        Some(Command::Replay)
    } else if same_text(combo, "Ctrl+D") {
        Some(Command::Dissolve)
    } else if same_text(combo, "Ctrl+J") {
        Some(Command::Join)
    } else if same_text(combo, "Ctrl+Shift+M") {
        Some(Command::Mute)
    } else if same_text(combo, "Shift+D") {
        Some(Command::Disable)
    } else if same_text(combo, "Alt+S") {
        Some(Command::Solo)
    } else if same_text(combo, "Delete") {
        Some(Command::Delete)
    } else if same_text(combo, "Backspace") {
        Some(Command::Delete)
    } else if same_text(combo, "ArrowLeft") {
        Some(Command::Nudge(-300_000))
    } else if same_text(combo, "ArrowRight") {
        Some(Command::Nudge(300_000))
    } else if same_text(combo, "Shift+ArrowLeft") {
        Some(Command::Nudge(-3_000_000))
    } else if same_text(combo, "Shift+ArrowRight") {
        Some(Command::Nudge(3_000_000))
    } else if same_text(combo, ",") {
        Some(Command::Nudge(-100_000))
    } else if same_text(combo, ".") {
        Some(Command::Nudge(100_000))
    } else if same_text(combo, "Alt+,") {
        Some(Command::Trim { out: true, frames: -1 })
    } else if same_text(combo, "Alt+.") {
        Some(Command::Trim { out: true, frames: 1 })
    } else if same_text(combo, "Shift+Alt+,") {
        Some(Command::Trim { out: false, frames: -1 })
    } else if same_text(combo, "Shift+Alt+.") {
        Some(Command::Trim { out: false, frames: 1 })
    } else if same_text(combo, "Shift+,") {
        Some(Command::NudgeItem(-1))
    } else if same_text(combo, "Shift+.") {
        Some(Command::NudgeItem(1))
    } else if same_text(combo, "Ctrl+Shift+,") {
        Some(Command::NudgeItem(-10))
    } else if same_text(combo, "Ctrl+Shift+.") {
        Some(Command::NudgeItem(10))
    } else if same_text(combo, "ArrowUp") {
        Some(Command::Jump(-1))
    } else if same_text(combo, "ArrowDown") {
        Some(Command::Jump(1))
    } else if same_text(combo, "[") {
        Some(Command::StepClip(-1))
    } else if same_text(combo, "]") {
        Some(Command::StepClip(1))
    } else if same_text(combo, "Ctrl+G") {
        Some(Command::Group)
    } else if same_text(combo, "Ctrl+Shift+G") {
        Some(Command::Ungroup)
    } else if same_text(combo, "~") {
        Some(Command::Magnet)
    } else if same_text(combo, "Shift+~") {
        Some(Command::Magnet)
    } else if same_text(combo, "G") {
        Some(Command::Guides)
    } else if same_text(combo, "T") {
        Some(Command::Handles)
    } else if same_text(combo, "M") {
        Some(Command::Marker)
    } else if same_text(combo, "Shift+M") {
        Some(Command::ClearMarkers)
    } else if same_text(combo, "B") {
        Some(Command::Beats)
    } else if same_text(combo, "Home") {
        Some(Command::Start)
    } else if same_text(combo, "End") {
        Some(Command::End)
    } else if same_text(combo, "Ctrl+O") {
        Some(Command::AddClips)
    } else if same_text(combo, "Ctrl+Shift+O") {
        Some(Command::Open)
    } else if same_text(combo, "Ctrl+S") {
        Some(Command::Save)
    } else if same_text(combo, "Ctrl+,") {
        Some(Command::Settings)
    } else if same_text(combo, "F11") {
        Some(Command::Fullscreen)
    } else if same_text(combo, "Ctrl+T") {
        Some(Command::AddText)
    } else if same_text(combo, "Ctrl+U") {
        Some(Command::Detach)
    } else if same_text(combo, "Ctrl+E") {
        Some(Command::Export)
    } else if same_text(combo, "Escape") {
        Some(Command::Escape)
    } else if same_text(combo, "Ctrl+Q") {
        Some(Command::Quit)
    } else if same_text(combo, "Ctrl+=") {
        Some(Command::Zoom { closer: true })
    } else if same_text(combo, "Ctrl++") {
        Some(Command::Zoom { closer: true })
    } else if same_text(combo, "Ctrl+-") {
        Some(Command::Zoom { closer: false })
    } else if same_text(combo, "Ctrl+Alt+1") {
        Some(Command::Appear(ClipAppear::Wave))
    } else if same_text(combo, "Ctrl+Alt+2") {
        Some(Command::Appear(ClipAppear::WaveFilm))
    } else if same_text(combo, "Ctrl+Alt+3") {
        Some(Command::Appear(ClipAppear::Equal))
    } else if same_text(combo, "Ctrl+Alt+4") {
        Some(Command::Appear(ClipAppear::FilmWave))
    } else if same_text(combo, "Ctrl+Alt+5") {
        Some(Command::Appear(ClipAppear::Film))
    } else if same_text(combo, "Ctrl+Alt+6") {
        Some(Command::Appear(ClipAppear::Labels))
    } else if same_text(combo, "Ctrl+Alt+ArrowUp") {
        Some(Command::Size { larger: true })
    } else if same_text(combo, "Ctrl+Alt+ArrowDown") {
        Some(Command::Size { larger: false })
    } else if same_text(combo, "Ctrl+/") {
        Some(Command::Help)
    } else {
        None
    }
}

/// What keys do, written with their modifiers in front: Ctrl, Shift, Alt.
pub fn command_for(combo: &str, scheme: KeyScheme) -> (r: Option<Command>)
    ensures
        r == command(combo@, scheme),
{
    if same_text(combo, scheme.split()) { Some(Command::Split) } else { bound_to(combo) }
}

/// Law: schemes differ in the blade alone: what is no blade key of either does the
/// same in both.
pub proof fn law_only_the_blade_differs(combo: Seq<char>, a: KeyScheme, b: KeyScheme)
    requires
        combo != a.blade(),
        combo != b.blade(),
    ensures
        command(combo, a) == command(combo, b),
{
}

/// Law: keys that point opposite ways do opposite things by the same amount: comma and
/// dot a frame, the arrows a tenth of a second and with Shift a second; Alt trims the out
/// edge by a frame and with Shift the in edge, Shift nudges an item by a frame and with
/// Ctrl by ten.
#[verifier::rlimit(60)]
#[verifier::spinoff_prover]
pub proof fn law_opposite_keys()
    ensures
        (bound(","@) matches Some(Command::Nudge(n)) && n == -crate::time::FRAME),
        (bound("."@) matches Some(Command::Nudge(n)) && n == crate::time::FRAME),
        (bound("ArrowLeft"@) matches Some(Command::Nudge(n)) && 10 * n == -crate::time::SECOND),
        (bound("ArrowRight"@) matches Some(Command::Nudge(n)) && 10 * n == crate::time::SECOND),
        (bound("Shift+ArrowLeft"@) matches Some(Command::Nudge(n)) && n == -crate::time::SECOND),
        (bound("Shift+ArrowRight"@) matches Some(Command::Nudge(n)) && n == crate::time::SECOND),
        (bound("Alt+,"@) matches Some(Command::Trim { out, frames }) && out && frames == -1),
        (bound("Alt+."@) matches Some(Command::Trim { out, frames }) && out && frames == 1),
        (bound("Shift+Alt+,"@) matches Some(Command::Trim { out, frames }) && !out && frames == -1),
        (bound("Shift+Alt+."@) matches Some(Command::Trim { out, frames }) && !out && frames == 1),
        (bound("Shift+,"@) matches Some(Command::NudgeItem(n)) && n == -1),
        (bound("Shift+."@) matches Some(Command::NudgeItem(n)) && n == 1),
        (bound("Ctrl+Shift+,"@) matches Some(Command::NudgeItem(n)) && n == -10),
        (bound("Ctrl+Shift+."@) matches Some(Command::NudgeItem(n)) && n == 10),
        (bound("ArrowUp"@) matches Some(Command::Jump(n)) && n == -1),
        (bound("ArrowDown"@) matches Some(Command::Jump(n)) && n == 1),
        (bound("["@) matches Some(Command::StepClip(n)) && n == -1),
        (bound("]"@) matches Some(Command::StepClip(n)) && n == 1),
        bound("I"@) == Some(Command::SetIn),
        bound("O"@) == Some(Command::SetOut),
        bound("Shift+I"@) == Some(Command::MarkIn),
        bound("Shift+O"@) == Some(Command::MarkOut),
        bound("Ctrl+Z"@) == Some(Command::Undo),
        bound("Ctrl+Shift+Z"@) == Some(Command::Redo),
        bound("Ctrl+C"@) == Some(Command::Copy),
        bound("Ctrl+V"@) == Some(Command::Paste),
{
    reveal_strlit("Space");
    assert("Space"@.len() == 5);
    reveal_strlit("Ctrl+Home");
    assert("Ctrl+Home"@.len() == 9);
    reveal_strlit("Ctrl+L");
    assert("Ctrl+L"@.len() == 6);
    reveal_strlit("Shift+I");
    assert("Shift+I"@.len() == 7);
    reveal_strlit("Shift+O");
    assert("Shift+O"@.len() == 7);
    reveal_strlit("Shift+X");
    assert("Shift+X"@.len() == 7);
    reveal_strlit("V");
    assert("V"@.len() == 1);
    reveal_strlit("Ctrl+P");
    assert("Ctrl+P"@.len() == 6);
    reveal_strlit("Ctrl+Z");
    assert("Ctrl+Z"@.len() == 6);
    reveal_strlit("Ctrl+Shift+Z");
    assert("Ctrl+Shift+Z"@.len() == 12);
    reveal_strlit("Ctrl+C");
    assert("Ctrl+C"@.len() == 6);
    reveal_strlit("Ctrl+V");
    assert("Ctrl+V"@.len() == 6);
    reveal_strlit("Ctrl+Shift+V");
    assert("Ctrl+Shift+V"@.len() == 12);
    reveal_strlit("Ctrl+Shift+X");
    assert("Ctrl+Shift+X"@.len() == 12);
    reveal_strlit("I");
    assert("I"@.len() == 1);
    reveal_strlit("O");
    assert("O"@.len() == 1);
    reveal_strlit("F");
    assert("F"@.len() == 1);
    reveal_strlit("Ctrl+R");
    assert("Ctrl+R"@.len() == 6);
    reveal_strlit("Ctrl+D");
    assert("Ctrl+D"@.len() == 6);
    reveal_strlit("Ctrl+J");
    assert("Ctrl+J"@.len() == 6);
    reveal_strlit("Ctrl+Shift+M");
    assert("Ctrl+Shift+M"@.len() == 12);
    reveal_strlit("Shift+D");
    assert("Shift+D"@.len() == 7);
    reveal_strlit("Alt+S");
    assert("Alt+S"@.len() == 5);
    reveal_strlit("Delete");
    assert("Delete"@.len() == 6);
    reveal_strlit("Backspace");
    assert("Backspace"@.len() == 9);
    reveal_strlit("ArrowLeft");
    assert("ArrowLeft"@.len() == 9);
    reveal_strlit("ArrowRight");
    assert("ArrowRight"@.len() == 10);
    reveal_strlit("Shift+ArrowLeft");
    assert("Shift+ArrowLeft"@.len() == 15);
    reveal_strlit("Shift+ArrowRight");
    assert("Shift+ArrowRight"@.len() == 16);
    reveal_strlit(",");
    assert(","@.len() == 1);
    reveal_strlit(".");
    assert("."@.len() == 1);
    reveal_strlit("Alt+,");
    assert("Alt+,"@.len() == 5);
    reveal_strlit("Alt+.");
    assert("Alt+."@.len() == 5);
    reveal_strlit("Shift+Alt+,");
    assert("Shift+Alt+,"@.len() == 11);
    reveal_strlit("Shift+Alt+.");
    assert("Shift+Alt+."@.len() == 11);
    reveal_strlit("Shift+,");
    assert("Shift+,"@.len() == 7);
    reveal_strlit("Shift+.");
    assert("Shift+."@.len() == 7);
    reveal_strlit("Ctrl+Shift+,");
    assert("Ctrl+Shift+,"@.len() == 12);
    reveal_strlit("Ctrl+Shift+.");
    assert("Ctrl+Shift+."@.len() == 12);
    reveal_strlit("ArrowUp");
    assert("ArrowUp"@.len() == 7);
    reveal_strlit("ArrowDown");
    assert("ArrowDown"@.len() == 9);
    reveal_strlit("[");
    assert("["@.len() == 1);
    reveal_strlit("]");
    assert("]"@.len() == 1);
    assert("Space"@[4] == 'e');
    assert("Ctrl+Home"@[8] == 'e');
    assert("Ctrl+L"@[5] == 'L');
    assert("Shift+I"@[6] == 'I');
    assert("Shift+O"@[6] == 'O');
    assert("Shift+X"@[6] == 'X');
    assert("V"@[0] == 'V');
    assert("Ctrl+P"@[5] == 'P');
    assert("Ctrl+Z"@[5] == 'Z');
    assert("Ctrl+Shift+Z"@[11] == 'Z');
    assert("Ctrl+C"@[5] == 'C');
    assert("Ctrl+V"@[5] == 'V');
    assert("Ctrl+Shift+V"@[11] == 'V');
    assert("Ctrl+Shift+X"@[11] == 'X');
    assert("I"@[0] == 'I');
    assert("O"@[0] == 'O');
    assert("F"@[0] == 'F');
    assert("Ctrl+Shift+M"@[11] == 'M');
    assert("Shift+D"@[6] == 'D');
    assert("Alt+S"@[4] == 'S');
    assert("Backspace"@[8] == 'e');
    assert("ArrowLeft"@[8] == 't');
    assert(","@[0] == ',');
    assert("."@[0] == '.');
    assert("Alt+,"@[4] == ',');
    assert("Alt+."@[4] == '.');
    assert("Shift+Alt+,"@[10] == ',');
    assert("Shift+Alt+."@[10] == '.');
    assert("Shift+,"@[6] == ',');
    assert("Shift+."@[6] == '.');
    assert("Ctrl+Shift+,"@[11] == ',');
    assert("Ctrl+Shift+."@[11] == '.');
    assert("ArrowUp"@[6] == 'p');
    assert("ArrowDown"@[8] == 'n');
    assert("["@[0] == '[');
    assert("]"@[0] == ']');
}

} // verus!
