//! The plugin panel and the sticker search.

use crate::editor::Editor;
use crate::text::{cat2, cat3, cat5, decimal, digits, join, joined, texts, trim, trimmed_text};
use vstd::prelude::*;

verus! {

/// What kind of plugin a row shows.
#[derive(Clone, Copy, PartialEq, Eq, Structural, Debug)]
pub enum PluginKind {
    Agent,
    Mcp,
    Bundle,
}

/// A plugin as the panel reads it.
pub struct Manifest {
    pub id: String,
    pub kind: PluginKind,
    /// How an agent is installed.
    pub install: Option<String>,
    /// The command a server runs, with its arguments.
    pub run: Option<(String, Vec<String>)>,
    /// How many effects a bundle brings.
    pub effects: Option<usize>,
}

pub open spec fn kind_name(k: PluginKind) -> Seq<char> {
    match k {
        PluginKind::Agent => "agent"@,
        PluginKind::Mcp => "mcp"@,
        PluginKind::Bundle => "bundle"@,
    }
}

pub fn kind_label(k: PluginKind) -> (r: &'static str)
    ensures
        r@ == kind_name(k),
{
    match k {
        PluginKind::Agent => "agent",
        PluginKind::Mcp => "mcp",
        PluginKind::Bundle => "bundle",
    }
}

impl Manifest {
    /// What installing the plugin does, in one line.
    pub open spec fn detail_text(&self) -> Seq<char> {
        match self.kind {
            PluginKind::Agent => match self.install {
                Some(s) => s@,
                None => ""@,
            },
            PluginKind::Mcp => match self.run {
                Some((command, args)) => "Runs `"@ + command@ + " "@ + joined(texts(args@), " "@)
                    + "` — added to mcp-servers.json on install."@,
                None => ""@,
            },
            PluginKind::Bundle => "Adds "@ + digits(
                match self.effects {
                    Some(n) => n as nat,
                    None => 0,
                },
            ) + " effect look(s) to the editor."@,
        }
    }

    pub fn detail(&self) -> (r: String)
        ensures
            r@ == self.detail_text(),
    {
        match self.kind {
            PluginKind::Agent => match &self.install {
                Some(s) => s.clone(),
                None => "".to_owned(),
            },
            PluginKind::Mcp => match &self.run {
                Some(run) => {
                    let args: String = join(&run.1, " ");
                    cat5(
                        "Runs `",
                        run.0.as_str(),
                        " ",
                        args.as_str(),
                        "` — added to mcp-servers.json on install.",
                    )
                },
                None => "".to_owned(),
            },
            PluginKind::Bundle => {
                let n: String = decimal(
                    match self.effects {
                        Some(n) => n as u128,
                        None => 0,
                    },
                );
                cat3("Adds ", n.as_str(), " effect look(s) to the editor.")
            },
        }
    }
}

/// What a row's button asks for.
#[derive(Clone, Copy, PartialEq, Eq, Structural, Debug)]
pub enum HubAction {
    Install,
    Uninstall,
    Enable,
    Disable,
}

/// What the toggle of an installed plugin asks for.
pub fn toggle_action(enabled: bool) -> (r: HubAction)
    ensures
        r == if enabled { HubAction::Disable } else { HubAction::Enable },
{
    if enabled { HubAction::Disable } else { HubAction::Enable }
}

/// The buttons of a plugin's row, in order, and what each asks for.
pub open spec fn row_buttons(installed: bool, enabled: bool) -> Seq<(Seq<char>, HubAction)> {
    if !installed {
        seq![("Install"@, HubAction::Install)]
    } else if enabled {
        seq![("Enabled"@, HubAction::Disable), ("Remove"@, HubAction::Uninstall)]
    } else {
        seq![("Disabled"@, HubAction::Enable), ("Remove"@, HubAction::Uninstall)]
    }
}

/// Buttons as values.
pub open spec fn buttons(s: Seq<(String, HubAction)>) -> Seq<(Seq<char>, HubAction)> {
    Seq::new(s.len(), |k: int| (s[k].0@, s[k].1))
}

/// The buttons of a plugin's row.
pub fn hub_buttons(installed: bool, enabled: bool) -> (r: Vec<(String, HubAction)>)
    ensures
        buttons(r@) == row_buttons(installed, enabled),
{
    let mut r: Vec<(String, HubAction)> = Vec::new();
    if installed {
        r.push((if enabled { "Enabled".to_owned() } else { "Disabled".to_owned() }, toggle_action(enabled)));
        r.push(("Remove".to_owned(), HubAction::Uninstall));
    } else {
        r.push(("Install".to_owned(), HubAction::Install));
    }
    assert(buttons(r@) =~= row_buttons(installed, enabled));
    r
}

/// Whether a row offers a button for an action.
pub open spec fn offers(installed: bool, enabled: bool, a: HubAction) -> bool {
    exists|k: int| 0 <= k < row_buttons(installed, enabled).len() && (#[trigger] row_buttons(installed, enabled)[k]).1 == a
}

/// Law: a row offers to install exactly what is not installed, to remove exactly what
/// is, and to switch what is installed exactly to what it is not.
pub proof fn law_row_offers(installed: bool, enabled: bool)
    ensures
        offers(installed, enabled, HubAction::Install) == !installed,
        offers(installed, enabled, HubAction::Uninstall) == installed,
        offers(installed, enabled, HubAction::Enable) == (installed && !enabled),
        offers(installed, enabled, HubAction::Disable) == (installed && enabled),
{
    let all = row_buttons(installed, enabled);
    if installed {
        assert(all.len() == 2);
        assert(all[0].1 == if enabled { HubAction::Disable } else { HubAction::Enable });
        assert(all[1].1 == HubAction::Uninstall);
    } else {
        assert(all.len() == 1);
        assert(all[0].1 == HubAction::Install);
    }
}

/// What happens to a row.
#[derive(Clone, Copy, PartialEq, Eq, Structural, Debug)]
pub enum RowEvent {
    /// It is drawn.
    Render,
    /// The button at a place is clicked.
    Click(usize),
}

/// What a row that stands for a plugin calls back with: once for a click of a button
/// that is there, with the plugin's name and what the button asks for.
pub open spec fn row_call(id: Seq<char>, installed: bool, enabled: bool, event: RowEvent) -> Option<(Seq<char>, HubAction)> {
    match event {
        RowEvent::Render => None,
        RowEvent::Click(k) => if k < row_buttons(installed, enabled).len() {
            Some((id, row_buttons(installed, enabled)[k as int].1))
        } else {
            None
        },
    }
}

/// A call back as a value.
pub open spec fn called(r: Option<(String, HubAction)>) -> Option<(Seq<char>, HubAction)> {
    match r {
        Some((id, a)) => Some((id@, a)),
        None => None,
    }
}

impl Manifest {
    /// Something happened to the plugin's row: what it calls back with.
    pub fn on_row(&self, installed: bool, enabled: bool, event: RowEvent) -> (r: Option<(String, HubAction)>)
        ensures
            called(r) == row_call(self.id@, installed, enabled, event),
    {
        match event {
            RowEvent::Render => None,
            RowEvent::Click(k) => if !installed {
                if k == 0 { Some((self.id.clone(), HubAction::Install)) } else { None }
            } else if k == 0 {
                Some((self.id.clone(), toggle_action(enabled)))
            } else if k == 1 {
                Some((self.id.clone(), HubAction::Uninstall))
            } else {
                None
            },
        }
    }
}

/// What happened to a row, and how its plugin stood at the time.
pub struct RowMoment {
    pub installed: bool,
    pub enabled: bool,
    pub event: RowEvent,
}

impl RowMoment {
    /// Whether a button that was there was clicked.
    pub open spec fn clicks(self) -> bool {
        self.event matches RowEvent::Click(k) && k < row_buttons(self.installed, self.enabled).len()
    }

    pub open spec fn call(self, id: Seq<char>) -> Option<(Seq<char>, HubAction)> {
        row_call(id, self.installed, self.enabled, self.event)
    }
}

/// The calls back over the first `n` moments of a row, in order.
pub open spec fn row_calls(id: Seq<char>, s: Seq<RowMoment>, n: int) -> Seq<(Seq<char>, HubAction)>
    decreases n,
{
    if n <= 0 {
        Seq::empty()
    } else {
        match s[n - 1].call(id) {
            Some(c) => row_calls(id, s, n - 1).push(c),
            None => row_calls(id, s, n - 1),
        }
    }
}

/// How many of the first `n` moments are clicks of a button that was there.
pub open spec fn row_clicks(s: Seq<RowMoment>, n: int) -> nat
    decreases n,
{
    if n <= 0 { 0 } else { row_clicks(s, n - 1) + if s[n - 1].clicks() { 1nat } else { 0 } }
}

/// What may be asked of a plugin that stands in some way.
pub open spec fn fitting(installed: bool, enabled: bool, a: HubAction) -> bool {
    match a {
        HubAction::Install => !installed,
        HubAction::Uninstall => installed,
        HubAction::Enable => installed && !enabled,
        HubAction::Disable => installed && enabled,
    }
}

/// Law: over any course of drawing and clicking, a row calls back exactly once for each
/// click of a button that is there and never for being drawn. Every call names the row's
/// own plugin, comes from such a click, and asks for what fits how the plugin stood.
pub proof fn law_row_calls_once_per_click(id: Seq<char>, s: Seq<RowMoment>, n: int)
    requires
        0 <= n <= s.len(),
    ensures
        row_calls(id, s, n).len() == row_clicks(s, n),
        forall|k: int|
            0 <= k < row_calls(id, s, n).len() ==> {
                let c = #[trigger] row_calls(id, s, n)[k];
                &&& c.0 == id
                &&& exists|i: int|
                    0 <= i < n && (#[trigger] s[i]).clicks() && s[i].call(id) == Some(c) && fitting(
                        s[i].installed,
                        s[i].enabled,
                        c.1,
                    )
            },
        forall|i: int| 0 <= i < n ==> (#[trigger] s[i]).clicks() == s[i].call(id) is Some,
        forall|i: int| 0 <= i < n && (#[trigger] s[i]).event is Render ==> s[i].call(id) is None,
    decreases n,
{
    if n > 0 {
        law_row_calls_once_per_click(id, s, n - 1);
        let m = s[n - 1];
        let before = row_calls(id, s, n - 1);
        let now = row_calls(id, s, n);
        assert forall|k: int| 0 <= k < now.len() implies {
            let c = #[trigger] now[k];
            &&& c.0 == id
            &&& exists|i: int|
                0 <= i < n && (#[trigger] s[i]).clicks() && s[i].call(id) == Some(c) && fitting(
                    s[i].installed,
                    s[i].enabled,
                    c.1,
                )
        } by {
            let c = now[k];
            if k < before.len() {
                assert(c == before[k]);
                let i = choose|i: int|
                    0 <= i < n - 1 && (#[trigger] s[i]).clicks() && s[i].call(id) == Some(c) && fitting(
                        s[i].installed,
                        s[i].enabled,
                        c.1,
                    );
                assert(s[i].clicks());
            } else {
                assert(m.clicks());
                assert(m.call(id) == Some(c));
                assert(fitting(m.installed, m.enabled, c.1));
            }
        }
    }
}

/// What an action sets of a plugin: whether it is installed, or whether enabled.
#[derive(Clone, Copy, PartialEq, Eq, Structural, Debug)]
pub enum HubChange {
    Installed(bool),
    Enabled(bool),
}

pub open spec fn hub_change(a: HubAction) -> HubChange {
    match a {
        HubAction::Install => HubChange::Installed(true),
        HubAction::Uninstall => HubChange::Installed(false),
        HubAction::Enable => HubChange::Enabled(true),
        HubAction::Disable => HubChange::Enabled(false),
    }
}

impl HubAction {
    pub fn change(self) -> (r: HubChange)
        ensures
            r == hub_change(self),
    {
        match self {
            HubAction::Install => HubChange::Installed(true),
            HubAction::Uninstall => HubChange::Installed(false),
            HubAction::Enable => HubChange::Enabled(true),
            HubAction::Disable => HubChange::Enabled(false),
        }
    }

    /// What an action did, in a word.
    pub open spec fn word(&self) -> Seq<char> {
        match *self {
            HubAction::Install => "installed"@,
            HubAction::Uninstall => "removed"@,
            HubAction::Enable => "enabled"@,
            HubAction::Disable => "disabled"@,
        }
    }

    fn done(&self) -> (r: &'static str)
        ensures
            r@ == self.word(),
    {
        match self {
            HubAction::Install => "installed",
            HubAction::Uninstall => "removed",
            HubAction::Enable => "enabled",
            HubAction::Disable => "disabled",
        }
    }
}

/// What the panel reports: that the change could not be kept, or that it was and
/// where the list of servers went.
pub open spec fn hub_text(
    id: Seq<char>,
    action: HubAction,
    kept: Result<(), String>,
    synced: Result<String, String>,
) -> Seq<char> {
    match kept {
        Err(e) => "Plugin Hub: "@ + e@,
        Ok(_) => match synced {
            Ok(p) => "Plugin '"@ + id + "' "@ + action.word() + (". MCP servers → "@ + p@),
            Err(e) => "Plugin '"@ + id + "' "@ + action.word() + (" (mcp sync failed: "@ + e@ + ")"@),
        },
    }
}

impl Editor {
    /// A plugin was changed: whether that was kept, and where the list of servers
    /// was written. The panel is drawn again only where it was kept.
    pub fn land_hub(&mut self, id: &str, action: HubAction, kept: Result<(), String>, synced: Result<String, String>) -> (r: bool)
        requires
            old(self)@.wf(),
        ensures
            final(self)@ == old(self)@.says(hub_text(id@, action, kept, synced)),
            final(self)@.wf(),
            r == kept is Ok,
    {
        match kept {
            Err(e) => {
                self.status = cat2("Plugin Hub: ", e.as_str());
                false
            },
            Ok(_) => {
                let tail: String = match &synced {
                    Ok(p) => cat2(". MCP servers → ", p.as_str()),
                    Err(e) => cat3(" (mcp sync failed: ", e.as_str(), ")"),
                };
                self.status = cat5("Plugin '", id, "' ", action.done(), tail.as_str());
                true
            },
        }
    }
}

/// The sticker search: whether one is running.
pub struct Stickers {
    pub busy: bool,
}

impl Stickers {
    /// The search was asked for; what to look for, unless one runs or there is
    /// nothing to look for.
    pub fn begin(&self, query: &str) -> (r: Option<String>)
        ensures
            match r {
                Some(q) => !self.busy && q@ == trimmed_text(query@) && q@.len() > 0,
                None => self.busy || trimmed_text(query@).len() == 0,
            },
    {
        if self.busy {
            return None;
        }
        let q: String = trim(query);
        if q.as_str().is_empty() { None } else { Some(q) }
    }

    /// The key is there, or is not: the search runs, or its absence is reported.
    pub fn search(&mut self, ed: &mut Editor, query: &str, key: Result<(), String>) -> (r: bool)
        requires
            old(ed)@.wf(),
        ensures
            r == key is Ok,
            final(self).busy == (r || old(self).busy),
            final(ed)@ == old(ed)@.says(
                match key {
                    Ok(_) => "Searching GIPHY for “"@ + query@ + "”…"@,
                    Err(e) => e@,
                },
            ),
            final(ed)@.wf(),
    {
        match key {
            Ok(_) => {
                self.busy = true;
                ed.status = cat3("Searching GIPHY for “", query, "”…");
                true
            },
            Err(e) => {
                ed.status = e;
                false
            },
        }
    }

    /// The search came back with so many results, or failed.
    pub fn land(&mut self, ed: &mut Editor, found: Result<usize, String>)
        requires
            old(ed)@.wf(),
        ensures
            !final(self).busy,
            final(ed)@ == old(ed)@.says(
                match found {
                    Ok(n) => digits(n as nat) + " result(s) — click one to drop it on V2."@,
                    Err(e) => "GIPHY: "@ + e@,
                },
            ),
            final(ed)@.wf(),
    {
        self.busy = false;
        ed.status = match found {
            Ok(n) => {
                let count: String = decimal(n as u128);
                cat2(count.as_str(), " result(s) — click one to drop it on V2.")
            },
            Err(e) => cat2("GIPHY: ", e.as_str()),
        };
    }
}

/// Law: each action does what its button says: installing and removing are opposite, and
/// so are enabling and disabling.
pub proof fn law_hub_actions()
    ensures
        hub_change(HubAction::Install) == HubChange::Installed(true),
        hub_change(HubAction::Uninstall) == HubChange::Installed(false),
        hub_change(HubAction::Enable) == HubChange::Enabled(true),
        hub_change(HubAction::Disable) == HubChange::Enabled(false),
{
}

} // verus!
