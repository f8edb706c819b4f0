//! The dashboard's state: which tab is shown, where the list is scrolled,
//! the search filter, the spawn dialog, the records shown and the counts
//! derived from them. Every key the user presses is one method here.

use vstd::prelude::*;
use crate::gastown::{Agent, AgentStatus, Bead, BeadStatus, Convoy, ConvoyStatus, FeedEntry};
use crate::demo::{
    demo_agents, demo_beads, demo_convoys, demo_feed, is_demo_agents, is_demo_beads,
    is_demo_convoys, is_demo_feed,
};
use crate::repos::RepoInfo;
use crate::text::{chars_of, contains_chars, lowercase, spec_contains};

verus! {

/// The number of tabs.
pub const TAB_COUNT: usize = 5;

/// The number of agent runtimes the spawn dialog offers.
pub const RUNTIME_COUNT: usize = 5;

/// The number of fields of the spawn dialog (rig, runtime, task).
pub const SPAWN_FIELD_COUNT: usize = 3;

/// The title of tab `i`.
pub open spec fn tab_title(i: int) -> Seq<char> {
    if i == 0 { "Dashboard"@ }
    else if i == 1 { "Agents"@ }
    else if i == 2 { "Convoys"@ }
    else if i == 3 { "Beads"@ }
    else { "Repos"@ }
}

/// The title of tab `i`.
pub fn tab_name(i: usize) -> (r: &'static str)
    requires
        i < TAB_COUNT,
    ensures
        r@ == tab_title(i as int),
{
    if i == 0 { "Dashboard" }
    else if i == 1 { "Agents" }
    else if i == 2 { "Convoys" }
    else if i == 3 { "Beads" }
    else { "Repos" }
}

/// The name of runtime `i` of the spawn dialog.
pub open spec fn runtime_title(i: int) -> Seq<char> {
    if i == 0 { "anthropic"@ }
    else if i == 1 { "gemini"@ }
    else if i == 2 { "codex"@ }
    else if i == 3 { "cursor"@ }
    else { "copilot"@ }
}

pub fn runtime_name(i: usize) -> (r: &'static str)
    requires
        i < RUNTIME_COUNT,
    ensures
        r@ == runtime_title(i as int),
{
    if i == 0 { "anthropic" }
    else if i == 1 { "gemini" }
    else if i == 2 { "codex" }
    else if i == 3 { "cursor" }
    else { "copilot" }
}

/// The whole state of the dashboard.
pub struct App {
    pub tab: usize,
    pub scroll: usize,
    pub max_scroll: usize,
    pub agents: Vec<Agent>,
    pub convoys: Vec<Convoy>,
    pub beads: Vec<Bead>,
    pub feed: Vec<FeedEntry>,
    pub repos: Vec<RepoInfo>,
    pub agents_active: usize,
    pub agents_idle: usize,
    pub agents_stuck: usize,
    pub agents_offline: usize,
    pub total_beads_done: u32,
    pub total_beads_open: u32,
    pub total_beads_progress: u32,
    pub total_beads_blocked: u32,
    pub filter_active: bool,
    pub filter_text: String,
    pub show_spawn_dialog: bool,
    /// 0 = rig, 1 = runtime, 2 = task.
    pub spawn_field: usize,
    pub spawn_rig: String,
    pub spawn_runtime_idx: usize,
    pub spawn_task: String,
    pub tick: u64,
    pub gt_available: bool,
    pub bd_available: bool,
}

/// The mathematical model of the dashboard's state: the same fields, with
/// sequences for the lists and the texts.
pub struct AppView {
    pub tab: usize,
    pub scroll: usize,
    pub max_scroll: usize,
    pub agents: Seq<Agent>,
    pub convoys: Seq<Convoy>,
    pub beads: Seq<Bead>,
    pub feed: Seq<FeedEntry>,
    pub repos: Seq<RepoInfo>,
    pub agents_active: usize,
    pub agents_idle: usize,
    pub agents_stuck: usize,
    pub agents_offline: usize,
    pub total_beads_done: u32,
    pub total_beads_open: u32,
    pub total_beads_progress: u32,
    pub total_beads_blocked: u32,
    pub filter_active: bool,
    pub filter_text: Seq<char>,
    pub show_spawn_dialog: bool,
    pub spawn_field: usize,
    pub spawn_rig: Seq<char>,
    pub spawn_runtime_idx: usize,
    pub spawn_task: Seq<char>,
    pub tick: u64,
    pub gt_available: bool,
    pub bd_available: bool,
}

impl View for App {
    type V = AppView;

    open spec fn view(&self) -> AppView {
        AppView {
            tab: self.tab,
            scroll: self.scroll,
            max_scroll: self.max_scroll,
            agents: self.agents@,
            convoys: self.convoys@,
            beads: self.beads@,
            feed: self.feed@,
            repos: self.repos@,
            agents_active: self.agents_active,
            agents_idle: self.agents_idle,
            agents_stuck: self.agents_stuck,
            agents_offline: self.agents_offline,
            total_beads_done: self.total_beads_done,
            total_beads_open: self.total_beads_open,
            total_beads_progress: self.total_beads_progress,
            total_beads_blocked: self.total_beads_blocked,
            filter_active: self.filter_active,
            filter_text: self.filter_text@,
            show_spawn_dialog: self.show_spawn_dialog,
            spawn_field: self.spawn_field,
            spawn_rig: self.spawn_rig@,
            spawn_runtime_idx: self.spawn_runtime_idx,
            spawn_task: self.spawn_task@,
            tick: self.tick,
            gt_available: self.gt_available,
            bd_available: self.bd_available,
        }
    }
}

/// The tab after `t` when moving right, wrapping from the last to the first.
pub open spec fn next_tab_index(t: usize) -> usize {
    ((t + 1) % (TAB_COUNT as int)) as usize
}

/// The tab before `t` when moving left, wrapping from the first to the last.
pub open spec fn prev_tab_index(t: usize) -> usize {
    if t == 0 {
        (TAB_COUNT - 1) as usize
    } else {
        (t - 1) as usize
    }
}

/// The number of agents in `s` with status `st`.
pub open spec fn count_agents(s: Seq<Agent>, st: AgentStatus) -> nat {
    s.filter(|a: Agent| a.status == st).len()
}

/// The number of beads in `s` with status `st`.
pub open spec fn count_beads(s: Seq<Bead>, st: BeadStatus) -> nat {
    s.filter(|b: Bead| b.status == st).len()
}

impl AppView {
    /// The indices stay where the screen can show them: a tab that exists,
    /// a spawn-dialog field that exists and a runtime that exists.
    pub open spec fn wf(self) -> bool {
        &&& self.tab < TAB_COUNT
        &&& self.spawn_field < SPAWN_FIELD_COUNT
        &&& self.spawn_runtime_idx < RUNTIME_COUNT
    }

    /// The state at start-up: first tab, nothing scrolled, no data, no
    /// filter, no dialog.
    pub open spec fn initial() -> AppView {
        AppView {
            tab: 0,
            scroll: 0,
            max_scroll: 0,
            agents: Seq::empty(),
            convoys: Seq::empty(),
            beads: Seq::empty(),
            feed: Seq::empty(),
            repos: Seq::empty(),
            agents_active: 0,
            agents_idle: 0,
            agents_stuck: 0,
            agents_offline: 0,
            total_beads_done: 0,
            total_beads_open: 0,
            total_beads_progress: 0,
            total_beads_blocked: 0,
            filter_active: false,
            filter_text: Seq::empty(),
            show_spawn_dialog: false,
            spawn_field: 0,
            spawn_rig: Seq::empty(),
            spawn_runtime_idx: 0,
            spawn_task: Seq::empty(),
            tick: 0,
            gt_available: false,
            bd_available: false,
        }
    }

    /// The derived counts recomputed from the records.
    pub open spec fn with_stats(self) -> AppView {
        AppView {
            agents_active: count_agents(self.agents, AgentStatus::Active) as usize,
            agents_idle: count_agents(self.agents, AgentStatus::Idle) as usize,
            agents_stuck: count_agents(self.agents, AgentStatus::Stuck) as usize,
            agents_offline: count_agents(self.agents, AgentStatus::Offline) as usize,
            total_beads_done: count_beads(self.beads, BeadStatus::Done) as u32,
            total_beads_open: count_beads(self.beads, BeadStatus::Open) as u32,
            total_beads_progress: count_beads(self.beads, BeadStatus::InProgress) as u32,
            total_beads_blocked: count_beads(self.beads, BeadStatus::Blocked) as u32,
            ..self
        }
    }

    /// Fresh records in place, with the counts derived from them.
    pub open spec fn refreshed(
        self,
        gt_available: bool,
        bd_available: bool,
        agents: Seq<Agent>,
        convoys: Seq<Convoy>,
        beads: Seq<Bead>,
        feed: Seq<FeedEntry>,
        repos: Seq<RepoInfo>,
    ) -> AppView {
        AppView { gt_available, bd_available, agents, convoys, beads, feed, repos, ..self }.with_stats()
    }

    /// One animation tick later.
    pub open spec fn ticked(self) -> AppView {
        AppView { tick: if self.tick == u64::MAX { 0 } else { (self.tick + 1) as u64 }, ..self }
    }

    /// Moved to the next tab, scrolled to the top.
    pub open spec fn after_next_tab(self) -> AppView {
        AppView { tab: next_tab_index(self.tab), scroll: 0, ..self }
    }

    /// Moved to the previous tab, scrolled to the top.
    pub open spec fn after_prev_tab(self) -> AppView {
        AppView { tab: prev_tab_index(self.tab), scroll: 0, ..self }
    }

    /// Moved to tab `idx` and scrolled to the top if that tab exists;
    /// unchanged otherwise.
    pub open spec fn after_select_tab(self, idx: usize) -> AppView {
        if idx < TAB_COUNT {
            AppView { tab: idx, scroll: 0, ..self }
        } else {
            self
        }
    }

    /// One line further down, unless already at the bottom.
    pub open spec fn after_scroll_down(self) -> AppView {
        if self.scroll < self.max_scroll {
            AppView { scroll: (self.scroll + 1) as usize, ..self }
        } else {
            self
        }
    }

    /// One line further up, unless already at the top.
    pub open spec fn after_scroll_up(self) -> AppView {
        AppView { scroll: if self.scroll == 0 { 0 } else { (self.scroll - 1) as usize }, ..self }
    }

    /// Scrolled to the top.
    pub open spec fn after_scroll_top(self) -> AppView {
        AppView { scroll: 0, ..self }
    }

    /// Scrolled to the bottom.
    pub open spec fn after_scroll_bottom(self) -> AppView {
        AppView { scroll: self.max_scroll, ..self }
    }

    /// The filter line opened, or closed with its text kept (the filter
    /// stays applied; only escape clears it).
    pub open spec fn after_toggle_filter(self) -> AppView {
        AppView { filter_active: !self.filter_active, ..self }
    }

    /// `c` typed into the filter; the list back at the top.
    pub open spec fn after_filter_push(self, c: char) -> AppView {
        AppView { filter_text: self.filter_text.push(c), scroll: 0, ..self }
    }

    /// The last character of the filter erased; the list back at the top.
    pub open spec fn after_filter_pop(self) -> AppView {
        AppView {
            filter_text: if self.filter_text.len() == 0 {
                self.filter_text
            } else {
                self.filter_text.drop_last()
            },
            scroll: 0,
            ..self
        }
    }

    /// Escape: closes the spawn dialog if it is open, else closes the filter
    /// and clears its text if it is open, else does nothing.
    pub open spec fn after_dismiss(self) -> AppView {
        if self.show_spawn_dialog {
            AppView { show_spawn_dialog: false, ..self }
        } else if self.filter_active {
            AppView { filter_active: false, filter_text: Seq::empty(), ..self }
        } else {
            self
        }
    }

    /// The spawn dialog opened afresh: on the rig field, with empty rig and
    /// task and the first runtime.
    pub open spec fn after_action_spawn(self) -> AppView {
        AppView {
            show_spawn_dialog: true,
            spawn_field: 0,
            spawn_rig: Seq::empty(),
            spawn_runtime_idx: 0,
            spawn_task: Seq::empty(),
            ..self
        }
    }

    /// The next field of the spawn dialog, wrapping from the last to the
    /// first.
    pub open spec fn after_spawn_next_field(self) -> AppView {
        AppView {
            spawn_field: ((self.spawn_field + 1) % (SPAWN_FIELD_COUNT as int)) as usize,
            ..self
        }
    }

    /// `c` typed into the spawn dialog: into the rig or the task, whichever
    /// field is selected; nothing on the runtime field.
    pub open spec fn after_spawn_type_char(self, c: char) -> AppView {
        if self.spawn_field == 0 {
            AppView { spawn_rig: self.spawn_rig.push(c), ..self }
        } else if self.spawn_field == 2 {
            AppView { spawn_task: self.spawn_task.push(c), ..self }
        } else {
            self
        }
    }

    /// The last character of the selected text field erased.
    pub open spec fn after_spawn_backspace(self) -> AppView {
        if self.spawn_field == 0 {
            AppView {
                spawn_rig: if self.spawn_rig.len() == 0 {
                    self.spawn_rig
                } else {
                    self.spawn_rig.drop_last()
                },
                ..self
            }
        } else if self.spawn_field == 2 {
            AppView {
                spawn_task: if self.spawn_task.len() == 0 {
                    self.spawn_task
                } else {
                    self.spawn_task.drop_last()
                },
                ..self
            }
        } else {
            self
        }
    }

    /// On the runtime field, the next runtime, wrapping from the last to the
    /// first; elsewhere nothing.
    pub open spec fn after_spawn_next_option(self) -> AppView {
        if self.spawn_field == 1 {
            AppView {
                spawn_runtime_idx: ((self.spawn_runtime_idx + 1) % (RUNTIME_COUNT as int)) as usize,
                ..self
            }
        } else {
            self
        }
    }

    /// On the runtime field, the previous runtime, wrapping from the first
    /// to the last; elsewhere nothing.
    pub open spec fn after_spawn_prev_option(self) -> AppView {
        if self.spawn_field == 1 {
            AppView {
                spawn_runtime_idx: if self.spawn_runtime_idx == 0 {
                    (RUNTIME_COUNT - 1) as usize
                } else {
                    (self.spawn_runtime_idx - 1) as usize
                },
                ..self
            }
        } else {
            self
        }
    }

    /// The bottom of the list set for a list of `count` rows: the last row.
    pub open spec fn with_list_len(self, count: usize) -> AppView {
        AppView { max_scroll: if count == 0 { 0 } else { (count - 1) as usize }, ..self }
    }

    /// The spawn dialog closed.
    pub open spec fn after_confirm_spawn(self) -> AppView {
        AppView { show_spawn_dialog: false, ..self }
    }
}


/// The filter `f` (already lower-cased) admits an agent when it is empty or
/// occurs in the lower-cased name, rig, runtime or status label.
pub open spec fn agent_matches(a: Agent, f: Seq<char>) -> bool {
    ||| f.len() == 0
    ||| spec_contains(lowercase(a.name@), f)
    ||| spec_contains(lowercase(a.rig@), f)
    ||| spec_contains(lowercase(a.runtime@), f)
    ||| spec_contains(lowercase(a.status.label_text()), f)
}

/// The filter `f` admits a convoy when it is empty or occurs in the
/// lower-cased name, id or status label.
pub open spec fn convoy_matches(c: Convoy, f: Seq<char>) -> bool {
    ||| f.len() == 0
    ||| spec_contains(lowercase(c.name@), f)
    ||| spec_contains(lowercase(c.id@), f)
    ||| spec_contains(lowercase(c.status.label_text()), f)
}

/// The filter `f` admits a bead when it is empty or occurs in the
/// lower-cased title, id, rig or status label.
pub open spec fn bead_matches(b: Bead, f: Seq<char>) -> bool {
    ||| f.len() == 0
    ||| spec_contains(lowercase(b.title@), f)
    ||| spec_contains(lowercase(b.id@), f)
    ||| spec_contains(lowercase(b.rig@), f)
    ||| spec_contains(lowercase(b.status.label_text()), f)
}

/// The filter `f` admits a repository when it is empty or occurs in the
/// lower-cased name, branch or path.
pub open spec fn repo_matches(r: RepoInfo, f: Seq<char>) -> bool {
    ||| f.len() == 0
    ||| spec_contains(lowercase(r.name@), f)
    ||| spec_contains(lowercase(r.branch@), f)
    ||| spec_contains(lowercase(r.path@), f)
}

impl AppView {
    /// The filter as it is compared: the typed text, lower-cased.
    pub open spec fn folded_filter(self) -> Seq<char> {
        lowercase(self.filter_text)
    }

    /// The agents that the filter admits, in their order.
    pub open spec fn visible_agents(self) -> Seq<Agent> {
        let f = self.folded_filter();
        self.agents.filter(|a: Agent| agent_matches(a, f))
    }

    /// The convoys that the filter admits, in their order.
    pub open spec fn visible_convoys(self) -> Seq<Convoy> {
        let f = self.folded_filter();
        self.convoys.filter(|c: Convoy| convoy_matches(c, f))
    }

    /// The beads that the filter admits, in their order.
    pub open spec fn visible_beads(self) -> Seq<Bead> {
        let f = self.folded_filter();
        self.beads.filter(|b: Bead| bead_matches(b, f))
    }

    /// The repositories that the filter admits, in their order.
    pub open spec fn visible_repos(self) -> Seq<RepoInfo> {
        let f = self.folded_filter();
        self.repos.filter(|r: RepoInfo| repo_matches(r, f))
    }

    /// The convoys whose status is active, in their order.
    pub open spec fn active_convoy_list(self) -> Seq<Convoy> {
        self.convoys.filter(|c: Convoy| c.status == ConvoyStatus::Active)
    }
}

/// Whether the lower-cased `text` holds `f`.
fn folded_contains(text: &str, f: &Vec<char>) -> (b: bool)
    ensures
        b == spec_contains(lowercase(text@), f@),
{
    let low = text.to_lowercase();
    let cs = chars_of(low.as_str());
    contains_chars(&cs, f)
}

fn agent_shown(a: &Agent, f: &Vec<char>) -> (b: bool)
    ensures
        b == agent_matches(*a, f@),
{
    f.len() == 0 || folded_contains(a.name.as_str(), f) || folded_contains(a.rig.as_str(), f)
        || folded_contains(a.runtime.as_str(), f) || folded_contains(a.status.label(), f)
}

fn convoy_shown(c: &Convoy, f: &Vec<char>) -> (b: bool)
    ensures
        b == convoy_matches(*c, f@),
{
    f.len() == 0 || folded_contains(c.name.as_str(), f) || folded_contains(c.id.as_str(), f)
        || folded_contains(c.status.label(), f)
}

fn bead_shown(b: &Bead, f: &Vec<char>) -> (r: bool)
    ensures
        r == bead_matches(*b, f@),
{
    f.len() == 0 || folded_contains(b.title.as_str(), f) || folded_contains(b.id.as_str(), f)
        || folded_contains(b.rig.as_str(), f) || folded_contains(b.status.label(), f)
}

fn repo_shown(r: &RepoInfo, f: &Vec<char>) -> (b: bool)
    ensures
        b == repo_matches(*r, f@),
{
    f.len() == 0 || folded_contains(r.name.as_str(), f) || folded_contains(r.branch.as_str(), f)
        || folded_contains(r.path.as_str(), f)
}

impl App {
    /// The dashboard at start-up.
    pub fn new() -> (app: App)
        ensures
            app@ == AppView::initial(),
    {
        App {
            tab: 0,
            scroll: 0,
            max_scroll: 0,
            agents: Vec::new(),
            convoys: Vec::new(),
            beads: Vec::new(),
            feed: Vec::new(),
            repos: Vec::new(),
            agents_active: 0,
            agents_idle: 0,
            agents_stuck: 0,
            agents_offline: 0,
            total_beads_done: 0,
            total_beads_open: 0,
            total_beads_progress: 0,
            total_beads_blocked: 0,
            filter_active: false,
            filter_text: String::new(),
            show_spawn_dialog: false,
            spawn_field: 0,
            spawn_rig: String::new(),
            spawn_runtime_idx: 0,
            spawn_task: String::new(),
            tick: 0,
            gt_available: false,
            bd_available: false,
        }
    }

    /// One animation tick: the counter advances, wrapping at its maximum.
    pub fn on_tick(&mut self)
        ensures
            final(self)@ == old(self)@.ticked(),
    {
        self.tick = if self.tick == u64::MAX { 0 } else { self.tick + 1 };
    }

    /// Moves to the next tab (wrapping) and scrolls to the top.
    pub fn next_tab(&mut self)
        requires
            old(self).tab < usize::MAX,
        ensures
            final(self)@ == old(self)@.after_next_tab(),
    {
        self.tab = (self.tab + 1) % TAB_COUNT;
        self.scroll = 0;
    }

    /// Moves to the previous tab (wrapping) and scrolls to the top.
    pub fn prev_tab(&mut self)
        ensures
            final(self)@ == old(self)@.after_prev_tab(),
    {
        self.tab = if self.tab == 0 { TAB_COUNT - 1 } else { self.tab - 1 };
        self.scroll = 0;
    }

    /// Moves to tab `idx` and scrolls to the top, if that tab exists.
    pub fn select_tab(&mut self, idx: usize)
        ensures
            final(self)@ == old(self)@.after_select_tab(idx),
    {
        if idx < TAB_COUNT {
            self.tab = idx;
            self.scroll = 0;
        }
    }

    /// Scrolls one line down, unless at the bottom.
    pub fn scroll_down(&mut self)
        ensures
            final(self)@ == old(self)@.after_scroll_down(),
    {
        if self.scroll < self.max_scroll {
            self.scroll += 1;
        }
    }

    /// Scrolls one line up, unless at the top.
    pub fn scroll_up(&mut self)
        ensures
            final(self)@ == old(self)@.after_scroll_up(),
    {
        self.scroll = self.scroll.saturating_sub(1);
    }

    /// Scrolls to the top.
    pub fn scroll_top(&mut self)
        ensures
            final(self)@ == old(self)@.after_scroll_top(),
    {
        self.scroll = 0;
    }

    /// Scrolls to the bottom.
    pub fn scroll_bottom(&mut self)
        ensures
            final(self)@ == old(self)@.after_scroll_bottom(),
    {
        self.scroll = self.max_scroll;
    }

    /// Whether the filter line is open.
    pub fn is_filtering(&self) -> (b: bool)
        ensures
            b == self@.filter_active,
    {
        self.filter_active
    }

    /// Opens the filter line, or closes it keeping the typed filter applied.
    pub fn toggle_filter(&mut self)
        ensures
            final(self)@ == old(self)@.after_toggle_filter(),
    {
        self.filter_active = !self.filter_active;
    }

    /// Types `c` into the filter and scrolls to the top.
    pub fn filter_push(&mut self, c: char)
        ensures
            final(self)@ == old(self)@.after_filter_push(c),
    {
        self.filter_text.push(c);
        self.scroll = 0;
    }

    /// Erases the filter's last character and scrolls to the top.
    pub fn filter_pop(&mut self)
        ensures
            final(self)@ == old(self)@.after_filter_pop(),
    {
        self.filter_text.pop();
        self.scroll = 0;
    }

    /// Escape: closes the spawn dialog, or else the filter.
    pub fn dismiss(&mut self)
        ensures
            final(self)@ == old(self)@.after_dismiss(),
    {
        if self.show_spawn_dialog {
            self.show_spawn_dialog = false;
        } else if self.filter_active {
            self.filter_active = false;
            self.filter_text.clear();
        }
    }

    /// Opens the spawn dialog afresh.
    pub fn action_spawn(&mut self)
        ensures
            final(self)@ == old(self)@.after_action_spawn(),
    {
        self.show_spawn_dialog = true;
        self.spawn_field = 0;
        self.spawn_rig.clear();
        self.spawn_runtime_idx = 0;
        self.spawn_task.clear();
    }

    /// Moves to the next field of the spawn dialog (wrapping).
    pub fn spawn_next_field(&mut self)
        requires
            old(self).spawn_field < usize::MAX,
        ensures
            final(self)@ == old(self)@.after_spawn_next_field(),
    {
        self.spawn_field = (self.spawn_field + 1) % SPAWN_FIELD_COUNT;
    }

    /// Types `c` into the selected text field of the spawn dialog.
    pub fn spawn_type_char(&mut self, c: char)
        ensures
            final(self)@ == old(self)@.after_spawn_type_char(c),
    {
        match self.spawn_field {
            0 => self.spawn_rig.push(c),
            2 => self.spawn_task.push(c),
            _ => {},
        }
    }

    /// Erases the last character of the selected text field.
    pub fn spawn_backspace(&mut self)
        ensures
            final(self)@ == old(self)@.after_spawn_backspace(),
    {
        match self.spawn_field {
            0 => {
                self.spawn_rig.pop();
            },
            2 => {
                self.spawn_task.pop();
            },
            _ => {},
        }
    }

    /// On the runtime field, selects the next runtime (wrapping).
    pub fn spawn_next_option(&mut self)
        requires
            old(self).spawn_field == 1 ==> old(self).spawn_runtime_idx < usize::MAX,
        ensures
            final(self)@ == old(self)@.after_spawn_next_option(),
    {
        if self.spawn_field == 1 {
            self.spawn_runtime_idx = (self.spawn_runtime_idx + 1) % RUNTIME_COUNT;
        }
    }

    /// On the runtime field, selects the previous runtime (wrapping).
    pub fn spawn_prev_option(&mut self)
        ensures
            final(self)@ == old(self)@.after_spawn_prev_option(),
    {
        if self.spawn_field == 1 {
            self.spawn_runtime_idx = if self.spawn_runtime_idx == 0 {
                RUNTIME_COUNT - 1
            } else {
                self.spawn_runtime_idx - 1
            };
        }
    }

    /// The runtime selected in the spawn dialog.
    pub fn spawn_runtime(&self) -> (r: &'static str)
        requires
            self.spawn_runtime_idx < RUNTIME_COUNT,
        ensures
            r@ == runtime_title(self.spawn_runtime_idx as int),
    {
        runtime_name(self.spawn_runtime_idx)
    }

    /// Confirms the spawn dialog: closes it and returns the request for the
    /// agent it describes, with the rig, the selected runtime and the task
    /// typed.
    pub fn confirm_spawn(&mut self) -> (r: SpawnOrder)
        requires
            old(self).spawn_runtime_idx < RUNTIME_COUNT,
        ensures
            final(self)@ == old(self)@.after_confirm_spawn(),
            r.rig@ == old(self)@.spawn_rig,
            r.runtime@ == runtime_title(old(self).spawn_runtime_idx as int),
            r.task@ == old(self)@.spawn_task,
    {
        let order = SpawnOrder {
            rig: self.spawn_rig.clone(),
            runtime: self.spawn_runtime().to_owned(),
            task: self.spawn_task.clone(),
        };
        self.show_spawn_dialog = false;
        order
    }

    /// Sets the bottom of the list for a list of `count` rows, as each list
    /// tab does when it is drawn.
    pub fn fit_scroll(&mut self, count: usize)
        ensures
            final(self)@ == old(self)@.with_list_len(count),
    {
        self.max_scroll = count.saturating_sub(1);
    }

    /// Enter on a list: there is no detail view, so nothing changes.
    pub fn action_enter(&mut self)
        ensures
            final(self)@ == old(self)@,
    {
    }
}

impl App {
    /// Puts freshly fetched records in place (with whether the two
    /// command-line tools are present) and recomputes the derived counts.
    /// Without the `gt` tool the dashboard runs in demo mode: the sample
    /// agents, convoys, beads and feed stand in for the fetched ones.
    pub fn refresh_all(
        &mut self,
        gt_available: bool,
        bd_available: bool,
        agents: Vec<Agent>,
        convoys: Vec<Convoy>,
        beads: Vec<Bead>,
        feed: Vec<FeedEntry>,
        repos: Vec<RepoInfo>,
    )
        ensures
            gt_available ==> final(self)@ == old(self)@.refreshed(
                gt_available,
                bd_available,
                agents@,
                convoys@,
                beads@,
                feed@,
                repos@,
            ),
            !gt_available ==> final(self)@ == old(self)@.refreshed(
                gt_available,
                bd_available,
                final(self)@.agents,
                final(self)@.convoys,
                final(self)@.beads,
                final(self)@.feed,
                repos@,
            ),
            !gt_available ==> {
                &&& is_demo_agents(final(self)@.agents)
                &&& is_demo_convoys(final(self)@.convoys)
                &&& is_demo_beads(final(self)@.beads)
                &&& is_demo_feed(final(self)@.feed)
            },
    {
        let (agents, convoys, beads, feed) = if gt_available {
            (agents, convoys, beads, feed)
        } else {
            (demo_agents(), demo_convoys(), demo_beads(), demo_feed())
        };
        self.gt_available = gt_available;
        self.bd_available = bd_available;
        self.agents = agents;
        self.convoys = convoys;
        self.beads = beads;
        self.feed = feed;
        self.repos = repos;
        self.recompute_stats();
    }

    fn recompute_stats(&mut self)
        ensures
            final(self)@ == old(self)@.with_stats(),
    {
        let n = self.agents.len();
        let mut active: usize = 0;
        let mut idle: usize = 0;
        let mut stuck: usize = 0;
        let mut offline: usize = 0;
        let mut i: usize = 0;
        while i < n
            invariant
                n == self.agents@.len(),
                i <= n,
                active == count_agents(self.agents@.take(i as int), AgentStatus::Active),
                idle == count_agents(self.agents@.take(i as int), AgentStatus::Idle),
                stuck == count_agents(self.agents@.take(i as int), AgentStatus::Stuck),
                offline == count_agents(self.agents@.take(i as int), AgentStatus::Offline),
                active + idle + stuck + offline == i,
            decreases n - i,
        {
            proof {
                reveal(Seq::filter);
                assert(self.agents@.take(i + 1).drop_last() =~= self.agents@.take(i as int));
            }
            match self.agents[i].status {
                AgentStatus::Active => active += 1,
                AgentStatus::Idle => idle += 1,
                AgentStatus::Stuck => stuck += 1,
                AgentStatus::Offline => offline += 1,
            }
            i = i + 1;
        }
        assert(self.agents@.take(n as int) =~= self.agents@);
        let m = self.beads.len();
        let mut done: usize = 0;
        let mut open: usize = 0;
        let mut progress: usize = 0;
        let mut blocked: usize = 0;
        let mut j: usize = 0;
        while j < m
            invariant
                m == self.beads@.len(),
                j <= m,
                done == count_beads(self.beads@.take(j as int), BeadStatus::Done),
                open == count_beads(self.beads@.take(j as int), BeadStatus::Open),
                progress == count_beads(self.beads@.take(j as int), BeadStatus::InProgress),
                blocked == count_beads(self.beads@.take(j as int), BeadStatus::Blocked),
                done + open + progress + blocked == j,
            decreases m - j,
        {
            proof {
                reveal(Seq::filter);
                assert(self.beads@.take(j + 1).drop_last() =~= self.beads@.take(j as int));
            }
            match self.beads[j].status {
                BeadStatus::Done => done += 1,
                BeadStatus::Open => open += 1,
                BeadStatus::InProgress => progress += 1,
                BeadStatus::Blocked => blocked += 1,
            }
            j = j + 1;
        }
        assert(self.beads@.take(m as int) =~= self.beads@);
        self.agents_active = active;
        self.agents_idle = idle;
        self.agents_stuck = stuck;
        self.agents_offline = offline;
        self.total_beads_done = done as u32;
        self.total_beads_open = open as u32;
        self.total_beads_progress = progress as u32;
        self.total_beads_blocked = blocked as u32;
    }

    /// The agents that the filter admits, in their order.
    pub fn filtered_agents(&self) -> (r: Vec<&Agent>)
        ensures
            r@.map_values(|a: &Agent| *a) == self@.visible_agents(),
    {
        let low = self.filter_text.as_str().to_lowercase();
        let f = chars_of(low.as_str());
        let ghost pred = |a: Agent| agent_matches(a, f@);
        let n = self.agents.len();
        let mut out: Vec<&Agent> = Vec::new();
        let mut i: usize = 0;
        while i < n
            invariant
                n == self.agents@.len(),
                i <= n,
                f@ == self@.folded_filter(),
                pred == (|a: Agent| agent_matches(a, f@)),
                out@.map_values(|a: &Agent| *a) == self.agents@.take(i as int).filter(pred),
            decreases n - i,
        {
            proof {
                reveal(Seq::filter);
                assert(self.agents@.take(i + 1).drop_last() =~= self.agents@.take(i as int));
            }
            let a = &self.agents[i];
            let ghost before = out@;
            if agent_shown(a, &f) {
                out.push(a);
                assert(out@.map_values(|a: &Agent| *a) =~= before.map_values(|a: &Agent| *a).push(*a));
            }
            i = i + 1;
        }
        assert(self.agents@.take(n as int) =~= self.agents@);
        out
    }

    /// The convoys that the filter admits, in their order.
    pub fn filtered_convoys(&self) -> (r: Vec<&Convoy>)
        ensures
            r@.map_values(|a: &Convoy| *a) == self@.visible_convoys(),
    {
        let low = self.filter_text.as_str().to_lowercase();
        let f = chars_of(low.as_str());
        let ghost pred = |a: Convoy| convoy_matches(a, f@);
        let n = self.convoys.len();
        let mut out: Vec<&Convoy> = Vec::new();
        let mut i: usize = 0;
        while i < n
            invariant
                n == self.convoys@.len(),
                i <= n,
                f@ == self@.folded_filter(),
                pred == (|a: Convoy| convoy_matches(a, f@)),
                out@.map_values(|a: &Convoy| *a) == self.convoys@.take(i as int).filter(pred),
            decreases n - i,
        {
            proof {
                reveal(Seq::filter);
                assert(self.convoys@.take(i + 1).drop_last() =~= self.convoys@.take(i as int));
            }
            let a = &self.convoys[i];
            let ghost before = out@;
            if convoy_shown(a, &f) {
                out.push(a);
                assert(out@.map_values(|a: &Convoy| *a) =~= before.map_values(|a: &Convoy| *a).push(*a));
            }
            i = i + 1;
        }
        assert(self.convoys@.take(n as int) =~= self.convoys@);
        out
    }

    /// The beads that the filter admits, in their order.
    pub fn filtered_beads(&self) -> (r: Vec<&Bead>)
        ensures
            r@.map_values(|a: &Bead| *a) == self@.visible_beads(),
    {
        let low = self.filter_text.as_str().to_lowercase();
        let f = chars_of(low.as_str());
        let ghost pred = |a: Bead| bead_matches(a, f@);
        let n = self.beads.len();
        let mut out: Vec<&Bead> = Vec::new();
        let mut i: usize = 0;
        while i < n
            invariant
                n == self.beads@.len(),
                i <= n,
                f@ == self@.folded_filter(),
                pred == (|a: Bead| bead_matches(a, f@)),
                out@.map_values(|a: &Bead| *a) == self.beads@.take(i as int).filter(pred),
            decreases n - i,
        {
            proof {
                reveal(Seq::filter);
                assert(self.beads@.take(i + 1).drop_last() =~= self.beads@.take(i as int));
            }
            let a = &self.beads[i];
            let ghost before = out@;
            if bead_shown(a, &f) {
                out.push(a);
                assert(out@.map_values(|a: &Bead| *a) =~= before.map_values(|a: &Bead| *a).push(*a));
            }
            i = i + 1;
        }
        assert(self.beads@.take(n as int) =~= self.beads@);
        out
    }

    /// The repositories that the filter admits, in their order.
    pub fn filtered_repos(&self) -> (r: Vec<&RepoInfo>)
        ensures
            r@.map_values(|a: &RepoInfo| *a) == self@.visible_repos(),
    {
        let low = self.filter_text.as_str().to_lowercase();
        let f = chars_of(low.as_str());
        let ghost pred = |a: RepoInfo| repo_matches(a, f@);
        let n = self.repos.len();
        let mut out: Vec<&RepoInfo> = Vec::new();
        let mut i: usize = 0;
        while i < n
            invariant
                n == self.repos@.len(),
                i <= n,
                f@ == self@.folded_filter(),
                pred == (|a: RepoInfo| repo_matches(a, f@)),
                out@.map_values(|a: &RepoInfo| *a) == self.repos@.take(i as int).filter(pred),
            decreases n - i,
        {
            proof {
                reveal(Seq::filter);
                assert(self.repos@.take(i + 1).drop_last() =~= self.repos@.take(i as int));
            }
            let a = &self.repos[i];
            let ghost before = out@;
            if repo_shown(a, &f) {
                out.push(a);
                assert(out@.map_values(|a: &RepoInfo| *a) =~= before.map_values(|a: &RepoInfo| *a).push(*a));
            }
            i = i + 1;
        }
        assert(self.repos@.take(n as int) =~= self.repos@);
        out
    }

    /// The convoys whose status is active, in their order.
    pub fn active_convoys(&self) -> (r: Vec<&Convoy>)
        ensures
            r@.map_values(|c: &Convoy| *c) == self@.active_convoy_list(),
    {
        let ghost pred = |c: Convoy| c.status == ConvoyStatus::Active;
        let n = self.convoys.len();
        let mut out: Vec<&Convoy> = Vec::new();
        let mut i: usize = 0;
        while i < n
            invariant
                n == self.convoys@.len(),
                i <= n,
                pred == (|c: Convoy| c.status == ConvoyStatus::Active),
                out@.map_values(|c: &Convoy| *c) == self.convoys@.take(i as int).filter(pred),
            decreases n - i,
        {
            proof {
                reveal(Seq::filter);
                assert(self.convoys@.take(i + 1).drop_last() =~= self.convoys@.take(i as int));
            }
            let c = &self.convoys[i];
            let ghost before = out@;
            if c.status == ConvoyStatus::Active {
                out.push(c);
                assert(out@.map_values(|c: &Convoy| *c) =~= before.map_values(|c: &Convoy| *c).push(*c));
            }
            i = i + 1;
        }
        assert(self.convoys@.take(n as int) =~= self.convoys@);
        out
    }
}

/// Every key keeps the indices in range: from a well-formed state, every
/// operation (and a refresh with any records) leads to a well-formed state.
pub proof fn lemma_operations_keep_wf(
    v: AppView,
    c: char,
    idx: usize,
    gt_available: bool,
    bd_available: bool,
    agents: Seq<Agent>,
    convoys: Seq<Convoy>,
    beads: Seq<Bead>,
    feed: Seq<FeedEntry>,
    repos: Seq<RepoInfo>,
)
    requires
        v.wf(),
    ensures
        AppView::initial().wf(),
        v.refreshed(gt_available, bd_available, agents, convoys, beads, feed, repos).wf(),
        v.ticked().wf(),
        v.after_next_tab().wf(),
        v.after_prev_tab().wf(),
        v.after_select_tab(idx).wf(),
        v.after_scroll_down().wf(),
        v.after_scroll_up().wf(),
        v.after_scroll_top().wf(),
        v.after_scroll_bottom().wf(),
        v.after_toggle_filter().wf(),
        v.after_filter_push(c).wf(),
        v.after_filter_pop().wf(),
        v.after_dismiss().wf(),
        v.after_action_spawn().wf(),
        v.after_spawn_next_field().wf(),
        v.after_spawn_type_char(c).wf(),
        v.after_spawn_backspace().wf(),
        v.after_spawn_next_option().wf(),
        v.after_spawn_prev_option().wf(),
        v.after_confirm_spawn().wf(),
        v.with_list_len(idx).wf(),
{
}

/// Moving to the previous tab undoes moving to the next one, and the other
/// way round; either way the list is back at the top.
pub proof fn lemma_tab_moves_undo(v: AppView)
    requires
        v.tab < TAB_COUNT,
    ensures
        v.after_next_tab().after_prev_tab().tab == v.tab,
        v.after_prev_tab().after_next_tab().tab == v.tab,
        v.after_next_tab().after_prev_tab().scroll == 0,
{
}

/// Moving right once per tab comes back to the tab one started on.
pub proof fn lemma_tab_cycle(v: AppView)
    requires
        v.tab < TAB_COUNT,
    ensures
        v.after_next_tab().after_next_tab().after_next_tab().after_next_tab().after_next_tab().tab
            == v.tab,
{
}

/// Selecting an existing tab shows it; selecting one that does not exist
/// changes nothing.
pub proof fn lemma_select_tab(v: AppView, idx: usize)
    ensures
        idx < TAB_COUNT ==> v.after_select_tab(idx).tab == idx && v.after_select_tab(idx).scroll
            == 0,
        idx >= TAB_COUNT ==> v.after_select_tab(idx) == v,
{
}

/// Scrolling never leaves the range [0, max_scroll] once inside it; one
/// line down then one line up comes back where it was, short of the bottom;
/// at the bottom, down changes nothing.
pub proof fn lemma_scroll_bounds(v: AppView)
    requires
        v.scroll <= v.max_scroll,
    ensures
        v.after_scroll_down().scroll <= v.max_scroll,
        v.after_scroll_up().scroll <= v.max_scroll,
        v.after_scroll_top().scroll <= v.max_scroll,
        v.after_scroll_bottom().scroll <= v.max_scroll,
        v.scroll < v.max_scroll ==> v.after_scroll_down().after_scroll_up() == v,
        v.after_scroll_bottom().after_scroll_down() == v.after_scroll_bottom(),
        v.after_scroll_top().after_scroll_up() == v.after_scroll_top(),
{
}

/// Once the bottom is set for a list of `count` rows, scrolling to the
/// bottom shows the last row, and no scrolling goes past it.
pub proof fn lemma_fit_scroll(v: AppView, count: usize)
    requires
        count > 0,
    ensures
        v.with_list_len(count).after_scroll_bottom().scroll == count - 1,
        v.with_list_len(count).after_scroll_bottom().after_scroll_down().scroll == count - 1,
{
}

/// Toggling the filter line twice changes nothing, and closing it keeps the
/// filter: the text typed stays, and so does what the lists show.
pub proof fn lemma_toggle_filter_twice(v: AppView)
    ensures
        v.after_toggle_filter().after_toggle_filter() == v,
        v.after_toggle_filter().filter_text == v.filter_text,
        v.after_toggle_filter().visible_agents() == v.visible_agents(),
        v.after_toggle_filter().visible_repos() == v.visible_repos(),
{
}

/// Erasing a character undoes typing it, in the filter and in the spawn
/// dialog.
pub proof fn lemma_erase_undoes_typing(v: AppView, c: char)
    ensures
        v.after_filter_push(c).after_filter_pop().filter_text == v.filter_text,
        v.after_spawn_type_char(c).after_spawn_backspace() == v,
{
    assert(v.filter_text.push(c).drop_last() =~= v.filter_text);
    assert(v.spawn_rig.push(c).drop_last() =~= v.spawn_rig);
    assert(v.spawn_task.push(c).drop_last() =~= v.spawn_task);
}

/// Escape closes the spawn dialog first and leaves the filter as it is;
/// a second escape closes the filter; after two nothing is open.
pub proof fn lemma_dismiss_order(v: AppView)
    ensures
        v.show_spawn_dialog ==> !v.after_dismiss().show_spawn_dialog && v.after_dismiss().filter_active
            == v.filter_active && v.after_dismiss().filter_text == v.filter_text,
        !v.after_dismiss().after_dismiss().show_spawn_dialog,
        !v.after_dismiss().after_dismiss().filter_active,
{
}

/// On the runtime field, the previous runtime undoes the next one and the
/// other way round; the fields come round after three moves.
pub proof fn lemma_spawn_cycles(v: AppView)
    requires
        v.wf(),
    ensures
        v.spawn_field == 1 ==> v.after_spawn_next_option().after_spawn_prev_option() == v,
        v.spawn_field == 1 ==> v.after_spawn_prev_option().after_spawn_next_option() == v,
        v.after_spawn_next_field().after_spawn_next_field().after_spawn_next_field() == v,
{
}

/// Every agent has exactly one status: the four agent counts add up to the
/// number of agents.
pub proof fn lemma_agent_counts_partition(s: Seq<Agent>)
    ensures
        count_agents(s, AgentStatus::Active) + count_agents(s, AgentStatus::Idle) + count_agents(
            s,
            AgentStatus::Stuck,
        ) + count_agents(s, AgentStatus::Offline) == s.len(),
    decreases s.len(),
{
    reveal(Seq::filter);
    if s.len() > 0 {
        lemma_agent_counts_partition(s.drop_last());
    }
}

/// Every bead has exactly one status: the four bead counts add up to the
/// number of beads.
pub proof fn lemma_bead_counts_partition(s: Seq<Bead>)
    ensures
        count_beads(s, BeadStatus::Done) + count_beads(s, BeadStatus::Open) + count_beads(
            s,
            BeadStatus::InProgress,
        ) + count_beads(s, BeadStatus::Blocked) == s.len(),
    decreases s.len(),
{
    reveal(Seq::filter);
    if s.len() > 0 {
        lemma_bead_counts_partition(s.drop_last());
    }
}

/// After a refresh the derived counts describe the new records: the agent
/// counts add up to the number of agents, and the bead counts to the number
/// of beads (where that number fits in a `u32`).
pub proof fn lemma_refresh_counts(
    v: AppView,
    gt_available: bool,
    bd_available: bool,
    agents: Seq<Agent>,
    convoys: Seq<Convoy>,
    beads: Seq<Bead>,
    feed: Seq<FeedEntry>,
    repos: Seq<RepoInfo>,
)
    requires
        agents.len() <= usize::MAX,
    ensures
        ({
            let w = v.refreshed(gt_available, bd_available, agents, convoys, beads, feed, repos);
            w.agents_active + w.agents_idle + w.agents_stuck + w.agents_offline == agents.len()
        }),
        beads.len() <= u32::MAX ==> ({
            let w = v.refreshed(gt_available, bd_available, agents, convoys, beads, feed, repos);
            w.total_beads_done + w.total_beads_open + w.total_beads_progress
                + w.total_beads_blocked == beads.len()
        }),
{
    lemma_agent_counts_partition(agents);
    lemma_bead_counts_partition(beads);
}

proof fn lemma_filter_keeps_all<A>(s: Seq<A>, p: spec_fn(A) -> bool)
    requires
        forall|x: A| #[trigger] p(x),
    ensures
        s.filter(p) == s,
    decreases s.len(),
{
    reveal(Seq::filter);
    if s.len() > 0 {
        lemma_filter_keeps_all(s.drop_last(), p);
        assert(s.drop_last().push(s.last()) =~= s);
    }
}

/// An empty filter hides nothing: every list is shown whole.
pub proof fn lemma_empty_filter_shows_all(v: AppView)
    requires
        v.folded_filter().len() == 0,
    ensures
        v.visible_agents() == v.agents,
        v.visible_convoys() == v.convoys,
        v.visible_beads() == v.beads,
        v.visible_repos() == v.repos,
{
    let f = v.folded_filter();
    lemma_filter_keeps_all(v.agents, |a: Agent| agent_matches(a, f));
    lemma_filter_keeps_all(v.convoys, |c: Convoy| convoy_matches(c, f));
    lemma_filter_keeps_all(v.beads, |b: Bead| bead_matches(b, f));
    lemma_filter_keeps_all(v.repos, |r: RepoInfo| repo_matches(r, f));
}

proof fn lemma_filter_sound<A>(s: Seq<A>, p: spec_fn(A) -> bool)
    ensures
        s.filter(p).len() <= s.len(),
        forall|i: int| 0 <= i < s.filter(p).len() ==> p(#[trigger] s.filter(p)[i]),
        forall|i: int| 0 <= i < s.len() && p(s[i]) ==> s.filter(p).contains(#[trigger] s[i]),
{
    s.lemma_filter_len(p);
    assert forall|i: int| 0 <= i < s.filter(p).len() implies p(#[trigger] s.filter(p)[i]) by {
        s.lemma_filter_pred(p, i);
    }
    assert forall|i: int| 0 <= i < s.len() && p(s[i]) implies s.filter(p).contains(
        #[trigger] s[i],
    ) by {
        s.lemma_filter_contains(p, i);
    }
}

/// What a list shows is drawn from the records and admitted by the filter:
/// no longer than the records, every item admitted, every admitted record
/// shown; for each of the four lists.
pub proof fn lemma_visible_lists_sound(v: AppView)
    ensures
        v.visible_agents().len() <= v.agents.len(),
        forall|i: int|
            0 <= i < v.visible_agents().len() ==> agent_matches(
                #[trigger] v.visible_agents()[i],
                v.folded_filter(),
            ),
        forall|i: int|
            0 <= i < v.agents.len() && agent_matches(v.agents[i], v.folded_filter())
                ==> v.visible_agents().contains(#[trigger] v.agents[i]),
        v.visible_convoys().len() <= v.convoys.len(),
        forall|i: int|
            0 <= i < v.visible_convoys().len() ==> convoy_matches(
                #[trigger] v.visible_convoys()[i],
                v.folded_filter(),
            ),
        forall|i: int|
            0 <= i < v.convoys.len() && convoy_matches(v.convoys[i], v.folded_filter())
                ==> v.visible_convoys().contains(#[trigger] v.convoys[i]),
        v.visible_beads().len() <= v.beads.len(),
        forall|i: int|
            0 <= i < v.visible_beads().len() ==> bead_matches(
                #[trigger] v.visible_beads()[i],
                v.folded_filter(),
            ),
        forall|i: int|
            0 <= i < v.beads.len() && bead_matches(v.beads[i], v.folded_filter())
                ==> v.visible_beads().contains(#[trigger] v.beads[i]),
        v.visible_repos().len() <= v.repos.len(),
        forall|i: int|
            0 <= i < v.visible_repos().len() ==> repo_matches(
                #[trigger] v.visible_repos()[i],
                v.folded_filter(),
            ),
        forall|i: int|
            0 <= i < v.repos.len() && repo_matches(v.repos[i], v.folded_filter())
                ==> v.visible_repos().contains(#[trigger] v.repos[i]),
{
    let f = v.folded_filter();
    lemma_filter_sound(v.agents, |a: Agent| agent_matches(a, f));
    lemma_filter_sound(v.convoys, |c: Convoy| convoy_matches(c, f));
    lemma_filter_sound(v.beads, |b: Bead| bead_matches(b, f));
    lemma_filter_sound(v.repos, |r: RepoInfo| repo_matches(r, f));
}

proof fn lemma_contains_transitive(h: Seq<char>, f2: Seq<char>, f1: Seq<char>)
    requires
        spec_contains(h, f2),
        spec_contains(f2, f1),
    ensures
        spec_contains(h, f1),
{
    let i = choose|i: int| 0 <= i && i + f2.len() <= h.len() && #[trigger] h.subrange(i, i + f2.len()) == f2;
    let j = choose|j: int| 0 <= j && j + f1.len() <= f2.len() && #[trigger] f2.subrange(j, j + f1.len()) == f1;
    assert(h.subrange(i + j, i + j + f1.len()) =~= f1) by {
        assert forall|k: int| 0 <= k < f1.len() implies h.subrange(i + j, i + j + f1.len())[k]
            == f1[k] by {
            assert(h.subrange(i, i + f2.len())[j + k] == f2[j + k]);
            assert(f2.subrange(j, j + f1.len())[k] == f2[j + k]);
        }
    }
}

proof fn lemma_filter_narrows<A>(s: Seq<A>, p1: spec_fn(A) -> bool, p2: spec_fn(A) -> bool)
    requires
        forall|x: A| #[trigger] p2(x) ==> p1(x),
    ensures
        s.filter(p2) == s.filter(p1).filter(p2),
    decreases s.len(),
{
    reveal(Seq::filter);
    if s.len() > 0 {
        lemma_filter_narrows(s.drop_last(), p1, p2);
        let f = s.drop_last().filter(p1);
        assert(f.push(s.last()).drop_last() =~= f);
    }
}

/// A longer filter only narrows the lists: where the new lower-cased
/// filter holds the old one, each list shows exactly those of its old rows
/// that the new filter admits, so no row appears that was not shown before.
/// (Typing one more character gives such a filter wherever lower-casing the
/// longer text extends the lower-cased shorter one.)
pub proof fn lemma_longer_filter_narrows(v: AppView, t: Seq<char>)
    requires
        spec_contains(lowercase(t), v.folded_filter()),
    ensures
        ({
            let w = AppView { filter_text: t, ..v };
            let f = w.folded_filter();
            &&& w.visible_agents() == v.visible_agents().filter(|a: Agent| agent_matches(a, f))
            &&& w.visible_convoys() == v.visible_convoys().filter(
                |c: Convoy| convoy_matches(c, f),
            )
            &&& w.visible_beads() == v.visible_beads().filter(|b: Bead| bead_matches(b, f))
            &&& w.visible_repos() == v.visible_repos().filter(
                |r: RepoInfo| repo_matches(r, f),
            )
            &&& w.visible_agents().len() <= v.visible_agents().len()
            &&& w.visible_convoys().len() <= v.visible_convoys().len()
            &&& w.visible_beads().len() <= v.visible_beads().len()
            &&& w.visible_repos().len() <= v.visible_repos().len()
        }),
{
    let w = AppView { filter_text: t, ..v };
    let f1 = v.folded_filter();
    let f2 = w.folded_filter();
    assert forall|h: Seq<char>| spec_contains(h, f2) implies spec_contains(h, f1) by {
        lemma_contains_transitive(h, f2, f1);
    }
    let pa1 = |a: Agent| agent_matches(a, f1);
    let pa2 = |a: Agent| agent_matches(a, f2);
    lemma_filter_narrows(v.agents, pa1, pa2);
    v.agents.filter(pa1).lemma_filter_len(pa2);
    let pc1 = |c: Convoy| convoy_matches(c, f1);
    let pc2 = |c: Convoy| convoy_matches(c, f2);
    lemma_filter_narrows(v.convoys, pc1, pc2);
    v.convoys.filter(pc1).lemma_filter_len(pc2);
    let pb1 = |b: Bead| bead_matches(b, f1);
    let pb2 = |b: Bead| bead_matches(b, f2);
    lemma_filter_narrows(v.beads, pb1, pb2);
    v.beads.filter(pb1).lemma_filter_len(pb2);
    let pr1 = |r: RepoInfo| repo_matches(r, f1);
    let pr2 = |r: RepoInfo| repo_matches(r, f2);
    lemma_filter_narrows(v.repos, pr1, pr2);
    v.repos.filter(pr1).lemma_filter_len(pr2);
}

/// The dashboard's convoy panel shows active convoys only, and all of them.
pub proof fn lemma_active_convoys_sound(v: AppView)
    ensures
        forall|i: int|
            0 <= i < v.active_convoy_list().len() ==> (#[trigger] v.active_convoy_list()[i]).status
                == ConvoyStatus::Active,
        forall|i: int|
            0 <= i < v.convoys.len() && v.convoys[i].status == ConvoyStatus::Active
                ==> v.active_convoy_list().contains(#[trigger] v.convoys[i]),
{
    lemma_filter_sound(v.convoys, |c: Convoy| c.status == ConvoyStatus::Active);
}

/// The modifier bit for Shift, as the terminal reports it.
pub const MOD_SHIFT: u8 = 1;

/// The modifier bit for Control, as the terminal reports it.
pub const MOD_CONTROL: u8 = 2;

/// The keys the dashboard tells apart.
#[derive(Clone, Copy, Debug, PartialEq, Eq, Structural)]
pub enum KeyCode {
    Char(char),
    Esc,
    Enter,
    Backspace,
    Tab,
    BackTab,
    Up,
    Down,
    Home,
    End,
    Other,
}

/// One key press: the key and the set of modifier bits held with it.
#[derive(Clone, Copy, Debug, PartialEq, Eq, Structural)]
pub struct KeyPress {
    pub code: KeyCode,
    pub modifiers: u8,
}

/// What the event loop does after a key: go on, quit, fetch the records
/// again, or start an agent as the spawn dialog asked.
#[derive(Clone, Debug, PartialEq, Eq)]
pub enum KeyOutcome {
    Continue,
    Quit,
    Refresh,
    /// Start the agent that the spawn dialog describes.
    Spawn(SpawnOrder),
}

/// A request for a new agent: in `rig`, on `runtime`, working on `task`.
#[derive(Clone, Debug, PartialEq, Eq)]
pub struct SpawnOrder {
    pub rig: String,
    pub runtime: String,
    pub task: String,
}

/// Control-C, with no other modifier held.
pub open spec fn is_interrupt(k: KeyPress) -> bool {
    k.modifiers == MOD_CONTROL && k.code == KeyCode::Char('c')
}

impl AppView {
    /// Neither the filter line nor the spawn dialog takes the keys.
    pub open spec fn navigating(self) -> bool {
        !self.filter_active && !self.show_spawn_dialog
    }

    /// The key quits: Control-C anywhere, `q` while navigating.
    pub open spec fn key_quits(self, k: KeyPress) -> bool {
        is_interrupt(k) || (self.navigating() && k.code == KeyCode::Char('q'))
    }

    /// The key asks for fresh records: `r` while navigating.
    pub open spec fn key_refreshes(self, k: KeyPress) -> bool {
        !self.key_quits(k) && self.navigating() && k.code == KeyCode::Char('r')
    }

    /// The key confirms the spawn dialog: Enter while the dialog is open
    /// and the filter line is not.
    pub open spec fn key_spawns(self, k: KeyPress) -> bool {
        !self.key_quits(k) && !self.filter_active && self.show_spawn_dialog && k.code
            == KeyCode::Enter
    }

    /// The key can be handled without an index running over: Tab while
    /// navigating moves the tab, Tab in the dialog moves the field, Down on
    /// the runtime field moves the runtime, and confirming the dialog names
    /// the selected runtime.
    pub open spec fn key_fits(self, k: KeyPress) -> bool {
        &&& (!self.key_quits(k) && self.navigating() && k.code == KeyCode::Tab ==> self.tab
            < usize::MAX)
        &&& (!self.key_quits(k) && !self.filter_active && self.show_spawn_dialog && k.code
            == KeyCode::Tab ==> self.spawn_field < usize::MAX)
        &&& (!self.key_quits(k) && !self.filter_active && self.show_spawn_dialog && k.code
            == KeyCode::Down && self.spawn_field == 1 ==> self.spawn_runtime_idx < usize::MAX)
        &&& (self.key_spawns(k) ==> self.spawn_runtime_idx < RUNTIME_COUNT)
    }

    /// The state after the key: a quitting key changes nothing; in the
    /// filter line, keys edit the filter (Enter closes the line and keeps
    /// the filter, escape clears it); in the spawn dialog, keys edit the
    /// dialog; elsewhere keys navigate.
    pub open spec fn after_key(self, k: KeyPress) -> AppView {
        if self.key_quits(k) {
            self
        } else if self.filter_active {
            match k.code {
                KeyCode::Esc => self.after_dismiss(),
                KeyCode::Enter => self.after_toggle_filter(),
                KeyCode::Backspace => self.after_filter_pop(),
                KeyCode::Char(c) => self.after_filter_push(c),
                _ => self,
            }
        } else if self.show_spawn_dialog {
            match k.code {
                KeyCode::Esc => self.after_dismiss(),
                KeyCode::Enter => self.after_confirm_spawn(),
                KeyCode::Tab => self.after_spawn_next_field(),
                KeyCode::Backspace => self.after_spawn_backspace(),
                KeyCode::Char(c) => self.after_spawn_type_char(c),
                KeyCode::Up => self.after_spawn_prev_option(),
                KeyCode::Down => self.after_spawn_next_option(),
                _ => self,
            }
        } else {
            match k.code {
                KeyCode::Tab => self.after_next_tab(),
                KeyCode::BackTab => if k.modifiers == MOD_SHIFT {
                    self.after_prev_tab()
                } else {
                    self
                },
                KeyCode::Char(c) => if c == '1' {
                    self.after_select_tab(0)
                } else if c == '2' {
                    self.after_select_tab(1)
                } else if c == '3' {
                    self.after_select_tab(2)
                } else if c == '4' {
                    self.after_select_tab(3)
                } else if c == '5' {
                    self.after_select_tab(4)
                } else if c == 'j' {
                    self.after_scroll_down()
                } else if c == 'k' {
                    self.after_scroll_up()
                } else if c == 'g' {
                    self.after_scroll_top()
                } else if c == 'G' {
                    self.after_scroll_bottom()
                } else if c == 's' {
                    self.after_action_spawn()
                } else if c == '/' {
                    self.after_toggle_filter()
                } else {
                    self
                },
                KeyCode::Down => self.after_scroll_down(),
                KeyCode::Up => self.after_scroll_up(),
                KeyCode::Home => self.after_scroll_top(),
                KeyCode::End => self.after_scroll_bottom(),
                KeyCode::Esc => self.after_dismiss(),
                _ => self,
            }
        }
    }
}

impl App {
    /// Whether the key can be handled without an index running over.
    pub fn key_fits(&self, k: KeyPress) -> (b: bool)
        ensures
            b == self@.key_fits(k),
    {
        let interrupt = k.modifiers == MOD_CONTROL && k.code == KeyCode::Char('c');
        let quits = interrupt || (!self.filter_active && !self.show_spawn_dialog && k.code
            == KeyCode::Char('q'));
        let in_dialog = !quits && !self.filter_active && self.show_spawn_dialog;
        let navigating = !quits && !self.filter_active && !self.show_spawn_dialog;
        (!(navigating && k.code == KeyCode::Tab) || self.tab < usize::MAX) && (!(in_dialog
            && k.code == KeyCode::Tab) || self.spawn_field < usize::MAX) && (!(in_dialog && k.code
            == KeyCode::Down && self.spawn_field == 1) || self.spawn_runtime_idx < usize::MAX) && (
        !(in_dialog && k.code == KeyCode::Enter) || self.spawn_runtime_idx < RUNTIME_COUNT)
    }

    /// Handles one key press: updates the state and says whether the event
    /// loop goes on, quits, fetches the records again, or starts the agent
    /// that the spawn dialog describes.
    pub fn handle_key(&mut self, k: KeyPress) -> (r: KeyOutcome)
        requires
            old(self)@.key_fits(k),
        ensures
            final(self)@ == old(self)@.after_key(k),
            r is Quit <==> old(self)@.key_quits(k),
            r is Refresh <==> old(self)@.key_refreshes(k),
            r is Spawn <==> old(self)@.key_spawns(k),
            r matches KeyOutcome::Spawn(order) ==> {
                &&& order.rig@ == old(self)@.spawn_rig
                &&& order.runtime@ == runtime_title(old(self).spawn_runtime_idx as int)
                &&& order.task@ == old(self)@.spawn_task
            },
    {
        if k.modifiers == MOD_CONTROL && k.code == KeyCode::Char('c') {
            return KeyOutcome::Quit;
        }
        if self.is_filtering() {
            match k.code {
                KeyCode::Esc => self.dismiss(),
                KeyCode::Enter => self.toggle_filter(),
                KeyCode::Backspace => self.filter_pop(),
                KeyCode::Char(c) => self.filter_push(c),
                _ => {},
            }
            KeyOutcome::Continue
        } else if self.show_spawn_dialog {
            match k.code {
                KeyCode::Esc => self.dismiss(),
                KeyCode::Enter => {
                    return KeyOutcome::Spawn(self.confirm_spawn());
                },
                KeyCode::Tab => self.spawn_next_field(),
                KeyCode::Backspace => self.spawn_backspace(),
                KeyCode::Char(c) => self.spawn_type_char(c),
                KeyCode::Up => self.spawn_prev_option(),
                KeyCode::Down => self.spawn_next_option(),
                _ => {},
            }
            KeyOutcome::Continue
        } else {
            match k.code {
                KeyCode::Char('q') => {
                    return KeyOutcome::Quit;
                },
                KeyCode::Tab => self.next_tab(),
                KeyCode::BackTab => {
                    if k.modifiers == MOD_SHIFT {
                        self.prev_tab();
                    }
                },
                KeyCode::Char('1') => self.select_tab(0),
                KeyCode::Char('2') => self.select_tab(1),
                KeyCode::Char('3') => self.select_tab(2),
                KeyCode::Char('4') => self.select_tab(3),
                KeyCode::Char('5') => self.select_tab(4),
                KeyCode::Char('r') => {
                    return KeyOutcome::Refresh;
                },
                KeyCode::Char('j') | KeyCode::Down => self.scroll_down(),
                KeyCode::Char('k') | KeyCode::Up => self.scroll_up(),
                KeyCode::Char('g') | KeyCode::Home => self.scroll_top(),
                KeyCode::Char('G') | KeyCode::End => self.scroll_bottom(),
                KeyCode::Enter => self.action_enter(),
                KeyCode::Char('s') => self.action_spawn(),
                KeyCode::Char('/') => self.toggle_filter(),
                KeyCode::Esc => self.dismiss(),
                _ => {},
            }
            KeyOutcome::Continue
        }
    }
}

/// In the filter line every character but Control-C is typed into the
/// filter (none navigates); Enter closes the line and keeps the filter;
/// escape closes it and clears the filter.
pub proof fn lemma_filter_line_takes_characters(v: AppView, c: char, modifiers: u8)
    requires
        v.filter_active,
        !(modifiers == MOD_CONTROL && c == 'c'),
    ensures
        v.after_key(KeyPress { code: KeyCode::Char(c), modifiers }) == v.after_filter_push(c),
        !v.key_quits(KeyPress { code: KeyCode::Char(c), modifiers }),
        !v.key_refreshes(KeyPress { code: KeyCode::Char(c), modifiers }),
        !v.after_key(KeyPress { code: KeyCode::Enter, modifiers }).filter_active,
        v.after_key(KeyPress { code: KeyCode::Enter, modifiers }).filter_text == v.filter_text,
        !v.show_spawn_dialog ==> v.after_key(KeyPress { code: KeyCode::Esc, modifiers }).filter_text
            == Seq::<char>::empty(),
{
}

/// Control-C quits from anywhere and changes nothing; while navigating,
/// `q` quits and `r` asks for fresh records, neither changing the state.
pub proof fn lemma_quit_and_refresh_keys(v: AppView, modifiers: u8)
    ensures
        v.key_quits(KeyPress { code: KeyCode::Char('c'), modifiers: MOD_CONTROL }),
        v.after_key(KeyPress { code: KeyCode::Char('c'), modifiers: MOD_CONTROL }) == v,
        v.navigating() ==> v.key_quits(KeyPress { code: KeyCode::Char('q'), modifiers }),
        v.navigating() ==> v.after_key(KeyPress { code: KeyCode::Char('q'), modifiers }) == v,
        v.navigating() && modifiers != MOD_CONTROL ==> v.key_refreshes(
            KeyPress { code: KeyCode::Char('r'), modifiers },
        ),
        v.navigating() ==> v.after_key(KeyPress { code: KeyCode::Char('r'), modifiers }) == v,
{
}

/// Enter in the open spawn dialog asks for an agent and closes the dialog,
/// leaving everything else as it was.
pub proof fn lemma_spawn_key(v: AppView, modifiers: u8)
    requires
        v.show_spawn_dialog,
        !v.filter_active,
    ensures
        v.key_spawns(KeyPress { code: KeyCode::Enter, modifiers }),
        v.after_key(KeyPress { code: KeyCode::Enter, modifiers }) == (AppView {
            show_spawn_dialog: false,
            ..v
        }),
{
}

/// No key press leaves the indices out of range.
pub proof fn lemma_keys_keep_wf(v: AppView, k: KeyPress)
    requires
        v.wf(),
    ensures
        v.after_key(k).wf(),
        v.key_fits(k),
{
}

/// The filter searches every field of each list, each on its own: a row is
/// shown when the lower-cased filter is empty or occurs in any one of its
/// lower-cased fields (agents: name, rig, runtime, status label; convoys:
/// name, id, status label; beads: title, id, rig, status label;
/// repositories: name, branch, path), and every row shown is one of these.
pub proof fn lemma_filter_searches_every_field(v: AppView)
    ensures
        ({
            let f = v.folded_filter();
            &&& forall|i: int|
                0 <= i < v.agents.len() && (f.len() == 0 || spec_contains(
                    lowercase(v.agents[i].name@),
                    f,
                ) || spec_contains(lowercase(v.agents[i].rig@), f) || spec_contains(
                    lowercase(v.agents[i].runtime@),
                    f,
                ) || spec_contains(lowercase(v.agents[i].status.label_text()), f))
                    ==> v.visible_agents().contains(#[trigger] v.agents[i])
            &&& forall|k: int|
                0 <= k < v.visible_agents().len() ==> ({
                    let a = #[trigger] v.visible_agents()[k];
                    f.len() == 0 || spec_contains(lowercase(a.name@), f) || spec_contains(
                        lowercase(a.rig@),
                        f,
                    ) || spec_contains(lowercase(a.runtime@), f) || spec_contains(
                        lowercase(a.status.label_text()),
                        f,
                    )
                })
            &&& forall|i: int|
                0 <= i < v.convoys.len() && (f.len() == 0 || spec_contains(
                    lowercase(v.convoys[i].name@),
                    f,
                ) || spec_contains(lowercase(v.convoys[i].id@), f) || spec_contains(
                    lowercase(v.convoys[i].status.label_text()),
                    f,
                )) ==> v.visible_convoys().contains(#[trigger] v.convoys[i])
            &&& forall|k: int|
                0 <= k < v.visible_convoys().len() ==> ({
                    let c = #[trigger] v.visible_convoys()[k];
                    f.len() == 0 || spec_contains(lowercase(c.name@), f) || spec_contains(
                        lowercase(c.id@),
                        f,
                    ) || spec_contains(lowercase(c.status.label_text()), f)
                })
            &&& forall|i: int|
                0 <= i < v.beads.len() && (f.len() == 0 || spec_contains(
                    lowercase(v.beads[i].title@),
                    f,
                ) || spec_contains(lowercase(v.beads[i].id@), f) || spec_contains(
                    lowercase(v.beads[i].rig@),
                    f,
                ) || spec_contains(lowercase(v.beads[i].status.label_text()), f))
                    ==> v.visible_beads().contains(#[trigger] v.beads[i])
            &&& forall|k: int|
                0 <= k < v.visible_beads().len() ==> ({
                    let b = #[trigger] v.visible_beads()[k];
                    f.len() == 0 || spec_contains(lowercase(b.title@), f) || spec_contains(
                        lowercase(b.id@),
                        f,
                    ) || spec_contains(lowercase(b.rig@), f) || spec_contains(
                        lowercase(b.status.label_text()),
                        f,
                    )
                })
            &&& forall|i: int|
                0 <= i < v.repos.len() && (f.len() == 0 || spec_contains(
                    lowercase(v.repos[i].name@),
                    f,
                ) || spec_contains(lowercase(v.repos[i].branch@), f) || spec_contains(
                    lowercase(v.repos[i].path@),
                    f,
                )) ==> v.visible_repos().contains(#[trigger] v.repos[i])
            &&& forall|k: int|
                0 <= k < v.visible_repos().len() ==> ({
                    let r = #[trigger] v.visible_repos()[k];
                    f.len() == 0 || spec_contains(lowercase(r.name@), f) || spec_contains(
                        lowercase(r.branch@),
                        f,
                    ) || spec_contains(lowercase(r.path@), f)
                })
        }),
{
    lemma_visible_lists_sound(v);
}

/// Each derived count counts its own status: after the counts are
/// recomputed, each agent count is the number of agents with that status,
/// and each bead count the number of beads with that status (kept to 32
/// bits).
pub proof fn lemma_counts_by_status(v: AppView)
    requires
        v.agents.len() <= usize::MAX,
    ensures
        v.with_stats().agents_active == v.agents.filter(
            |a: Agent| a.status == AgentStatus::Active,
        ).len(),
        v.with_stats().agents_idle == v.agents.filter(|a: Agent| a.status == AgentStatus::Idle).len(),
        v.with_stats().agents_stuck == v.agents.filter(
            |a: Agent| a.status == AgentStatus::Stuck,
        ).len(),
        v.with_stats().agents_offline == v.agents.filter(
            |a: Agent| a.status == AgentStatus::Offline,
        ).len(),
        v.with_stats().total_beads_done == v.beads.filter(
            |b: Bead| b.status == BeadStatus::Done,
        ).len() as u32,
        v.with_stats().total_beads_open == v.beads.filter(
            |b: Bead| b.status == BeadStatus::Open,
        ).len() as u32,
        v.with_stats().total_beads_progress == v.beads.filter(
            |b: Bead| b.status == BeadStatus::InProgress,
        ).len() as u32,
        v.with_stats().total_beads_blocked == v.beads.filter(
            |b: Bead| b.status == BeadStatus::Blocked,
        ).len() as u32,
        v.with_stats().agents == v.agents,
        v.with_stats().beads == v.beads,
{
    v.agents.lemma_filter_len(|a: Agent| a.status == AgentStatus::Active);
    v.agents.lemma_filter_len(|a: Agent| a.status == AgentStatus::Idle);
    v.agents.lemma_filter_len(|a: Agent| a.status == AgentStatus::Stuck);
    v.agents.lemma_filter_len(|a: Agent| a.status == AgentStatus::Offline);
}

/// While navigating, each key does what its binding says, stated by the
/// state it leads to: `j` and Down scroll one line down (not past the
/// bottom), `k` and Up one line up (not past the top), `g` and Home to the
/// top, `G` and End to the bottom; `1` to `5` show tabs 0 to 4 and Tab the
/// next tab, each at the top of its list; `s` opens a fresh spawn dialog;
/// `/` opens the filter line. Nothing else changes.
pub proof fn lemma_navigation_keys(v: AppView, modifiers: u8)
    requires
        v.navigating(),
    ensures
        ({
            let down = AppView {
                scroll: if v.scroll < v.max_scroll { (v.scroll + 1) as usize } else { v.scroll },
                ..v
            };
            let up = AppView { scroll: if v.scroll == 0 { 0 } else { (v.scroll - 1) as usize }, ..v };
            &&& v.after_key(KeyPress { code: KeyCode::Char('j'), modifiers }) == down
            &&& v.after_key(KeyPress { code: KeyCode::Down, modifiers }) == down
            &&& v.after_key(KeyPress { code: KeyCode::Char('k'), modifiers }) == up
            &&& v.after_key(KeyPress { code: KeyCode::Up, modifiers }) == up
        }),
        v.after_key(KeyPress { code: KeyCode::Char('g'), modifiers }) == (AppView { scroll: 0, ..v }),
        v.after_key(KeyPress { code: KeyCode::Home, modifiers }) == (AppView { scroll: 0, ..v }),
        v.after_key(KeyPress { code: KeyCode::Char('G'), modifiers }) == (AppView {
            scroll: v.max_scroll,
            ..v
        }),
        v.after_key(KeyPress { code: KeyCode::End, modifiers }) == (AppView {
            scroll: v.max_scroll,
            ..v
        }),
        v.after_key(KeyPress { code: KeyCode::Char('1'), modifiers }) == (AppView {
            tab: 0,
            scroll: 0,
            ..v
        }),
        v.after_key(KeyPress { code: KeyCode::Char('2'), modifiers }) == (AppView {
            tab: 1,
            scroll: 0,
            ..v
        }),
        v.after_key(KeyPress { code: KeyCode::Char('3'), modifiers }) == (AppView {
            tab: 2,
            scroll: 0,
            ..v
        }),
        v.after_key(KeyPress { code: KeyCode::Char('4'), modifiers }) == (AppView {
            tab: 3,
            scroll: 0,
            ..v
        }),
        v.after_key(KeyPress { code: KeyCode::Char('5'), modifiers }) == (AppView {
            tab: 4,
            scroll: 0,
            ..v
        }),
        v.tab < TAB_COUNT ==> v.after_key(KeyPress { code: KeyCode::Tab, modifiers }) == (AppView {
            tab: if v.tab == 4 { 0 } else { (v.tab + 1) as usize },
            scroll: 0,
            ..v
        }),
        v.after_key(KeyPress { code: KeyCode::BackTab, modifiers: MOD_SHIFT }) == (AppView {
            tab: if v.tab == 0 { 4 } else { (v.tab - 1) as usize },
            scroll: 0,
            ..v
        }),
        v.after_key(KeyPress { code: KeyCode::Char('s'), modifiers }) == (AppView {
            show_spawn_dialog: true,
            spawn_field: 0,
            spawn_rig: Seq::empty(),
            spawn_runtime_idx: 0,
            spawn_task: Seq::empty(),
            ..v
        }),
        v.after_key(KeyPress { code: KeyCode::Char('/'), modifiers }) == (AppView {
            filter_active: true,
            ..v
        }),
{
}

/// In the filter line each key does what the footer says, stated by the
/// state it leads to: a character (other than Control-C) is appended to the
/// filter, Backspace erases the last one, each sending the list back to the
/// top; Enter closes the line keeping the filter; escape (with no dialog
/// open) closes it and clears the filter.
pub proof fn lemma_filter_line_keys(v: AppView, c: char, modifiers: u8)
    requires
        v.filter_active,
        !(modifiers == MOD_CONTROL && c == 'c'),
    ensures
        v.after_key(KeyPress { code: KeyCode::Char(c), modifiers }) == (AppView {
            filter_text: v.filter_text.push(c),
            scroll: 0,
            ..v
        }),
        v.after_key(KeyPress { code: KeyCode::Backspace, modifiers }) == (AppView {
            filter_text: if v.filter_text.len() == 0 {
                v.filter_text
            } else {
                v.filter_text.subrange(0, v.filter_text.len() - 1)
            },
            scroll: 0,
            ..v
        }),
        v.after_key(KeyPress { code: KeyCode::Enter, modifiers }) == (AppView {
            filter_active: false,
            ..v
        }),
        !v.show_spawn_dialog ==> v.after_key(KeyPress { code: KeyCode::Esc, modifiers }) == (
        AppView { filter_active: false, filter_text: Seq::empty(), ..v }),
{
}

/// In the spawn dialog each key edits the dialog, stated by the state it
/// leads to: a character goes to the rig on the first field and to the task
/// on the third (nothing on the runtime field); Backspace erases from the
/// same field; Tab moves to the next field, wrapping after the third; Down
/// and Up on the runtime field select the next and previous runtime,
/// wrapping; escape and Enter close the dialog.
pub proof fn lemma_spawn_dialog_keys(v: AppView, c: char, modifiers: u8)
    requires
        v.show_spawn_dialog,
        !v.filter_active,
        v.spawn_field < SPAWN_FIELD_COUNT,
        v.spawn_runtime_idx < RUNTIME_COUNT,
        !(modifiers == MOD_CONTROL && c == 'c'),
    ensures
        v.spawn_field == 0 ==> v.after_key(KeyPress { code: KeyCode::Char(c), modifiers }) == (
        AppView { spawn_rig: v.spawn_rig.push(c), ..v }),
        v.spawn_field == 2 ==> v.after_key(KeyPress { code: KeyCode::Char(c), modifiers }) == (
        AppView { spawn_task: v.spawn_task.push(c), ..v }),
        v.spawn_field == 1 ==> v.after_key(KeyPress { code: KeyCode::Char(c), modifiers }) == v,
        v.spawn_field == 0 && v.spawn_rig.len() > 0 ==> v.after_key(
            KeyPress { code: KeyCode::Backspace, modifiers },
        ) == (AppView { spawn_rig: v.spawn_rig.subrange(0, v.spawn_rig.len() - 1), ..v }),
        v.spawn_field == 2 && v.spawn_task.len() > 0 ==> v.after_key(
            KeyPress { code: KeyCode::Backspace, modifiers },
        ) == (AppView { spawn_task: v.spawn_task.subrange(0, v.spawn_task.len() - 1), ..v }),
        v.after_key(KeyPress { code: KeyCode::Tab, modifiers }) == (AppView {
            spawn_field: if v.spawn_field == 2 { 0 } else { (v.spawn_field + 1) as usize },
            ..v
        }),
        v.spawn_field == 1 ==> v.after_key(KeyPress { code: KeyCode::Down, modifiers }) == (
        AppView {
            spawn_runtime_idx: if v.spawn_runtime_idx == 4 {
                0
            } else {
                (v.spawn_runtime_idx + 1) as usize
            },
            ..v
        }),
        v.spawn_field == 1 ==> v.after_key(KeyPress { code: KeyCode::Up, modifiers }) == (AppView {
            spawn_runtime_idx: if v.spawn_runtime_idx == 0 {
                4
            } else {
                (v.spawn_runtime_idx - 1) as usize
            },
            ..v
        }),
        v.spawn_field != 1 ==> v.after_key(KeyPress { code: KeyCode::Down, modifiers }) == v,
        v.after_key(KeyPress { code: KeyCode::Esc, modifiers }) == (AppView {
            show_spawn_dialog: false,
            ..v
        }),
        v.after_key(KeyPress { code: KeyCode::Enter, modifiers }) == (AppView {
            show_spawn_dialog: false,
            ..v
        }),
{
    assert(v.filter_text.drop_last() =~= v.filter_text.subrange(0, v.filter_text.len() - 1));
    assert(v.spawn_rig.len() > 0 ==> v.spawn_rig.drop_last() =~= v.spawn_rig.subrange(
        0,
        v.spawn_rig.len() - 1,
    ));
    assert(v.spawn_task.len() > 0 ==> v.spawn_task.drop_last() =~= v.spawn_task.subrange(
        0,
        v.spawn_task.len() - 1,
    ));
}

/// A fresh dashboard shows the first tab at the top with nothing loaded, no
/// filter and no dialog; each animation tick adds one to the counter,
/// wrapping to 0 after the largest value, and changes nothing else.
pub proof fn lemma_start_and_tick(v: AppView)
    ensures
        AppView::initial().tab == 0,
        AppView::initial().scroll == 0,
        AppView::initial().max_scroll == 0,
        AppView::initial().agents.len() == 0,
        AppView::initial().convoys.len() == 0,
        AppView::initial().beads.len() == 0,
        AppView::initial().feed.len() == 0,
        AppView::initial().repos.len() == 0,
        AppView::initial().agents_active + AppView::initial().agents_idle
            + AppView::initial().agents_stuck + AppView::initial().agents_offline == 0,
        AppView::initial().total_beads_done + AppView::initial().total_beads_open
            + AppView::initial().total_beads_progress + AppView::initial().total_beads_blocked
            == 0,
        !AppView::initial().filter_active,
        AppView::initial().filter_text.len() == 0,
        !AppView::initial().show_spawn_dialog,
        AppView::initial().spawn_rig.len() == 0,
        AppView::initial().spawn_task.len() == 0,
        AppView::initial().spawn_field == 0,
        AppView::initial().spawn_runtime_idx == 0,
        AppView::initial().tick == 0,
        v.ticked().tick == (v.tick + 1) % 0x1_0000_0000_0000_0000,
        v.ticked() == (AppView { tick: v.ticked().tick, ..v }),
{
}

} // verus!
