//! The records the dashboard shows (agents, beads, convoys, feed entries),
//! their status labels, and the records that the workspace's command-line
//! tools report.

use vstd::prelude::*;
use crate::text::{lines, opt_text, split_lines, text_eq, text_or};

verus! {

/// What an agent is doing.
#[derive(Clone, Copy, Debug, PartialEq, Eq, Structural)]
pub enum AgentStatus {
    Active,
    Idle,
    Stuck,
    Offline,
}

impl AgentStatus {
    /// The label shown for this status.
    pub open spec fn label_text(self) -> Seq<char> {
        match self {
            AgentStatus::Active => "active"@,
            AgentStatus::Idle => "idle"@,
            AgentStatus::Stuck => "stuck"@,
            AgentStatus::Offline => "offline"@,
        }
    }

    /// The label shown for this status.
    pub fn label(&self) -> (r: &'static str)
        ensures
            r@ == self.label_text(),
    {
        match self {
            AgentStatus::Active => "active",
            AgentStatus::Idle => "idle",
            AgentStatus::Stuck => "stuck",
            AgentStatus::Offline => "offline",
        }
    }
}

/// Where a unit of work (a bead) stands.
#[derive(Clone, Copy, Debug, PartialEq, Eq, Structural)]
pub enum BeadStatus {
    Open,
    InProgress,
    Done,
    Blocked,
}

impl BeadStatus {
    /// The label shown for this status.
    pub open spec fn label_text(self) -> Seq<char> {
        match self {
            BeadStatus::Open => "open"@,
            BeadStatus::InProgress => "in_progress"@,
            BeadStatus::Done => "done"@,
            BeadStatus::Blocked => "blocked"@,
        }
    }

    /// The label shown for this status.
    pub fn label(&self) -> (r: &'static str)
        ensures
            r@ == self.label_text(),
    {
        match self {
            BeadStatus::Open => "open",
            BeadStatus::InProgress => "in_progress",
            BeadStatus::Done => "done",
            BeadStatus::Blocked => "blocked",
        }
    }
}

/// Where a convoy (a batch of tracked work) stands.
#[derive(Clone, Copy, Debug, PartialEq, Eq, Structural)]
pub enum ConvoyStatus {
    Active,
    Completed,
    Paused,
    Blocked,
}

impl ConvoyStatus {
    /// The label shown for this status.
    pub open spec fn label_text(self) -> Seq<char> {
        match self {
            ConvoyStatus::Active => "active"@,
            ConvoyStatus::Completed => "completed"@,
            ConvoyStatus::Paused => "paused"@,
            ConvoyStatus::Blocked => "blocked"@,
        }
    }

    /// The label shown for this status.
    pub fn label(&self) -> (r: &'static str)
        ensures
            r@ == self.label_text(),
    {
        match self {
            ConvoyStatus::Active => "active",
            ConvoyStatus::Completed => "completed",
            ConvoyStatus::Paused => "paused",
            ConvoyStatus::Blocked => "blocked",
        }
    }
}

/// How an activity-feed entry is to be read.
#[derive(Clone, Copy, Debug, PartialEq, Eq, Structural)]
pub enum Severity {
    Info,
    Warning,
    Error,
    Success,
}

/// One agent as the dashboard shows it.
#[derive(Clone, Debug)]
pub struct Agent {
    pub name: String,
    pub rig: String,
    pub runtime: String,
    pub status: AgentStatus,
    pub current_bead: Option<String>,
    pub beads_completed: u32,
    pub uptime_secs: u64,
}

/// One bead (unit of work) as the dashboard shows it.
#[derive(Clone, Debug)]
pub struct Bead {
    pub id: String,
    pub title: String,
    pub rig: String,
    pub status: BeadStatus,
    pub assigned_to: Option<String>,
    pub convoy_id: Option<String>,
}

/// One convoy as the dashboard shows it.
#[derive(Clone, Debug)]
pub struct Convoy {
    pub id: String,
    pub name: String,
    pub status: ConvoyStatus,
    pub agents_assigned: Vec<String>,
    pub completed_beads: u32,
    pub in_progress_beads: u32,
    pub total_beads: u32,
}

/// One line of the activity feed.
#[derive(Clone, Debug)]
pub struct FeedEntry {
    pub timestamp: String,
    pub agent: String,
    pub action: String,
    pub detail: String,
    pub severity: Severity,
}

/// The report of `gt status --json`.
#[derive(Clone, Debug)]
pub struct TownStatus {
    pub name: String,
    pub location: String,
    pub overseer: Option<Overseer>,
    pub daemon: Option<ServiceStatus>,
    pub dolt: Option<DoltStatus>,
    pub tmux: Option<TmuxStatus>,
    pub agents: Vec<GtAgent>,
    pub rigs: Vec<GtRig>,
    pub summary: Option<TownSummary>,
}

/// The person overseeing the workspace.
#[derive(Clone, Debug)]
pub struct Overseer {
    pub name: String,
    pub email: String,
    pub unread_mail: u32,
}

/// Whether a background service runs, and its process.
#[derive(Clone, Debug)]
pub struct ServiceStatus {
    pub running: bool,
    pub pid: Option<u64>,
}

/// The database server's state.
#[derive(Clone, Debug)]
pub struct DoltStatus {
    pub running: bool,
    pub pid: Option<u64>,
    pub port: Option<u16>,
    pub data_dir: Option<String>,
}

/// The terminal multiplexer's state.
#[derive(Clone, Debug)]
pub struct TmuxStatus {
    pub socket: Option<String>,
    pub running: bool,
    pub session_count: u32,
}

/// One agent as `gt status` reports it.
#[derive(Clone, Debug)]
pub struct GtAgent {
    pub name: String,
    pub address: String,
    pub session: Option<String>,
    pub role: Option<String>,
    pub running: bool,
    pub has_work: bool,
    pub state: Option<String>,
    pub work_title: Option<String>,
    pub hook_bead: Option<String>,
    pub unread_mail: Option<u32>,
    pub agent_alias: Option<String>,
    pub agent_info: Option<String>,
    pub acp: bool,
}

/// One rig as `gt status` reports it.
#[derive(Clone, Debug)]
pub struct GtRig {
    pub name: String,
    pub polecats: Option<Vec<String>>,
    pub polecat_count: u32,
    pub crews: Option<Vec<String>>,
    pub crew_count: u32,
    pub has_witness: bool,
    pub has_refinery: bool,
    pub hooks: Vec<GtHook>,
    pub agents: Vec<GtAgent>,
    pub mq: Option<GtMq>,
}

/// One hook (work attached to an agent) of a rig.
#[derive(Clone, Debug)]
pub struct GtHook {
    pub agent: String,
    pub role: String,
    pub has_work: bool,
    pub molecule: Option<String>,
    pub title: Option<String>,
}

/// A rig's merge queue.
#[derive(Clone, Debug)]
pub struct GtMq {
    pub pending: u32,
    pub in_flight: u32,
    pub blocked: u32,
    pub state: Option<String>,
    pub health: Option<String>,
}

/// The counters of `gt status`.
#[derive(Clone, Debug)]
pub struct TownSummary {
    pub rig_count: u32,
    pub polecat_count: u32,
    pub crew_count: u32,
    pub witness_count: u32,
    pub refinery_count: u32,
    pub active_hooks: u32,
}

/// One convoy as `gt convoy list --json` reports it.
#[derive(Clone, Debug)]
pub struct GtConvoy {
    pub id: String,
    pub title: String,
    pub status: String,
    pub created_at: Option<String>,
    pub tracked_beads: Option<Vec<ConvoyTracked>>,
    pub completed: u32,
    pub total: u32,
}

/// One bead tracked by a convoy.
#[derive(Clone, Debug)]
pub struct ConvoyTracked {
    pub id: String,
    pub title: String,
    pub status: String,
    pub assignee: Option<String>,
    pub worker: Option<String>,
    pub worker_age: Option<String>,
    pub blocked: Option<bool>,
}

/// One issue as `bd list --json --all` reports it.
#[derive(Clone, Debug)]
pub struct BdIssue {
    pub id: String,
    pub title: String,
    pub description: Option<String>,
    pub status: String,
    pub priority: i32,
    pub issue_type: String,
    pub assignee: Option<String>,
    pub owner: Option<String>,
    pub created_at: Option<String>,
    pub updated_at: Option<String>,
    pub labels: Option<Vec<String>>,
    pub dependency_count: Option<u32>,
    pub dependent_count: Option<u32>,
    pub comment_count: Option<u32>,
}

/// One message as `gt mail inbox --json` reports it.
#[derive(Clone, Debug)]
pub struct GtMail {
    pub id: String,
    pub from: String,
    pub to: Option<String>,
    pub subject: String,
    pub body: Option<String>,
    pub timestamp: Option<String>,
    pub read: bool,
    pub priority: Option<String>,
    pub msg_type: Option<String>,
}

/// One line of the workspace's event log.
#[derive(Clone, Debug)]
pub struct GtEvent {
    pub timestamp: Option<String>,
    pub event_type: Option<String>,
    pub actor: Option<String>,
    pub target: Option<String>,
    pub detail: Option<String>,
    pub rig: Option<String>,
}

/// The status an agent is shown with, by this library's own rule (the
/// tools report no status of this kind): offline when its session does not
/// run, stuck when it reports the state `stuck`, active when it has work,
/// idle otherwise.
pub open spec fn agent_status_for(running: bool, has_work: bool, state: Option<Seq<char>>)
    -> AgentStatus {
    if !running {
        AgentStatus::Offline
    } else if state == Some("stuck"@) {
        AgentStatus::Stuck
    } else if has_work {
        AgentStatus::Active
    } else {
        AgentStatus::Idle
    }
}

/// The status an agent is shown with.
pub fn agent_status_of(running: bool, has_work: bool, state: Option<&str>) -> (r: AgentStatus)
    ensures
        r == agent_status_for(
            running,
            has_work,
            match state {
                Some(s) => Some(s@),
                None => None,
            },
        ),
{
    if !running {
        AgentStatus::Offline
    } else if match state {
        Some(s) => text_eq(s, "stuck"),
        None => false,
    } {
        AgentStatus::Stuck
    } else if has_work {
        AgentStatus::Active
    } else {
        AgentStatus::Idle
    }
}

/// The status a bead is shown with for the tracker's status word, by this
/// library's own rule: done for
/// `closed` or `done`, in progress for `in_progress` or `hooked`, blocked
/// for `blocked`, open otherwise.
pub open spec fn bead_status_for(status: Seq<char>) -> BeadStatus {
    if status == "closed"@ || status == "done"@ {
        BeadStatus::Done
    } else if status == "in_progress"@ || status == "hooked"@ {
        BeadStatus::InProgress
    } else if status == "blocked"@ {
        BeadStatus::Blocked
    } else {
        BeadStatus::Open
    }
}

/// The status a bead is shown with.
pub fn bead_status_of(status: &str) -> (r: BeadStatus)
    ensures
        r == bead_status_for(status@),
{
    if text_eq(status, "closed") || text_eq(status, "done") {
        BeadStatus::Done
    } else if text_eq(status, "in_progress") || text_eq(status, "hooked") {
        BeadStatus::InProgress
    } else if text_eq(status, "blocked") {
        BeadStatus::Blocked
    } else {
        BeadStatus::Open
    }
}

/// The status a convoy is shown with for its status word, by this
/// library's own rule: completed for
/// `closed` or `completed`, paused for `paused`, blocked for `blocked`,
/// active otherwise.
pub open spec fn convoy_status_for(status: Seq<char>) -> ConvoyStatus {
    if status == "closed"@ || status == "completed"@ {
        ConvoyStatus::Completed
    } else if status == "paused"@ {
        ConvoyStatus::Paused
    } else if status == "blocked"@ {
        ConvoyStatus::Blocked
    } else {
        ConvoyStatus::Active
    }
}

/// The status a convoy is shown with.
pub fn convoy_status_of(status: &str) -> (r: ConvoyStatus)
    ensures
        r == convoy_status_for(status@),
{
    if text_eq(status, "closed") || text_eq(status, "completed") {
        ConvoyStatus::Completed
    } else if text_eq(status, "paused") {
        ConvoyStatus::Paused
    } else if text_eq(status, "blocked") {
        ConvoyStatus::Blocked
    } else {
        ConvoyStatus::Active
    }
}

/// The result of a command: what it wrote to standard output when it
/// succeeded, what it wrote to standard error when it failed.
pub fn command_outcome(success: bool, stdout: String, stderr: String) -> (r: Result<
    String,
    String,
>)
    ensures
        success ==> (r matches Ok(m) && m@ == stdout@),
        !success ==> (r matches Err(m) && m@ == stderr@),
{
    if success {
        Ok(stdout)
    } else {
        Err(stderr)
    }
}

/// The last `limit` lines of the event log, in their order (all of them
/// where there are no more than `limit`).
pub open spec fn last_lines(content: Seq<char>, limit: usize) -> Seq<Seq<char>> {
    let l = lines(content);
    if l.len() <= limit {
        l
    } else {
        l.skip(l.len() - limit)
    }
}

/// The feed reads the newest lines: as many lines as the limit allows (all
/// of them when there are fewer), each the line that stands at the same
/// distance from the end of the log.
pub proof fn lemma_last_lines_are_the_newest(content: Seq<char>, limit: usize)
    ensures
        ({
            let l = lines(content);
            let r = last_lines(content, limit);
            &&& r.len() == (if l.len() <= limit { l.len() as int } else { limit as int })
            &&& forall|i: int| 0 <= i < r.len() ==> #[trigger] r[i] == l[l.len() - r.len() + i]
        }),
{
}

/// The lines of the event log that the feed reads: the last `limit`.
pub fn tail_lines(content: &str, limit: usize) -> (r: Vec<String>)
    ensures
        r.deep_view() == last_lines(content@, limit),
{
    let mut all = split_lines(content);
    let n = all.len();
    if n <= limit {
        all
    } else {
        let ghost dv = all.deep_view();
        let tail = all.split_off(n - limit);
        assert(tail.deep_view() =~= dv.skip(n - limit));
        tail
    }
}

/// How a logged event of the given type is marked in the feed, by this
/// library's own rule: `error`
/// as an error, `warning` as a warning, `done` as a success, anything else
/// as information.
pub open spec fn severity_for(event_type: Option<Seq<char>>) -> Severity {
    match event_type {
        Some(t) => if t == "error"@ {
            Severity::Error
        } else if t == "warning"@ {
            Severity::Warning
        } else if t == "done"@ {
            Severity::Success
        } else {
            Severity::Info
        },
        None => Severity::Info,
    }
}

/// The mark of a logged event in the feed.
pub fn severity_of(event_type: Option<&str>) -> (r: Severity)
    ensures
        r == severity_for(
            match event_type {
                Some(t) => Some(t@),
                None => None,
            },
        ),
{
    match event_type {
        Some(t) => if text_eq(t, "error") {
            Severity::Error
        } else if text_eq(t, "warning") {
            Severity::Warning
        } else if text_eq(t, "done") {
            Severity::Success
        } else {
            Severity::Info
        },
        None => Severity::Info,
    }
}

/// The rig that the workspace's own agents and beads are shown under.
pub open spec fn hq_rig_text() -> Seq<char> {
    "hq"@
}

/// The rig that the workspace's own agents and beads are shown under.
pub fn hq_rig() -> (r: &'static str)
    ensures
        r@ == hq_rig_text(),
{
    "hq"
}

/// The runtime an agent is shown with: its alias, else its agent
/// description, else nothing.
pub open spec fn runtime_text(alias: Option<String>, info: Option<String>) -> Seq<char> {
    match alias {
        Some(a) => a@,
        None => text_or(info, Seq::empty()),
    }
}

/// `a` is the dashboard's row for the agent `g` reported in `rig`: its
/// name, the rig, its runtime, its status by the rule above, its hooked bead;
/// the report carries neither uptime nor a count of finished beads, so both
/// show as 0.
pub open spec fn agent_row_of(a: Agent, g: GtAgent, rig: Seq<char>) -> bool {
    &&& a.name@ == g.name@
    &&& a.rig@ == rig
    &&& a.runtime@ == runtime_text(g.agent_alias, g.agent_info)
    &&& a.status == agent_status_for(g.running, g.has_work, opt_text(g.state))
    &&& a.current_bead == g.hook_bead
    &&& a.beads_completed == 0
    &&& a.uptime_secs == 0
}

/// `b` is the dashboard's row for the issue reported in `rig`; the tracker
/// does not tell which convoy holds it.
pub open spec fn bead_row_of(b: Bead, issue: BdIssue, rig: Seq<char>) -> bool {
    &&& b.id@ == issue.id@
    &&& b.title@ == issue.title@
    &&& b.rig@ == rig
    &&& b.status == bead_status_for(issue.status@)
    &&& b.assigned_to == issue.assignee
    &&& b.convoy_id is None
}

fn clone_text(o: &Option<String>) -> (r: Option<String>)
    ensures
        r == *o,
{
    match o {
        Some(s) => Some(s.clone()),
        None => None,
    }
}

/// The dashboard's row for an agent that `gt status` reports in `rig`.
pub fn dashboard_agent(g: &GtAgent, rig: &str) -> (a: Agent)
    ensures
        agent_row_of(a, *g, rig@),
{
    let status = agent_status_of(
        g.running,
        g.has_work,
        match &g.state {
            Some(s) => Some(s.as_str()),
            None => None,
        },
    );
    let runtime = match &g.agent_alias {
        Some(a) => a.clone(),
        None => match &g.agent_info {
            Some(i) => i.clone(),
            None => String::new(),
        },
    };
    Agent {
        name: g.name.clone(),
        rig: rig.to_owned(),
        runtime,
        status,
        current_bead: clone_text(&g.hook_bead),
        beads_completed: 0,
        uptime_secs: 0,
    }
}

/// The dashboard's row for an issue that `bd` reports in `rig`.
pub fn dashboard_bead(issue: &BdIssue, rig: &str) -> (b: Bead)
    ensures
        bead_row_of(b, *issue, rig@),
{
    let status = bead_status_of(issue.status.as_str());
    Bead {
        id: issue.id.clone(),
        title: issue.title.clone(),
        rig: rig.to_owned(),
        status,
        assigned_to: clone_text(&issue.assignee),
        convoy_id: None,
    }
}

/// Records grouped by rig, flattened: each record paired with its group's
/// rig name, group after group, in order.
pub open spec fn group_pairs<T>(groups: Seq<(String, Vec<T>)>) -> Seq<(Seq<char>, T)>
    decreases groups.len(),
{
    if groups.len() == 0 {
        Seq::empty()
    } else {
        let g = groups.last();
        group_pairs(groups.drop_last()) + g.1@.map_values(|x: T| (g.0@, x))
    }
}

/// The agents of a status report grouped by rig: the workspace's own under
/// `hq`, then each rig's under its name, in order.
pub fn town_agent_groups(status: TownStatus) -> (r: Vec<(String, Vec<GtAgent>)>)
    ensures
        r@.len() == status.rigs@.len() + 1,
        r@[0].0@ == hq_rig_text(),
        r@[0].1 == status.agents,
        forall|i: int|
            0 <= i < status.rigs@.len() ==> (#[trigger] r@[i + 1]).0 == status.rigs@[i].name
                && r@[i + 1].1 == status.rigs@[i].agents,
{
    let ghost rigs0 = status.rigs@;
    let total = status.rigs.len();
    let mut out: Vec<(String, Vec<GtAgent>)> = Vec::new();
    out.push((hq_rig().to_owned(), status.agents));
    let mut rest = status.rigs;
    let mut k: usize = 0;
    while rest.len() > 0
        invariant
            rest@ == rigs0.skip(k as int),
            k <= rigs0.len(),
            total == rigs0.len(),
            out@.len() == k + 1,
            out@[0].0@ == hq_rig_text(),
            out@[0].1 == status.agents,
            forall|i: int|
                0 <= i < k ==> (#[trigger] out@[i + 1]).0 == rigs0[i].name && out@[i + 1].1
                    == rigs0[i].agents,
        decreases rest@.len(),
    {
        let rig = rest.remove(0);
        assert(rig == rigs0[k as int]);
        assert(rest@ =~= rigs0.skip(k + 1));
        out.push((rig.name, rig.agents));
        k = k + 1;
    }
    out
}

/// The dashboard's rows for agents grouped by rig, group after group.
pub fn agent_rows(groups: &Vec<(String, Vec<GtAgent>)>) -> (r: Vec<Agent>)
    ensures
        r@.len() == group_pairs(groups@).len(),
        forall|i: int|
            0 <= i < r@.len() ==> agent_row_of(
                #[trigger] r@[i],
                group_pairs(groups@)[i].1,
                group_pairs(groups@)[i].0,
            ),
{
    let mut out: Vec<Agent> = Vec::new();
    let mut k: usize = 0;
    while k < groups.len()
        invariant
            k <= groups@.len(),
            out@.len() == group_pairs(groups@.take(k as int)).len(),
            forall|i: int|
                0 <= i < out@.len() ==> agent_row_of(
                    #[trigger] out@[i],
                    group_pairs(groups@.take(k as int))[i].1,
                    group_pairs(groups@.take(k as int))[i].0,
                ),
        decreases groups@.len() - k,
    {
        let group = &groups[k];
        let ghost before = group_pairs(groups@.take(k as int));
        let ghost next = group.1@.map_values(|x: GtAgent| (group.0@, x));
        proof {
            assert(groups@.take(k + 1).drop_last() =~= groups@.take(k as int));
            assert(groups@.take(k + 1).last() == *group);
            assert(group_pairs(groups@.take(k + 1)) == before + next);
        }
        let mut j: usize = 0;
        while j < group.1.len()
            invariant
                j <= group.1@.len(),
                next == group.1@.map_values(|x: GtAgent| (group.0@, x)),
                out@.len() == before.len() + j,
                forall|i: int|
                    0 <= i < out@.len() ==> agent_row_of(#[trigger] out@[i], (before + next)[i].1, (
                    before + next)[i].0),
            decreases group.1@.len() - j,
        {
            let row = dashboard_agent(&group.1[j], group.0.as_str());
            out.push(row);
            j = j + 1;
        }
        k = k + 1;
    }
    assert(groups@.take(groups@.len() as int) =~= groups@);
    out
}

/// The dashboard's rows for issues grouped by rig, group after group.
pub fn bead_rows(groups: &Vec<(String, Vec<BdIssue>)>) -> (r: Vec<Bead>)
    ensures
        r@.len() == group_pairs(groups@).len(),
        forall|i: int|
            0 <= i < r@.len() ==> bead_row_of(
                #[trigger] r@[i],
                group_pairs(groups@)[i].1,
                group_pairs(groups@)[i].0,
            ),
{
    let mut out: Vec<Bead> = Vec::new();
    let mut k: usize = 0;
    while k < groups.len()
        invariant
            k <= groups@.len(),
            out@.len() == group_pairs(groups@.take(k as int)).len(),
            forall|i: int|
                0 <= i < out@.len() ==> bead_row_of(
                    #[trigger] out@[i],
                    group_pairs(groups@.take(k as int))[i].1,
                    group_pairs(groups@.take(k as int))[i].0,
                ),
        decreases groups@.len() - k,
    {
        let group = &groups[k];
        let ghost before = group_pairs(groups@.take(k as int));
        let ghost next = group.1@.map_values(|x: BdIssue| (group.0@, x));
        proof {
            assert(groups@.take(k + 1).drop_last() =~= groups@.take(k as int));
            assert(groups@.take(k + 1).last() == *group);
            assert(group_pairs(groups@.take(k + 1)) == before + next);
        }
        let mut j: usize = 0;
        while j < group.1.len()
            invariant
                j <= group.1@.len(),
                next == group.1@.map_values(|x: BdIssue| (group.0@, x)),
                out@.len() == before.len() + j,
                forall|i: int|
                    0 <= i < out@.len() ==> bead_row_of(#[trigger] out@[i], (before + next)[i].1, (
                    before + next)[i].0),
            decreases group.1@.len() - j,
        {
            let row = dashboard_bead(&group.1[j], group.0.as_str());
            out.push(row);
            j = j + 1;
        }
        k = k + 1;
    }
    assert(groups@.take(groups@.len() as int) =~= groups@);
    out
}

/// The tracked beads of a convoy, none where it reports none.
pub open spec fn tracked_of(c: GtConvoy) -> Seq<ConvoyTracked> {
    match c.tracked_beads {
        Some(v) => v@,
        None => Seq::empty(),
    }
}

/// The workers named by the tracked beads, in order, skipping beads with
/// no worker.
pub open spec fn workers_of(s: Seq<ConvoyTracked>) -> Seq<Seq<char>>
    decreases s.len(),
{
    if s.len() == 0 {
        Seq::empty()
    } else {
        workers_of(s.drop_last()) + match s.last().worker {
            Some(w) => seq![w@],
            None => Seq::empty(),
        }
    }
}

/// The number of tracked beads whose status reads as in progress.
pub open spec fn in_progress_count(s: Seq<ConvoyTracked>) -> nat {
    s.filter(|t: ConvoyTracked| bead_status_for(t.status@) == BeadStatus::InProgress).len()
}

/// The dashboard's row for a convoy that `gt convoy list` reports: its
/// title as name, its workers as the assigned agents, and the tracked beads
/// in progress counted.
pub fn dashboard_convoy(c: GtConvoy) -> (r: Convoy)
    ensures
        r.id@ == c.id@,
        r.name@ == c.title@,
        r.status == convoy_status_for(c.status@),
        r.agents_assigned.deep_view() == workers_of(tracked_of(c)),
        r.in_progress_beads == in_progress_count(tracked_of(c)) as u32,
        r.completed_beads == c.completed,
        r.total_beads == c.total,
{
    let ghost beads = tracked_of(c);
    let status = convoy_status_of(c.status.as_str());
    let empty: Vec<ConvoyTracked> = Vec::new();
    let list = match &c.tracked_beads {
        Some(v) => v,
        None => &empty,
    };
    assert(list@ == beads);
    let n = list.len();
    let mut workers: Vec<String> = Vec::new();
    let mut in_progress: usize = 0;
    let mut i: usize = 0;
    while i < n
        invariant
            n == list@.len(),
            list@ == beads,
            i <= n,
            workers.deep_view() == workers_of(beads.take(i as int)),
            in_progress == in_progress_count(beads.take(i as int)),
            in_progress <= i,
        decreases n - i,
    {
        proof {
            reveal(Seq::filter);
            assert(beads.take(i + 1).drop_last() =~= beads.take(i as int));
            assert(beads.take(i + 1).last() == beads[i as int]);
        }
        let t = &list[i];
        if bead_status_of(t.status.as_str()) == BeadStatus::InProgress {
            in_progress += 1;
        }
        let ghost before = workers.deep_view();
        match &t.worker {
            Some(w) => {
                workers.push(w.clone());
                assert(workers.deep_view() =~= before + seq![w@]);
            },
            None => {
                assert(before + Seq::<Seq<char>>::empty() =~= before);
            },
        }
        i = i + 1;
    }
    assert(beads.take(n as int) =~= beads);
    Convoy {
        id: c.id,
        name: c.title,
        status,
        agents_assigned: workers,
        completed_beads: c.completed,
        in_progress_beads: in_progress as u32,
        total_beads: c.total,
    }
}

/// The feed's line for a logged event: its time, actor, type and detail
/// (each empty where the log leaves it out) and the mark its type earns.
pub fn feed_entry(e: GtEvent) -> (f: FeedEntry)
    ensures
        f.timestamp@ == text_or(e.timestamp, Seq::empty()),
        f.agent@ == text_or(e.actor, Seq::empty()),
        f.action@ == text_or(e.event_type, Seq::empty()),
        f.detail@ == text_or(e.detail, Seq::empty()),
        f.severity == severity_for(opt_text(e.event_type)),
{
    let severity = severity_of(
        match &e.event_type {
            Some(t) => Some(t.as_str()),
            None => None,
        },
    );
    FeedEntry {
        timestamp: match e.timestamp {
            Some(t) => t,
            None => String::new(),
        },
        agent: match e.actor {
            Some(a) => a,
            None => String::new(),
        },
        action: match e.event_type {
            Some(t) => t,
            None => String::new(),
        },
        detail: match e.detail {
            Some(d) => d,
            None => String::new(),
        },
        severity,
    }
}

/// The status words, over all inputs. An agent whose session does not run
/// is offline whatever else it reports; a running one is stuck exactly
/// when it reports the state `stuck`, else active exactly when it has
/// work, else idle. A bead is done exactly for `closed` and `done`, in
/// progress exactly for `in_progress` and `hooked`, blocked exactly for
/// `blocked`, and open for any other word. A convoy is completed exactly
/// for `closed` and `completed`, paused exactly for `paused`, blocked
/// exactly for `blocked`, and active for any other word. A feed event is
/// an error exactly for `error`, a warning exactly for `warning`, a
/// success exactly for `done`, and information otherwise or without a type.
pub proof fn lemma_status_words(running: bool, has_work: bool, state: Option<Seq<char>>, word: Seq<char>)
    ensures
        !running ==> agent_status_for(running, has_work, state) == AgentStatus::Offline,
        running ==> ((agent_status_for(running, has_work, state) == AgentStatus::Stuck) == (
        state == Some("stuck"@))),
        running && state != Some("stuck"@) ==> agent_status_for(running, has_work, state) == (
        if has_work {
            AgentStatus::Active
        } else {
            AgentStatus::Idle
        }),
        (bead_status_for(word) == BeadStatus::Done) == (word == "closed"@ || word == "done"@),
        (bead_status_for(word) == BeadStatus::InProgress) == (word == "in_progress"@ || word
            == "hooked"@),
        (bead_status_for(word) == BeadStatus::Blocked) == (word == "blocked"@),
        (convoy_status_for(word) == ConvoyStatus::Completed) == (word == "closed"@ || word
            == "completed"@),
        (convoy_status_for(word) == ConvoyStatus::Paused) == (word == "paused"@),
        (convoy_status_for(word) == ConvoyStatus::Blocked) == (word == "blocked"@),
        (severity_for(Some(word)) == Severity::Error) == (word == "error"@),
        (severity_for(Some(word)) == Severity::Warning) == (word == "warning"@),
        (severity_for(Some(word)) == Severity::Success) == (word == "done"@),
        severity_for(None) == Severity::Info,
{
    reveal_strlit("closed");
    reveal_strlit("done");
    reveal_strlit("in_progress");
    reveal_strlit("hooked");
    reveal_strlit("blocked");
    reveal_strlit("completed");
    reveal_strlit("paused");
    reveal_strlit("error");
    reveal_strlit("warning");
    assert("in_progress"@.len() != "closed"@.len() && "in_progress"@.len() != "done"@.len());
    assert("hooked"@[0] != "closed"@[0] && "hooked"@.len() != "done"@.len());
    assert("paused"@[0] != "closed"@[0] && "paused"@.len() != "completed"@.len());
    assert("warning"@.len() != "error"@.len());
    assert("done"@.len() != "error"@.len() && "done"@.len() != "warning"@.len());
    assert("blocked"@.len() != "closed"@.len() && "blocked"@.len() != "done"@.len());
    assert("blocked"@.len() != "in_progress"@.len() && "blocked"@.len() != "hooked"@.len());
    assert("blocked"@.len() != "completed"@.len() && "blocked"@.len() != "paused"@.len());
}

/// Each status shows its own word: the agent labels are `active`, `idle`,
/// `stuck`, `offline`; the bead labels `open`, `in_progress`, `done`,
/// `blocked`; the convoy labels `active`, `completed`, `paused`, `blocked`;
/// and no two statuses of a kind share a label.
pub proof fn lemma_labels(a1: AgentStatus, a2: AgentStatus, b1: BeadStatus, b2: BeadStatus, c1: ConvoyStatus, c2: ConvoyStatus)
    ensures
        AgentStatus::Active.label_text() == "active"@,
        AgentStatus::Idle.label_text() == "idle"@,
        AgentStatus::Stuck.label_text() == "stuck"@,
        AgentStatus::Offline.label_text() == "offline"@,
        BeadStatus::Open.label_text() == "open"@,
        BeadStatus::InProgress.label_text() == "in_progress"@,
        BeadStatus::Done.label_text() == "done"@,
        BeadStatus::Blocked.label_text() == "blocked"@,
        ConvoyStatus::Active.label_text() == "active"@,
        ConvoyStatus::Completed.label_text() == "completed"@,
        ConvoyStatus::Paused.label_text() == "paused"@,
        ConvoyStatus::Blocked.label_text() == "blocked"@,
        a1 != a2 ==> a1.label_text() != a2.label_text(),
        b1 != b2 ==> b1.label_text() != b2.label_text(),
        c1 != c2 ==> c1.label_text() != c2.label_text(),
{
    reveal_strlit("active");
    reveal_strlit("idle");
    reveal_strlit("stuck");
    reveal_strlit("offline");
    reveal_strlit("open");
    reveal_strlit("in_progress");
    reveal_strlit("done");
    reveal_strlit("blocked");
    reveal_strlit("completed");
    reveal_strlit("paused");
    if a1 != a2 {
        assert(a1.label_text()[0] != a2.label_text()[0] || a1.label_text().len()
            != a2.label_text().len());
    }
    if b1 != b2 {
        assert(b1.label_text()[0] != b2.label_text()[0] || b1.label_text().len()
            != b2.label_text().len());
    }
    if c1 != c2 {
        assert(c1.label_text()[0] != c2.label_text()[0]);
    }
}

} // verus!
