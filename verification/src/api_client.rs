//! The records that the workspace's HTTP service answers with, and how an
//! answer to an action request is read.

use vstd::prelude::*;
use std::collections::HashMap;

verus! {

/// The answer to `GET /api/dashboard`.
#[derive(Clone, Debug)]
pub struct DashboardResponse {
    pub town_name: String,
    pub overseer: String,
    pub stats: DashboardStats,
    pub infrastructure: InfraStatus,
    pub rigs: Vec<RigSummary>,
    pub recent_beads: Vec<BeadSummary>,
    pub recent_events: Vec<EventSummary>,
}

/// The counters of the dashboard answer.
#[derive(Clone, Debug, Default)]
pub struct DashboardStats {
    pub rigs: u32,
    pub agents_running: usize,
    pub agents_total: usize,
    pub polecats: u32,
    pub active_hooks: u32,
    pub beads_total: usize,
    pub beads_in_progress: usize,
    pub beads_open: usize,
    pub unread_mail: u32,
    pub convoys_total: usize,
    pub convoys_active: usize,
}

/// Which background services run.
#[derive(Clone, Debug, Default)]
pub struct InfraStatus {
    pub daemon_running: bool,
    pub dolt_running: bool,
    pub dolt_port: Option<u16>,
    pub tmux_running: bool,
    pub tmux_sessions: u32,
    pub workspace: Option<String>,
}

/// One rig of the dashboard answer.
#[derive(Clone, Debug)]
pub struct RigSummary {
    pub name: String,
    pub polecats: u32,
    pub crews: u32,
    pub has_witness: bool,
    pub has_refinery: bool,
    pub hooks_active: usize,
    pub hooks_total: usize,
    pub mq_health: Option<String>,
}

/// One bead of an answer.
#[derive(Clone, Debug)]
pub struct BeadSummary {
    pub id: String,
    pub title: String,
    pub status: String,
    pub priority: i32,
    pub rig: String,
    pub assignee: Option<String>,
    pub issue_type: String,
}

/// One event of the dashboard answer.
#[derive(Clone, Debug)]
pub struct EventSummary {
    pub timestamp: Option<String>,
    pub event_type: Option<String>,
    pub actor: Option<String>,
    pub detail: Option<String>,
    pub rig: Option<String>,
}

/// The answer to `GET /api/agents`.
#[derive(Clone, Debug)]
pub struct AgentsResponse {
    pub agents: Vec<AgentInfo>,
    pub total: usize,
    pub running: usize,
    pub with_work: usize,
}

/// One agent of the agents answer.
#[derive(Clone, Debug)]
pub struct AgentInfo {
    pub name: String,
    pub address: String,
    pub role: Option<String>,
    pub state: Option<String>,
    pub running: bool,
    pub has_work: bool,
    pub work_title: Option<String>,
    pub hook_bead: Option<String>,
    pub unread_mail: u32,
    pub runtime: Option<String>,
}

/// One worker of a convoy.
#[derive(Clone, Debug)]
pub struct WorkerInfo {
    pub name: String,
    pub blocked: bool,
}

/// The answer to `GET /api/beads`.
#[derive(Clone, Debug)]
pub struct BeadsResponse {
    pub beads: Vec<BeadSummary>,
    pub total: usize,
    pub by_status: HashMap<String, usize>,
}

/// The answer to `GET /api/repos`.
#[derive(Clone, Debug)]
pub struct ReposResponse {
    pub repos: Vec<RepoSummary>,
    pub total: usize,
    pub dirty: usize,
}

/// One repository of the repos answer.
#[derive(Clone, Debug)]
pub struct RepoSummary {
    pub name: String,
    pub path: String,
    pub branch: String,
    pub dirty: bool,
    pub ahead: u32,
    pub behind: u32,
    pub last_commit: String,
}

/// The answer to an action request.
#[derive(Clone, Debug)]
pub struct ActionResponse {
    pub success: bool,
    pub message: String,
}

/// The body of `POST /api/beads`.
#[derive(Clone, Debug)]
pub struct CreateBeadRequest {
    pub rig: String,
    pub title: String,
    pub issue_type: String,
    pub priority: u8,
}

/// The body of `POST /api/spawn`.
#[derive(Clone, Debug)]
pub struct SpawnRequest {
    pub rig: String,
    pub bead_id: String,
}

/// An action answer as a result: its message, as success or as error,
/// according to its flag.
pub fn action_outcome(resp: ActionResponse) -> (r: Result<String, String>)
    ensures
        resp.success ==> (r matches Ok(m) && m@ == resp.message@),
        !resp.success ==> (r matches Err(m) && m@ == resp.message@),
{
    if resp.success {
        Ok(resp.message)
    } else {
        Err(resp.message)
    }
}

/// The request that files a new bead: a task of priority 2 in `rig`.
pub fn bead_request(rig: &str, title: &str) -> (r: CreateBeadRequest)
    ensures
        r.rig@ == rig@,
        r.title@ == title@,
        r.issue_type@ == "task"@,
        r.priority == 2,
{
    CreateBeadRequest {
        rig: rig.to_owned(),
        title: title.to_owned(),
        issue_type: "task".to_owned(),
        priority: 2,
    }
}

/// The request that puts a polecat to work on `bead_id` in `rig`.
pub fn spawn_request(rig: &str, bead_id: &str) -> (r: SpawnRequest)
    ensures
        r.rig@ == rig@,
        r.bead_id@ == bead_id@,
{
    SpawnRequest { rig: rig.to_owned(), bead_id: bead_id.to_owned() }
}

} // verus!
