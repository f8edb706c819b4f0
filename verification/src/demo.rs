//! Sample records the dashboard shows when the workspace's `gt` tool is not
//! available: 40 agents across 8 rigs, with beads, convoys and a feed.

use vstd::prelude::*;
use crate::app::{runtime_name, runtime_title};
use crate::gastown::{
    severity_for, Agent, AgentStatus, Bead, BeadStatus, Convoy, ConvoyStatus, FeedEntry,
};
use crate::text::{decimal, push_decimal};

verus! {

/// The number of sample agents.
pub const DEMO_AGENT_COUNT: usize = 40;

/// The number of sample rigs.
pub const DEMO_RIG_COUNT: usize = 8;

/// The number of sample beads.
pub const DEMO_BEAD_COUNT: usize = 24;

/// The number of sample convoys.
pub const DEMO_CONVOY_COUNT: usize = 4;

/// The number of sample feed entries.
pub const DEMO_FEED_COUNT: usize = 6;

/// The name of sample rig `j`.
pub open spec fn demo_rig_title(j: int) -> Seq<char> {
    if j == 0 { "gastown"@ }
    else if j == 1 { "beads"@ }
    else if j == 2 { "wyvern"@ }
    else if j == 3 { "keeper"@ }
    else if j == 4 { "atlas"@ }
    else if j == 5 { "forge"@ }
    else if j == 6 { "harbor"@ }
    else { "relay"@ }
}

fn demo_rig(j: usize) -> (r: &'static str)
    ensures
        r@ == demo_rig_title(j as int),
{
    if j == 0 { "gastown" }
    else if j == 1 { "beads" }
    else if j == 2 { "wyvern" }
    else if j == 3 { "keeper" }
    else if j == 4 { "atlas" }
    else if j == 5 { "forge" }
    else if j == 6 { "harbor" }
    else { "relay" }
}

/// The name of the sample agent in slot `j` of each rig.
pub open spec fn demo_role_title(j: int) -> Seq<char> {
    if j == 0 { "witness"@ }
    else if j == 1 { "refinery"@ }
    else if j == 2 { "nux"@ }
    else if j == 3 { "furiosa"@ }
    else { "toast"@ }
}

fn demo_role(j: usize) -> (r: &'static str)
    ensures
        r@ == demo_role_title(j as int),
{
    if j == 0 { "witness" }
    else if j == 1 { "refinery" }
    else if j == 2 { "nux" }
    else if j == 3 { "furiosa" }
    else { "toast" }
}

/// The title of sample task `j`.
pub open spec fn demo_task_title(j: int) -> Seq<char> {
    if j == 0 { "Fix login redirect"@ }
    else if j == 1 { "Add response cache"@ }
    else if j == 2 { "Refactor merge queue"@ }
    else if j == 3 { "Write migration guide"@ }
    else if j == 4 { "Harden retry logic"@ }
    else { "Trim build times"@ }
}

fn demo_task(j: usize) -> (r: &'static str)
    ensures
        r@ == demo_task_title(j as int),
{
    if j == 0 { "Fix login redirect" }
    else if j == 1 { "Add response cache" }
    else if j == 2 { "Refactor merge queue" }
    else if j == 3 { "Write migration guide" }
    else if j == 4 { "Harden retry logic" }
    else { "Trim build times" }
}

/// The status of sample agent `i`: of every ten, six active, two idle, one
/// stuck, one offline.
pub open spec fn demo_agent_status(i: int) -> AgentStatus {
    let r = i % 10;
    if r < 6 {
        AgentStatus::Active
    } else if r < 8 {
        AgentStatus::Idle
    } else if r == 8 {
        AgentStatus::Stuck
    } else {
        AgentStatus::Offline
    }
}

/// The id of sample bead `i`: `gt-` and its number from 1.
pub open spec fn demo_bead_id(i: int) -> Seq<char> {
    "gt-"@ + decimal((i + 1) as nat)
}

/// The id of sample convoy `i`: `hq-cv-` and its number from 1.
pub open spec fn demo_convoy_id(i: int) -> Seq<char> {
    "hq-cv-"@ + decimal((i + 1) as nat)
}

/// `a` is sample agent `i`: slot `i / 8` of rig `i % 8`, on runtime
/// `i % 5`, working on bead `i` when active.
pub open spec fn demo_agent_row(a: Agent, i: int) -> bool {
    &&& a.name@ == demo_role_title(i / 8)
    &&& a.rig@ == demo_rig_title(i % 8)
    &&& a.runtime@ == runtime_title(i % 5)
    &&& a.status == demo_agent_status(i)
    &&& (a.status == AgentStatus::Active ==> (a.current_bead matches Some(b) && b@
        == demo_bead_id(i)))
    &&& (a.status != AgentStatus::Active ==> a.current_bead is None)
    &&& a.beads_completed == i % 7
    &&& a.uptime_secs == 600 * (i + 1)
}

/// The sample agents, in order.
pub open spec fn is_demo_agents(s: Seq<Agent>) -> bool {
    &&& s.len() == DEMO_AGENT_COUNT
    &&& forall|i: int| 0 <= i < s.len() ==> demo_agent_row(#[trigger] s[i], i)
}

fn text_with_number(prefix: &str, n: u64) -> (r: String)
    ensures
        r@ == prefix@ + decimal(n as nat),
{
    let mut s = prefix.to_owned();
    push_decimal(&mut s, n);
    s
}

/// The sample agents.
pub fn demo_agents() -> (r: Vec<Agent>)
    ensures
        is_demo_agents(r@),
{
    let mut out: Vec<Agent> = Vec::new();
    let mut i: usize = 0;
    while i < DEMO_AGENT_COUNT
        invariant
            i <= DEMO_AGENT_COUNT,
            out@.len() == i,
            forall|k: int| 0 <= k < i ==> demo_agent_row(#[trigger] out@[k], k),
        decreases DEMO_AGENT_COUNT - i,
    {
        let r = i % 10;
        let status = if r < 6 {
            AgentStatus::Active
        } else if r < 8 {
            AgentStatus::Idle
        } else if r == 8 {
            AgentStatus::Stuck
        } else {
            AgentStatus::Offline
        };
        let current_bead = if r < 6 {
            Some(text_with_number("gt-", (i + 1) as u64))
        } else {
            None
        };
        let agent = Agent {
            name: demo_role(i / 8).to_owned(),
            rig: demo_rig(i % 8).to_owned(),
            runtime: runtime_name(i % 5).to_owned(),
            status,
            current_bead,
            beads_completed: (i % 7) as u32,
            uptime_secs: 600 * (i as u64 + 1),
        };
        out.push(agent);
        i = i + 1;
    }
    out
}

/// The status of sample bead `i`: of every six, two done, two in progress,
/// one open, one blocked.
pub open spec fn demo_bead_status(i: int) -> BeadStatus {
    let r = i % 6;
    if r < 2 {
        BeadStatus::Done
    } else if r < 4 {
        BeadStatus::InProgress
    } else if r == 4 {
        BeadStatus::Open
    } else {
        BeadStatus::Blocked
    }
}

/// `b` is sample bead `i`: task `i % 6` in rig `i % 8`, in convoy `i % 4`,
/// assigned to slot `i % 5` while in progress.
pub open spec fn demo_bead_row(b: Bead, i: int) -> bool {
    &&& b.id@ == demo_bead_id(i)
    &&& b.title@ == demo_task_title(i % 6)
    &&& b.rig@ == demo_rig_title(i % 8)
    &&& b.status == demo_bead_status(i)
    &&& (b.status == BeadStatus::InProgress ==> (b.assigned_to matches Some(w) && w@
        == demo_role_title(i % 5)))
    &&& (b.status != BeadStatus::InProgress ==> b.assigned_to is None)
    &&& (b.convoy_id matches Some(c) && c@ == demo_convoy_id(i % 4))
}

/// The sample beads, in order.
pub open spec fn is_demo_beads(s: Seq<Bead>) -> bool {
    &&& s.len() == DEMO_BEAD_COUNT
    &&& forall|i: int| 0 <= i < s.len() ==> demo_bead_row(#[trigger] s[i], i)
}

/// The sample beads.
pub fn demo_beads() -> (r: Vec<Bead>)
    ensures
        is_demo_beads(r@),
{
    let mut out: Vec<Bead> = Vec::new();
    let mut i: usize = 0;
    while i < DEMO_BEAD_COUNT
        invariant
            i <= DEMO_BEAD_COUNT,
            out@.len() == i,
            forall|k: int| 0 <= k < i ==> demo_bead_row(#[trigger] out@[k], k),
        decreases DEMO_BEAD_COUNT - i,
    {
        let r = i % 6;
        let status = if r < 2 {
            BeadStatus::Done
        } else if r < 4 {
            BeadStatus::InProgress
        } else if r == 4 {
            BeadStatus::Open
        } else {
            BeadStatus::Blocked
        };
        let assigned_to = if r >= 2 && r < 4 {
            Some(demo_role(i % 5).to_owned())
        } else {
            None
        };
        let bead = Bead {
            id: text_with_number("gt-", (i + 1) as u64),
            title: demo_task(i % 6).to_owned(),
            rig: demo_rig(i % 8).to_owned(),
            status,
            assigned_to,
            convoy_id: Some(text_with_number("hq-cv-", (i % 4 + 1) as u64)),
        };
        out.push(bead);
        i = i + 1;
    }
    out
}

/// `c` is sample convoy `i`: task `i` as its name, eight beads of which
/// `2 * i` are done and two in progress; the last one paused, the others
/// active; its agents are the slots `i` and `i + 1`.
pub open spec fn demo_convoy_row(c: Convoy, i: int) -> bool {
    &&& c.id@ == demo_convoy_id(i)
    &&& c.name@ == demo_task_title(i)
    &&& c.status == (if i == 3 { ConvoyStatus::Paused } else { ConvoyStatus::Active })
    &&& c.agents_assigned@.len() == 2
    &&& c.agents_assigned@[0]@ == demo_role_title(i)
    &&& c.agents_assigned@[1]@ == demo_role_title(i + 1)
    &&& c.completed_beads == 2 * i
    &&& c.in_progress_beads == 2
    &&& c.total_beads == 8
}

/// The sample convoys, in order.
pub open spec fn is_demo_convoys(s: Seq<Convoy>) -> bool {
    &&& s.len() == DEMO_CONVOY_COUNT
    &&& forall|i: int| 0 <= i < s.len() ==> demo_convoy_row(#[trigger] s[i], i)
}

/// The sample convoys.
pub fn demo_convoys() -> (r: Vec<Convoy>)
    ensures
        is_demo_convoys(r@),
{
    let mut out: Vec<Convoy> = Vec::new();
    let mut i: usize = 0;
    while i < DEMO_CONVOY_COUNT
        invariant
            i <= DEMO_CONVOY_COUNT,
            out@.len() == i,
            forall|k: int| 0 <= k < i ==> demo_convoy_row(#[trigger] out@[k], k),
        decreases DEMO_CONVOY_COUNT - i,
    {
        let mut agents: Vec<String> = Vec::new();
        agents.push(demo_role(i).to_owned());
        agents.push(demo_role(i + 1).to_owned());
        let convoy = Convoy {
            id: text_with_number("hq-cv-", (i + 1) as u64),
            name: demo_task(i).to_owned(),
            status: if i == 3 { ConvoyStatus::Paused } else { ConvoyStatus::Active },
            agents_assigned: agents,
            completed_beads: 2 * (i as u32),
            in_progress_beads: 2,
            total_beads: 8,
        };
        out.push(convoy);
        i = i + 1;
    }
    out
}

/// The type of sample event `j`.
pub open spec fn demo_action_title(j: int) -> Seq<char> {
    if j == 0 { "sling"@ } else if j == 1 { "done"@ } else { "warning"@ }
}

fn demo_action(j: usize) -> (r: &'static str)
    ensures
        r@ == demo_action_title(j as int),
{
    if j == 0 { "sling" } else if j == 1 { "done" } else { "warning" }
}

/// `f` is sample feed entry `i`: at minute `i` past nine, by slot `i % 5`,
/// of type `i % 3`, about task `i`, marked as its type is.
pub open spec fn demo_feed_row(f: FeedEntry, i: int) -> bool {
    &&& f.timestamp@ == "09:0"@ + decimal(i as nat)
    &&& f.agent@ == demo_role_title(i % 5)
    &&& f.action@ == demo_action_title(i % 3)
    &&& f.detail@ == demo_task_title(i)
    &&& f.severity == severity_for(Some(demo_action_title(i % 3)))
}

/// The sample feed, in order.
pub open spec fn is_demo_feed(s: Seq<FeedEntry>) -> bool {
    &&& s.len() == DEMO_FEED_COUNT
    &&& forall|i: int| 0 <= i < s.len() ==> demo_feed_row(#[trigger] s[i], i)
}

/// The sample feed.
pub fn demo_feed() -> (r: Vec<FeedEntry>)
    ensures
        is_demo_feed(r@),
{
    let mut out: Vec<FeedEntry> = Vec::new();
    let mut i: usize = 0;
    while i < DEMO_FEED_COUNT
        invariant
            i <= DEMO_FEED_COUNT,
            out@.len() == i,
            forall|k: int| 0 <= k < i ==> demo_feed_row(#[trigger] out@[k], k),
        decreases DEMO_FEED_COUNT - i,
    {
        let action = demo_action(i % 3);
        let entry = FeedEntry {
            timestamp: text_with_number("09:0", i as u64),
            agent: demo_role(i % 5).to_owned(),
            action: action.to_owned(),
            detail: demo_task(i).to_owned(),
            severity: crate::gastown::severity_of(Some(action)),
        };
        out.push(entry);
        i = i + 1;
    }
    out
}

/// The sample agents span exactly eight rigs: agent `i` is in sample rig
/// `i % 8`, every sample rig has agents, and the eight rig names
/// differ.
pub proof fn lemma_demo_spans_eight_rigs(s: Seq<Agent>)
    requires
        is_demo_agents(s),
    ensures
        forall|i: int|
            0 <= i < s.len() ==> 0 <= i % 8 < DEMO_RIG_COUNT && (#[trigger] s[i]).rig@
                == demo_rig_title(i % 8),
        forall|j: int| 0 <= j < DEMO_RIG_COUNT ==> (#[trigger] s[j]).rig@ == demo_rig_title(j),
        forall|j1: int, j2: int|
            0 <= j1 < j2 < DEMO_RIG_COUNT ==> demo_rig_title(j1) != demo_rig_title(j2),
{
    reveal_strlit("gastown");
    reveal_strlit("beads");
    reveal_strlit("wyvern");
    reveal_strlit("keeper");
    reveal_strlit("atlas");
    reveal_strlit("forge");
    reveal_strlit("harbor");
    reveal_strlit("relay");
    assert forall|i: int| 0 <= i < s.len() implies 0 <= i % 8 < DEMO_RIG_COUNT && (
    #[trigger] s[i]).rig@ == demo_rig_title(i % 8) by {
        assert(demo_agent_row(s[i], i));
    }
    assert forall|j: int| 0 <= j < DEMO_RIG_COUNT implies (#[trigger] s[j]).rig@ == demo_rig_title(j) by {
        assert(demo_agent_row(s[j], j));
        assert(j % 8 == j);
    }
    assert forall|j1: int, j2: int| 0 <= j1 < j2 < DEMO_RIG_COUNT implies demo_rig_title(j1)
        != demo_rig_title(j2) by {
        assert(demo_rig_title(j1)[0] != demo_rig_title(j2)[0]);
    }
}

} // verus!
