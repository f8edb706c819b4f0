use gastown_tui::gastown::{
    agent_rows, bead_rows, dashboard_agent, dashboard_bead, dashboard_convoy, feed_entry, hq_rig,
    town_agent_groups, BdIssue, ConvoyTracked, GtAgent, GtConvoy, GtEvent, GtRig, TownStatus,
};
use gastown_tui::schedule::{Clock, REFRESH_NANOS, TICK_NANOS};
use gastown_tui::api_client::{action_outcome, ActionResponse};
use gastown_tui::gastown::{
    agent_status_of, bead_status_of, command_outcome, convoy_status_of, severity_of, tail_lines,
    AgentStatus, BeadStatus, ConvoyStatus, Severity,
};

#[test]
fn labels() {
    assert_eq!(AgentStatus::Active.label(), "active");
    assert_eq!(AgentStatus::Offline.label(), "offline");
    assert_eq!(BeadStatus::InProgress.label(), "in_progress");
    assert_eq!(BeadStatus::Done.label(), "done");
    assert_eq!(ConvoyStatus::Completed.label(), "completed");
    assert_eq!(ConvoyStatus::Paused.label(), "paused");
}

#[test]
fn agent_status_rule() {
    assert_eq!(agent_status_of(false, true, Some("stuck")), AgentStatus::Offline);
    assert_eq!(agent_status_of(true, true, Some("stuck")), AgentStatus::Stuck);
    assert_eq!(agent_status_of(true, true, Some("working")), AgentStatus::Active);
    assert_eq!(agent_status_of(true, false, None), AgentStatus::Idle);
}

#[test]
fn bead_and_convoy_status_rule() {
    assert_eq!(bead_status_of("closed"), BeadStatus::Done);
    assert_eq!(bead_status_of("hooked"), BeadStatus::InProgress);
    assert_eq!(bead_status_of("blocked"), BeadStatus::Blocked);
    assert_eq!(bead_status_of("open"), BeadStatus::Open);
    assert_eq!(bead_status_of("whatever"), BeadStatus::Open);
    assert_eq!(convoy_status_of("closed"), ConvoyStatus::Completed);
    assert_eq!(convoy_status_of("paused"), ConvoyStatus::Paused);
    assert_eq!(convoy_status_of("blocked"), ConvoyStatus::Blocked);
    assert_eq!(convoy_status_of("open"), ConvoyStatus::Active);
}

#[test]
fn severities() {
    assert_eq!(severity_of(Some("error")), Severity::Error);
    assert_eq!(severity_of(Some("warning")), Severity::Warning);
    assert_eq!(severity_of(Some("done")), Severity::Success);
    assert_eq!(severity_of(Some("sling")), Severity::Info);
    assert_eq!(severity_of(None), Severity::Info);
}

#[test]
fn outcomes() {
    assert_eq!(command_outcome(true, "ok".to_string(), "bad".to_string()), Ok("ok".to_string()));
    assert_eq!(command_outcome(false, "ok".to_string(), "bad".to_string()), Err("bad".to_string()));
    let ok = ActionResponse { success: true, message: "created gt-9".to_string() };
    assert_eq!(action_outcome(ok), Ok("created gt-9".to_string()));
    let err = ActionResponse { success: false, message: "no such rig".to_string() };
    assert_eq!(action_outcome(err), Err("no such rig".to_string()));
}

#[test]
fn event_tail() {
    let log = "{\"a\":1}\n{\"a\":2}\r\n{\"a\":3}\n";
    assert_eq!(tail_lines(log, 2), vec!["{\"a\":2}".to_string(), "{\"a\":3}".to_string()]);
    assert_eq!(tail_lines(log, 10).len(), 3);
    assert_eq!(tail_lines(log, 0).len(), 0);
    assert_eq!(tail_lines("", 5).len(), 0);
}

#[test]
fn request_bodies() {
    let r = gastown_tui::api_client::bead_request("gastown", "Fix it");
    assert_eq!((r.rig.as_str(), r.title.as_str(), r.issue_type.as_str(), r.priority), ("gastown", "Fix it", "task", 2));
    let s = gastown_tui::api_client::spawn_request("beads", "bd-7");
    assert_eq!((s.rig.as_str(), s.bead_id.as_str()), ("beads", "bd-7"));
}


#[test]
fn schedule() {
    let mut c = Clock::new(0);
    assert_eq!(c.wait_time(0), TICK_NANOS);
    assert_eq!(c.wait_time(100_000_000), 150_000_000);
    assert_eq!(c.wait_time(300_000_000), 0);
    assert_eq!(c.step(249_999_999), (false, false));
    assert_eq!(c.step(250_000_000), (true, false));
    assert_eq!(c.last_tick, 250_000_000);
    assert_eq!(c.step(REFRESH_NANOS - 1), (true, false));
    assert_eq!(c.step(REFRESH_NANOS), (false, true));
    assert_eq!(c.last_refresh, REFRESH_NANOS);
}

#[test]
fn dashboard_records() {
    let g = GtAgent {
        name: "nux".to_string(),
        address: "beads/polecats/nux".to_string(),
        session: None,
        role: None,
        running: true,
        has_work: true,
        state: None,
        work_title: None,
        hook_bead: Some("bd-3".to_string()),
        unread_mail: None,
        agent_alias: None,
        agent_info: Some("codex".to_string()),
        acp: false,
    };
    let a = dashboard_agent(&g, "beads");
    assert_eq!((a.name.as_str(), a.rig.as_str(), a.runtime.as_str()), ("nux", "beads", "codex"));
    assert_eq!(a.status, AgentStatus::Active);
    assert_eq!(a.current_bead.as_deref(), Some("bd-3"));
    assert_eq!((a.beads_completed, a.uptime_secs), (0, 0));
    assert_eq!(hq_rig(), "hq");

    let issue = BdIssue {
        id: "gt-9".to_string(),
        title: "Ship".to_string(),
        description: None,
        status: "in_progress".to_string(),
        priority: 1,
        issue_type: "task".to_string(),
        assignee: Some("nux".to_string()),
        owner: None,
        created_at: None,
        updated_at: None,
        labels: None,
        dependency_count: None,
        dependent_count: None,
        comment_count: None,
    };
    let b = dashboard_bead(&issue, "gastown");
    assert_eq!(b.status, BeadStatus::InProgress);
    assert_eq!(b.assigned_to.as_deref(), Some("nux"));
    assert!(b.convoy_id.is_none());

    let t = |status: &str, worker: Option<&str>| ConvoyTracked {
        id: "x".to_string(),
        title: "x".to_string(),
        status: status.to_string(),
        assignee: None,
        worker: worker.map(|w| w.to_string()),
        worker_age: None,
        blocked: None,
    };
    let c = GtConvoy {
        id: "hq-cv-1".to_string(),
        title: "Auth".to_string(),
        status: "open".to_string(),
        created_at: None,
        tracked_beads: Some(vec![t("in_progress", Some("nux")), t("closed", None), t("hooked", Some("ace"))]),
        completed: 1,
        total: 3,
    };
    let cv = dashboard_convoy(c);
    assert_eq!(cv.name, "Auth");
    assert_eq!(cv.status, ConvoyStatus::Active);
    assert_eq!(cv.agents_assigned, vec!["nux".to_string(), "ace".to_string()]);
    assert_eq!((cv.completed_beads, cv.in_progress_beads, cv.total_beads), (1, 2, 3));

    let e = GtEvent {
        timestamp: Some("12:00".to_string()),
        event_type: Some("error".to_string()),
        actor: None,
        target: None,
        detail: Some("boom".to_string()),
        rig: None,
    };
    let f = feed_entry(e);
    assert_eq!((f.timestamp.as_str(), f.agent.as_str(), f.action.as_str(), f.detail.as_str()), ("12:00", "", "error", "boom"));
    assert_eq!(f.severity, Severity::Error);
}

fn agent(name: &str) -> GtAgent {
    GtAgent {
        name: name.to_string(),
        address: String::new(),
        session: None,
        role: None,
        running: true,
        has_work: false,
        state: None,
        work_title: None,
        hook_bead: None,
        unread_mail: None,
        agent_alias: Some("gemini".to_string()),
        agent_info: None,
        acp: false,
    }
}

fn rig(name: &str, agents: Vec<GtAgent>) -> GtRig {
    GtRig {
        name: name.to_string(),
        polecats: None,
        polecat_count: 0,
        crews: None,
        crew_count: 0,
        has_witness: false,
        has_refinery: false,
        hooks: vec![],
        agents,
        mq: None,
    }
}

#[test]
fn rows_grouped_by_rig() {
    let status = TownStatus {
        name: "town".to_string(),
        location: "/gt".to_string(),
        overseer: None,
        daemon: None,
        dolt: None,
        tmux: None,
        agents: vec![agent("mayor")],
        rigs: vec![rig("gastown", vec![agent("nux"), agent("slit")]), rig("beads", vec![]), rig("wyvern", vec![agent("ace")])],
        summary: None,
    };
    let rows = agent_rows(&town_agent_groups(status));
    let got: Vec<(&str, &str)> = rows.iter().map(|a| (a.name.as_str(), a.rig.as_str())).collect();
    assert_eq!(got, vec![("mayor", "hq"), ("nux", "gastown"), ("slit", "gastown"), ("ace", "wyvern")]);
    assert!(rows.iter().all(|a| a.status == AgentStatus::Idle && a.runtime == "gemini"));

    let issue = |id: &str| BdIssue {
        id: id.to_string(),
        title: "t".to_string(),
        description: None,
        status: "open".to_string(),
        priority: 0,
        issue_type: "task".to_string(),
        assignee: None,
        owner: None,
        created_at: None,
        updated_at: None,
        labels: None,
        dependency_count: None,
        dependent_count: None,
        comment_count: None,
    };
    let groups = vec![
        ("hq".to_string(), vec![issue("hq-1")]),
        ("gastown".to_string(), vec![issue("gt-1"), issue("gt-2")]),
    ];
    let beads = bead_rows(&groups);
    let got: Vec<(&str, &str)> = beads.iter().map(|b| (b.id.as_str(), b.rig.as_str())).collect();
    assert_eq!(got, vec![("hq-1", "hq"), ("gt-1", "gastown"), ("gt-2", "gastown")]);
}
