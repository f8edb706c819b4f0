use gastown_tui::app::{
    tab_name, App, KeyCode, KeyOutcome, KeyPress, SpawnOrder, MOD_CONTROL, MOD_SHIFT, TAB_COUNT,
};
use gastown_tui::gastown::{Agent, AgentStatus, Bead, BeadStatus, Convoy, ConvoyStatus};
use gastown_tui::repos::RepoInfo;

fn agent(name: &str, rig: &str, runtime: &str, status: AgentStatus) -> Agent {
    Agent {
        name: name.to_string(),
        rig: rig.to_string(),
        runtime: runtime.to_string(),
        status,
        current_bead: None,
        beads_completed: 0,
        uptime_secs: 0,
    }
}

fn bead(id: &str, title: &str, status: BeadStatus) -> Bead {
    Bead {
        id: id.to_string(),
        title: title.to_string(),
        rig: "gastown".to_string(),
        status,
        assigned_to: None,
        convoy_id: None,
    }
}

fn convoy(id: &str, name: &str, status: ConvoyStatus) -> Convoy {
    Convoy {
        id: id.to_string(),
        name: name.to_string(),
        status,
        agents_assigned: vec![],
        completed_beads: 1,
        in_progress_beads: 1,
        total_beads: 4,
    }
}

fn repo(name: &str, path: &str) -> RepoInfo {
    RepoInfo {
        name: name.to_string(),
        path: path.to_string(),
        branch: "main".to_string(),
        dirty: false,
        ahead: 0,
        behind: 0,
        last_commit: "init".to_string(),
        remote_url: String::new(),
    }
}

fn key(code: KeyCode) -> KeyPress {
    KeyPress { code, modifiers: 0 }
}

fn sample() -> App {
    let mut app = App::new();
    app.refresh_all(
        true,
        false,
        vec![
            agent("Toast", "gastown", "anthropic", AgentStatus::Active),
            agent("nux", "beads", "gemini", AgentStatus::Idle),
            agent("furiosa", "gastown", "codex", AgentStatus::Stuck),
            agent("slit", "wyvern", "anthropic", AgentStatus::Offline),
            agent("ace", "wyvern", "cursor", AgentStatus::Active),
        ],
        vec![
            convoy("hq-cv-1", "Auth rewrite", ConvoyStatus::Active),
            convoy("hq-cv-2", "Docs", ConvoyStatus::Completed),
            convoy("hq-cv-3", "Perf", ConvoyStatus::Active),
        ],
        vec![
            bead("gt-1", "Fix login", BeadStatus::Done),
            bead("gt-2", "Add cache", BeadStatus::Open),
            bead("gt-3", "Refactor", BeadStatus::InProgress),
            bead("gt-4", "Deploy", BeadStatus::Blocked),
            bead("gt-5", "Cleanup", BeadStatus::Done),
        ],
        vec![],
        vec![repo("alpha", "/home/u/code/alpha"), repo("Beta", "/home/u/vibe/beta")],
    );
    app
}

#[test]
fn new_starts_empty() {
    let app = App::new();
    assert_eq!(app.tab, 0);
    assert_eq!(app.scroll, 0);
    assert!(app.agents.is_empty());
    assert!(!app.filter_active);
    assert!(app.filter_text.is_empty());
    assert!(!app.show_spawn_dialog);
    assert_eq!(app.tick, 0);
}

#[test]
fn refresh_counts_statuses() {
    let app = sample();
    assert!(app.gt_available);
    assert!(!app.bd_available);
    assert_eq!(app.agents_active, 2);
    assert_eq!(app.agents_idle, 1);
    assert_eq!(app.agents_stuck, 1);
    assert_eq!(app.agents_offline, 1);
    assert_eq!(
        app.agents_active + app.agents_idle + app.agents_stuck + app.agents_offline,
        app.agents.len()
    );
    assert_eq!(app.total_beads_done, 2);
    assert_eq!(app.total_beads_open, 1);
    assert_eq!(app.total_beads_progress, 1);
    assert_eq!(app.total_beads_blocked, 1);
    assert_eq!(app.beads_total(), 5);
}

#[test]
fn tabs_wrap_both_ways() {
    let mut app = App::new();
    app.prev_tab();
    assert_eq!(app.tab, TAB_COUNT - 1);
    app.next_tab();
    assert_eq!(app.tab, 0);
    for _ in 0..TAB_COUNT {
        app.next_tab();
    }
    assert_eq!(app.tab, 0);
    app.next_tab();
    app.prev_tab();
    assert_eq!(app.tab, 0);
}

#[test]
fn tab_change_resets_scroll() {
    let mut app = App::new();
    app.max_scroll = 10;
    app.scroll_down();
    app.scroll_down();
    assert_eq!(app.scroll, 2);
    app.next_tab();
    assert_eq!(app.scroll, 0);
    app.scroll_bottom();
    app.select_tab(3);
    assert_eq!((app.tab, app.scroll), (3, 0));
    app.scroll_bottom();
    app.select_tab(7);
    assert_eq!((app.tab, app.scroll), (3, 10));
}

#[test]
fn scrolling_stays_in_range() {
    let mut app = App::new();
    app.max_scroll = 2;
    app.scroll_up();
    assert_eq!(app.scroll, 0);
    app.scroll_down();
    app.scroll_down();
    app.scroll_down();
    assert_eq!(app.scroll, 2);
    app.scroll_up();
    assert_eq!(app.scroll, 1);
    app.scroll_top();
    assert_eq!(app.scroll, 0);
    app.scroll_bottom();
    assert_eq!(app.scroll, 2);
}

#[test]
fn filter_toggle_and_edit() {
    let mut app = App::new();
    app.toggle_filter();
    assert!(app.is_filtering());
    app.max_scroll = 5;
    app.scroll_bottom();
    app.filter_push('a');
    app.filter_push('b');
    assert_eq!(app.filter_text, "ab");
    assert_eq!(app.scroll, 0);
    app.filter_pop();
    assert_eq!(app.filter_text, "a");
    app.toggle_filter();
    assert!(!app.is_filtering());
    assert_eq!(app.filter_text, "a");
    app.toggle_filter();
    assert!(app.is_filtering());
    assert_eq!(app.filter_text, "a");
    app.filter_pop();
    app.filter_pop();
    assert_eq!(app.filter_text, "");
}

#[test]
fn closed_filter_keeps_filtering() {
    let mut app = sample();
    app.toggle_filter();
    for c in "gastown".chars() {
        app.filter_push(c);
    }
    app.toggle_filter();
    assert!(!app.filter_active);
    let names: Vec<&str> = app.filtered_agents().iter().map(|a| a.name.as_str()).collect();
    assert_eq!(names, vec!["Toast", "furiosa"]);
    app.toggle_filter();
    app.dismiss();
    assert_eq!(app.filtered_agents().len(), 5);
}

#[test]
fn longer_filter_only_narrows() {
    let mut app = sample();
    app.toggle_filter();
    app.filter_push('a');
    let wide: Vec<String> = app.filtered_agents().iter().map(|a| a.name.clone()).collect();
    app.filter_push('c');
    let narrow: Vec<String> = app.filtered_agents().iter().map(|a| a.name.clone()).collect();
    assert!(narrow.iter().all(|n| wide.contains(n)));
    assert_eq!(narrow, vec!["Toast".to_string(), "ace".to_string()]);
}

#[test]
fn dismiss_closes_dialog_before_filter() {
    let mut app = App::new();
    app.toggle_filter();
    app.filter_push('x');
    app.action_spawn();
    app.dismiss();
    assert!(!app.show_spawn_dialog);
    assert!(app.filter_active);
    assert_eq!(app.filter_text, "x");
    app.dismiss();
    assert!(!app.filter_active);
    assert_eq!(app.filter_text, "");
    app.dismiss();
    assert!(!app.filter_active && !app.show_spawn_dialog);
}

#[test]
fn spawn_dialog_fields() {
    let mut app = App::new();
    app.action_spawn();
    assert!(app.show_spawn_dialog);
    assert_eq!(app.spawn_field, 0);
    app.spawn_type_char('g');
    app.spawn_type_char('t');
    assert_eq!(app.spawn_rig, "gt");
    app.spawn_backspace();
    assert_eq!(app.spawn_rig, "g");
    app.spawn_next_field();
    assert_eq!(app.spawn_field, 1);
    app.spawn_type_char('z');
    assert_eq!(app.spawn_rig, "g");
    assert_eq!(app.spawn_task, "");
    assert_eq!(app.spawn_runtime(), "anthropic");
    app.spawn_prev_option();
    assert_eq!(app.spawn_runtime(), "copilot");
    app.spawn_next_option();
    app.spawn_next_option();
    assert_eq!(app.spawn_runtime(), "gemini");
    app.spawn_next_field();
    app.spawn_type_char('f');
    app.spawn_type_char('i');
    assert_eq!(app.spawn_task, "fi");
    app.spawn_next_option();
    assert_eq!(app.spawn_runtime(), "gemini");
    app.spawn_next_field();
    assert_eq!(app.spawn_field, 0);
    let order = app.confirm_spawn();
    assert!(!app.show_spawn_dialog);
    assert_eq!((order.rig.as_str(), order.runtime.as_str(), order.task.as_str()), ("g", "gemini", "fi"));
    app.action_spawn();
    assert_eq!(app.spawn_rig, "");
    assert_eq!(app.spawn_task, "");
    assert_eq!(app.spawn_runtime_idx, 0);
}

#[test]
fn runtime_cycle_and_names() {
    let mut app = App::new();
    app.action_spawn();
    app.spawn_next_field();
    let mut seen = Vec::new();
    for _ in 0..5 {
        seen.push(app.spawn_runtime().to_string());
        app.spawn_next_option();
    }
    assert_eq!(seen, vec!["anthropic", "gemini", "codex", "cursor", "copilot"]);
    assert_eq!(app.spawn_runtime_idx, 0);
    assert_eq!(tab_name(0), "Dashboard");
    assert_eq!(tab_name(4), "Repos");
}

#[test]
fn tick_wraps() {
    let mut app = App::new();
    app.on_tick();
    assert_eq!(app.tick, 1);
    app.tick = u64::MAX;
    app.on_tick();
    assert_eq!(app.tick, 0);
}

#[test]
fn enter_changes_nothing() {
    let mut app = sample();
    app.action_enter();
    assert_eq!(app.tab, 0);
    assert_eq!(app.agents.len(), 5);
}

#[test]
fn empty_filter_shows_everything() {
    let app = sample();
    assert_eq!(app.filtered_agents().len(), 5);
    assert_eq!(app.filtered_convoys().len(), 3);
    assert_eq!(app.filtered_beads().len(), 5);
    assert_eq!(app.filtered_repos().len(), 2);
}

#[test]
fn filter_is_case_insensitive_on_all_fields() {
    let mut app = sample();
    app.toggle_filter();
    for c in "TOAST".chars() {
        app.filter_push(c);
    }
    let names: Vec<&str> = app.filtered_agents().iter().map(|a| a.name.as_str()).collect();
    assert_eq!(names, vec!["Toast"]);
    app.dismiss();
    app.toggle_filter();
    for c in "wyv".chars() {
        app.filter_push(c);
    }
    let names: Vec<&str> = app.filtered_agents().iter().map(|a| a.name.as_str()).collect();
    assert_eq!(names, vec!["slit", "ace"]);
    app.dismiss();
    app.toggle_filter();
    for c in "Stuck".chars() {
        app.filter_push(c);
    }
    let names: Vec<&str> = app.filtered_agents().iter().map(|a| a.name.as_str()).collect();
    assert_eq!(names, vec!["furiosa"]);
}

#[test]
fn filters_on_other_lists() {
    let mut app = sample();
    app.toggle_filter();
    app.filter_push('c');
    app.filter_push('v');
    app.filter_push('-');
    app.filter_push('2');
    let ids: Vec<&str> = app.filtered_convoys().iter().map(|c| c.id.as_str()).collect();
    assert_eq!(ids, vec!["hq-cv-2"]);
    app.dismiss();
    app.toggle_filter();
    for c in "BLOCKED".chars() {
        app.filter_push(c);
    }
    let ids: Vec<&str> = app.filtered_beads().iter().map(|b| b.id.as_str()).collect();
    assert_eq!(ids, vec!["gt-4"]);
    app.dismiss();
    app.toggle_filter();
    for c in "VIBE".chars() {
        app.filter_push(c);
    }
    let names: Vec<&str> = app.filtered_repos().iter().map(|r| r.name.as_str()).collect();
    assert_eq!(names, vec!["Beta"]);
}

#[test]
fn active_convoys_only_active() {
    let app = sample();
    let ids: Vec<&str> = app.active_convoys().iter().map(|c| c.id.as_str()).collect();
    assert_eq!(ids, vec!["hq-cv-1", "hq-cv-3"]);
}

#[test]
fn keys_navigate() {
    let mut app = App::new();
    assert_eq!(app.handle_key(key(KeyCode::Char('3'))), KeyOutcome::Continue);
    assert_eq!(app.tab, 2);
    app.handle_key(key(KeyCode::Tab));
    assert_eq!(app.tab, 3);
    app.handle_key(KeyPress { code: KeyCode::BackTab, modifiers: MOD_SHIFT });
    assert_eq!(app.tab, 2);
    app.handle_key(key(KeyCode::BackTab));
    assert_eq!(app.tab, 2);
    assert_eq!(app.handle_key(key(KeyCode::Char('r'))), KeyOutcome::Refresh);
    assert_eq!(app.handle_key(key(KeyCode::Char('c'))), KeyOutcome::Continue);
    assert_eq!(
        app.handle_key(KeyPress { code: KeyCode::Char('c'), modifiers: MOD_CONTROL }),
        KeyOutcome::Quit
    );
    assert_eq!(app.handle_key(key(KeyCode::Char('q'))), KeyOutcome::Quit);
}

#[test]
fn keys_in_filter_line_type() {
    let mut app = App::new();
    app.handle_key(key(KeyCode::Char('/')));
    assert!(app.filter_active);
    assert_eq!(app.handle_key(key(KeyCode::Char('q'))), KeyOutcome::Continue);
    app.handle_key(key(KeyCode::Char('r')));
    assert_eq!(app.filter_text, "qr");
    app.handle_key(key(KeyCode::Backspace));
    assert_eq!(app.filter_text, "q");
    app.handle_key(key(KeyCode::Enter));
    assert!(!app.filter_active);
    assert_eq!(app.filter_text, "q");
    app.handle_key(key(KeyCode::Char('/')));
    app.handle_key(key(KeyCode::Esc));
    assert!(!app.filter_active);
    assert_eq!(app.filter_text, "");
    app.handle_key(key(KeyCode::Char('/')));
    assert_eq!(
        app.handle_key(KeyPress { code: KeyCode::Char('c'), modifiers: MOD_CONTROL }),
        KeyOutcome::Quit
    );
    assert_eq!(app.filter_text, "");
}

#[test]
fn keys_in_spawn_dialog_edit() {
    let mut app = App::new();
    app.handle_key(key(KeyCode::Char('s')));
    assert!(app.show_spawn_dialog);
    app.handle_key(key(KeyCode::Char('q')));
    assert_eq!(app.spawn_rig, "q");
    app.handle_key(key(KeyCode::Tab));
    app.handle_key(key(KeyCode::Down));
    assert_eq!(app.spawn_runtime(), "gemini");
    app.handle_key(key(KeyCode::Up));
    app.handle_key(key(KeyCode::Up));
    assert_eq!(app.spawn_runtime(), "copilot");
    app.handle_key(key(KeyCode::Esc));
    assert!(!app.show_spawn_dialog);
}

#[test]
fn spawn_dialog_asks_for_an_agent() {
    let mut app = App::new();
    app.handle_key(key(KeyCode::Char('s')));
    for c in "beads".chars() {
        app.handle_key(key(KeyCode::Char(c)));
    }
    app.handle_key(key(KeyCode::Tab));
    app.handle_key(key(KeyCode::Down));
    app.handle_key(key(KeyCode::Tab));
    for c in "fix login".chars() {
        app.handle_key(key(KeyCode::Char(c)));
    }
    assert_eq!(
        app.handle_key(KeyPress { code: KeyCode::Char('c'), modifiers: MOD_CONTROL }),
        KeyOutcome::Quit
    );
    assert!(app.show_spawn_dialog);
    let out = app.handle_key(key(KeyCode::Enter));
    assert_eq!(
        out,
        KeyOutcome::Spawn(SpawnOrder {
            rig: "beads".to_string(),
            runtime: "gemini".to_string(),
            task: "fix login".to_string(),
        })
    );
    assert!(!app.show_spawn_dialog);
    assert!(app.key_fits(key(KeyCode::Tab)));
    app.spawn_runtime_idx = 9;
    app.show_spawn_dialog = true;
    assert!(!app.key_fits(key(KeyCode::Enter)));
    assert!(app.key_fits(key(KeyCode::Esc)));
}

#[test]
fn demo_mode_without_gt() {
    let mut app = App::new();
    app.refresh_all(false, false, vec![], vec![], vec![], vec![], vec![]);
    assert!(!app.gt_available);
    assert_eq!(app.agents.len(), 40);
    let mut rigs: Vec<&str> = app.agents.iter().map(|a| a.rig.as_str()).collect();
    rigs.sort();
    rigs.dedup();
    assert_eq!(rigs.len(), 8);
    assert_eq!(app.beads.len(), 24);
    assert_eq!(app.convoys.len(), 4);
    assert_eq!(app.feed.len(), 6);
    assert_eq!(app.agents_active, 24);
    assert_eq!(app.agents_idle, 8);
    assert_eq!(app.agents_stuck, 4);
    assert_eq!(app.agents_offline, 4);
    assert_eq!(app.agents[0].name, "witness");
    assert_eq!(app.agents[0].rig, "gastown");
    assert_eq!(app.agents[0].current_bead.as_deref(), Some("gt-1"));
    assert_eq!(app.agents[39].rig, "relay");
    assert_eq!(app.convoys[3].id, "hq-cv-4");
    assert_eq!(app.feed[1].action, "done");
}

#[test]
fn real_records_with_gt() {
    let app = sample();
    assert!(app.gt_available);
    assert_eq!(app.agents.len(), 5);
}
