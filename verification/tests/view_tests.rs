use gastown_tui::app::App;
use gastown_tui::gastown::{Convoy, ConvoyStatus};
use gastown_tui::view::{
    clip_text, dirty_label, display_path, ends_grid_row, field_text, format_duration,
    remaining_beads, spawn_dialog_rect, spinner_frame, sync_label,
};

#[test]
fn durations() {
    assert_eq!(format_duration(0), "0m");
    assert_eq!(format_duration(59), "0m");
    assert_eq!(format_duration(125), "2m");
    assert_eq!(format_duration(3600), "1h 0m");
    assert_eq!(format_duration(7384), "2h 3m");
}

#[test]
fn sync_markers() {
    assert_eq!(sync_label(2, 3), "↑2↓3");
    assert_eq!(sync_label(4, 0), "↑4");
    assert_eq!(sync_label(0, 1), "↓1");
    assert_eq!(sync_label(0, 0), "synced");
    assert_eq!(dirty_label(true), "modified");
    assert_eq!(dirty_label(false), "clean");
}

#[test]
fn clipping() {
    assert_eq!(clip_text("short name", 18, 17), "short name");
    assert_eq!(clip_text("exactly-eighteen!!", 18, 17), "exactly-eighteen!!");
    assert_eq!(clip_text("a convoy with a long name", 18, 17), "a convoy with a l…");
    let long = "x".repeat(50);
    assert_eq!(clip_text(&long, 40, 39), format!("{}…", "x".repeat(39)));
}

#[test]
fn home_becomes_tilde() {
    assert_eq!(display_path("/home/u/code/app", "/home/u"), "~/code/app");
    assert_eq!(display_path("/srv/app", "/home/u"), "/srv/app");
}

#[test]
fn dialog_placement() {
    assert_eq!(spawn_dialog_rect(100, 40), (25, 13, 50, 14));
    assert_eq!(spawn_dialog_rect(30, 10), (2, 2, 26, 6));
    assert_eq!(spawn_dialog_rect(3, 2), (1, 1, 0, 0));
}

#[test]
fn field_placeholders() {
    assert_eq!(field_text("", true, "type rig name…"), "type rig name…");
    assert_eq!(field_text("", false, "type rig name…"), "");
    assert_eq!(field_text("gastown", true, "type rig name…"), "gastown");
}

#[test]
fn spinner_frames() {
    let frames: Vec<char> = (0..8).map(spinner_frame).collect();
    assert_eq!(frames, vec!['◐', '◐', '◓', '◓', '◑', '◑', '◒', '◒']);
}

#[test]
fn grid_rows() {
    assert!(ends_grid_row(4, 10, 10));
    assert!(!ends_grid_row(3, 10, 10));
    assert!(ends_grid_row(9, 10, 10));
    assert!(ends_grid_row(0, 3, 1));
    assert!(ends_grid_row(2, 3, 0));
}

#[test]
fn convoy_remaining() {
    let c = Convoy {
        id: "c".to_string(),
        name: "n".to_string(),
        status: ConvoyStatus::Active,
        agents_assigned: vec![],
        completed_beads: 3,
        in_progress_beads: 2,
        total_beads: 9,
    };
    assert_eq!(remaining_beads(&c), 4);
}

#[test]
fn trouble_flag() {
    let mut app = App::new();
    assert!(!app.has_trouble());
    app.total_beads_blocked = 1;
    assert!(app.has_trouble());
}
