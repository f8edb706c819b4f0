use gastown_tui::repos::{scan_reads, scan_root, sub_depth, SCAN_DEPTH, SCAN_ROOT_COUNT};
use gastown_tui::repos::{classify_entry, git_ahead_behind, repo_info, sort_by_name, sorts_after, EntryKind, RepoInfo};

fn repo(name: &str) -> RepoInfo {
    RepoInfo {
        name: name.to_string(),
        path: format!("/p/{name}"),
        branch: "main".to_string(),
        dirty: false,
        ahead: 0,
        behind: 0,
        last_commit: String::new(),
        remote_url: String::new(),
    }
}

#[test]
fn ahead_behind_counts() {
    assert_eq!(git_ahead_behind(Some("3\t5".to_string())), (3, 5));
    assert_eq!(git_ahead_behind(Some("0 12".to_string())), (0, 12));
    assert_eq!(git_ahead_behind(Some("x 4".to_string())), (0, 4));
    assert_eq!(git_ahead_behind(Some("1 2 3".to_string())), (0, 0));
    assert_eq!(git_ahead_behind(Some("7".to_string())), (0, 0));
    assert_eq!(git_ahead_behind(Some(String::new())), (0, 0));
    assert_eq!(git_ahead_behind(None), (0, 0));
}

#[test]
fn repo_record_defaults() {
    let info = repo_info(Some("alpha".to_string()), "/c/alpha".to_string(), None, None, None, None, None)
        .unwrap();
    assert_eq!(info.name, "alpha");
    assert_eq!(info.path, "/c/alpha");
    assert_eq!(info.branch, "unknown");
    assert!(!info.dirty);
    assert_eq!((info.ahead, info.behind), (0, 0));
    assert_eq!(info.last_commit, "no commits");
    assert_eq!(info.remote_url, "");
}

#[test]
fn repo_record_from_outputs() {
    let info = repo_info(
        Some("beta".to_string()),
        "/c/beta".to_string(),
        Some("feature/x".to_string()),
        Some(" M src/lib.rs".to_string()),
        Some("2\t0".to_string()),
        Some("Fix the thing".to_string()),
        Some("git@example.com:beta.git".to_string()),
    )
    .unwrap();
    assert_eq!(info.branch, "feature/x");
    assert!(info.dirty);
    assert_eq!((info.ahead, info.behind), (2, 0));
    assert_eq!(info.last_commit, "Fix the thing");
    assert_eq!(info.remote_url, "git@example.com:beta.git");
    let clean = repo_info(Some("c".to_string()), "/c".to_string(), None, Some(String::new()), None, None, None)
        .unwrap();
    assert!(!clean.dirty);
}

#[test]
fn no_name_no_record() {
    assert!(repo_info(None, "/".to_string(), None, None, None, None, None).is_none());
}

#[test]
fn name_order_like_string() {
    for (a, b) in [("a", "b"), ("b", "a"), ("ab", "a"), ("a", "ab"), ("Z", "a"), ("é", "z"), ("x", "x")] {
        assert_eq!(sorts_after(a, b), a.to_string() > b.to_string());
    }
}

#[test]
fn sort_is_stable_and_ordered() {
    let mut input = vec![repo("delta"), repo("Alpha"), repo("charlie"), repo("bravo"), repo("charlie")];
    input[2].path = "first".to_string();
    input[4].path = "second".to_string();
    let out = sort_by_name(input);
    let names: Vec<&str> = out.iter().map(|r| r.name.as_str()).collect();
    assert_eq!(names, vec!["Alpha", "bravo", "charlie", "charlie", "delta"]);
    assert_eq!(out[2].path, "first");
    assert_eq!(out[3].path, "second");
}

#[test]
fn scan_rule() {
    assert_eq!(classify_entry(false, Some("README"), false), EntryKind::Skip);
    assert_eq!(classify_entry(true, Some(".cache"), true), EntryKind::Skip);
    assert_eq!(classify_entry(true, Some("proj"), true), EntryKind::Repository);
    assert_eq!(classify_entry(true, Some("group"), false), EntryKind::Directory);
    assert_eq!(classify_entry(true, None, false), EntryKind::Directory);
}

#[test]
fn scan_roots_and_depth() {
    let roots: Vec<&str> = (0..SCAN_ROOT_COUNT).map(scan_root).collect();
    assert_eq!(roots, vec!["vibe", "code", "fm", "solo", "flock"]);
    assert_eq!(SCAN_DEPTH, 2);
    assert!(scan_reads(SCAN_DEPTH));
    assert!(scan_reads(sub_depth(SCAN_DEPTH)));
    assert!(!scan_reads(sub_depth(sub_depth(SCAN_DEPTH))));
}
