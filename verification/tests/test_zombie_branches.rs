use git_ghosts::detect_zombie_branches;
use std::time::{SystemTime, UNIX_EPOCH};

fn temp_repo_dir(label: &str) -> String {
    let nanos = SystemTime::now()
        .duration_since(UNIX_EPOCH)
        .unwrap()
        .as_nanos();
    format!("/tmp/gg-zb-{}-{}", label, nanos)
}

fn init_repo(dir: &str) {
    git2::Repository::init(dir).unwrap();
}

#[test]
fn test_zero_threshold_returns_err() {
    let dir = temp_repo_dir("zerothresh");
    init_repo(&dir);

    let result = detect_zombie_branches(&dir, Some(0));
    assert!(result.is_err(), "expected Err for threshold_days=0");
    let msg = result.unwrap_err().message();
    assert!(!msg.is_empty(), "error message should be non-empty");
}

#[test]
fn test_negative_threshold_returns_err() {
    let dir = temp_repo_dir("negthresh");
    init_repo(&dir);

    let result = detect_zombie_branches(&dir, Some(-5));
    assert!(result.is_err(), "expected Err for threshold_days=-5");
}

#[test]
fn test_i64_min_threshold_returns_err() {
    let dir = temp_repo_dir("minthresh");
    init_repo(&dir);

    let result = detect_zombie_branches(&dir, Some(i64::MIN));
    assert!(result.is_err(), "expected Err for threshold_days=i64::MIN");
    let msg = result.unwrap_err().message();
    assert!(!msg.is_empty(), "error message should be non-empty");
}

#[test]
fn test_zombie_branches_test_nonexistent_path_returns_err() {
    let path = temp_repo_dir("nonexistent"); // never created
    let result = detect_zombie_branches(&path, None);
    assert!(result.is_err(), "expected Err for nonexistent path");
    let msg = result.unwrap_err().message();
    assert!(!msg.is_empty(), "error message should be non-empty");
}

#[test]
fn test_empty_repo_returns_ok_empty() {
    let dir = temp_repo_dir("emptyrepo");
    init_repo(&dir);
    // No commits — no branches exist.
    let result = detect_zombie_branches(&dir, None);
    assert!(
        result.is_ok(),
        "empty repo should return Ok, got: {:?}",
        result.err()
    );
    assert!(
        result.unwrap().is_empty(),
        "empty repo should return empty vec"
    );
}
