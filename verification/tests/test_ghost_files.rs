use git_ghosts::detect_ghost_files;
use std::time::{SystemTime, UNIX_EPOCH};

/// A unique path under /tmp that does not exist yet.
fn temp_repo_dir(label: &str) -> String {
    let nanos = SystemTime::now()
        .duration_since(UNIX_EPOCH)
        .unwrap()
        .as_nanos();
    format!("/tmp/gg-{}-{}", label, nanos)
}

/// Initialises a new, empty git repository.
fn init_repo(dir: &str) {
    git2::Repository::init(dir).unwrap();
}

#[test]
fn test_ghost_files_test_nonexistent_path_returns_err() {
    let path = temp_repo_dir("nonexistent"); // never created
    let result = detect_ghost_files(&path);
    assert!(result.is_err(), "expected Err for nonexistent path");
}

#[test]
fn test_empty_repo_returns_empty_vec() {
    let dir = temp_repo_dir("empty");
    init_repo(&dir);

    let ghosts = detect_ghost_files(&dir).unwrap();
    assert!(
        ghosts.is_empty(),
        "expected empty vec for repo with no commits"
    );
}
