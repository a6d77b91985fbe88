use git2::{Commit, Oid, Repository, Signature, Time};
use git_ghosts::cli::{run_scan, scan_ghosts_and_zombies, scan_orphans};
use git_ghosts::{detect_ghost_files, detect_orphan_commits, detect_zombie_branches};
use std::time::{SystemTime, UNIX_EPOCH};

fn temp_repo_dir(label: &str) -> String {
    let nanos = SystemTime::now()
        .duration_since(UNIX_EPOCH)
        .unwrap()
        .as_nanos();
    format!("/tmp/gg-scan-{}-{}", label, nanos)
}

fn now_secs() -> i64 {
    SystemTime::now().duration_since(UNIX_EPOCH).unwrap().as_secs() as i64
}

/// Commits a flat tree holding `files` at time `time`, with the given
/// parents, moving `reference` to the new commit when one is given.
fn commit_files(
    repo: &Repository,
    files: &[(&str, &str)],
    time: i64,
    parents: &[&Commit],
    reference: Option<&str>,
    message: &str,
) -> Oid {
    let mut builder = repo.treebuilder(None).unwrap();
    for (name, content) in files {
        let blob = repo.blob(content.as_bytes()).unwrap();
        builder.insert(name, blob, 0o100644).unwrap();
    }
    let tree = repo.find_tree(builder.write().unwrap()).unwrap();
    let sig = Signature::new("TestUser", "test@example.com", &Time::new(time, 0)).unwrap();
    repo.commit(reference, &sig, &sig, message, &tree, parents).unwrap()
}

#[test]
fn ghost_file_reported_once_at_its_latest_deletion() {
    let dir = temp_repo_dir("ghosts");
    let repo = Repository::init(&dir).unwrap();
    let t = 1_600_000_000;
    let c1 = commit_files(&repo, &[("ghost.txt", "Hello ghost"), ("keep.txt", "Hello keep")], t, &[], Some("HEAD"), "add files");
    let c1 = repo.find_commit(c1).unwrap();
    let c2 = commit_files(&repo, &[("keep.txt", "Hello keep")], t + 10, &[&c1], Some("HEAD"), "delete ghost.txt");
    let c2c = repo.find_commit(c2).unwrap();
    let c3 = commit_files(&repo, &[("ghost.txt", "version two longer"), ("keep.txt", "Hello keep")], t + 20, &[&c2c], Some("HEAD"), "re-add");
    let c3c = repo.find_commit(c3).unwrap();
    let c4 = commit_files(&repo, &[("keep.txt", "Hello keep")], t + 30, &[&c3c], Some("HEAD"), "delete again");

    let ghosts = detect_ghost_files(&dir).unwrap();
    assert_eq!(ghosts.len(), 1, "expected exactly one ghost file: {:?}", ghosts);
    assert_eq!(ghosts[0].file_path, "ghost.txt");
    assert_eq!(ghosts[0].deletion_commit_hash, c4.to_string());
    assert_eq!(ghosts[0].author, "TestUser");
    assert_eq!(ghosts[0].timestamp, t + 30);
    assert_eq!(ghosts[0].original_file_size_bytes, "version two longer".len() as u64);
}

#[test]
fn tracked_file_is_not_a_ghost() {
    let dir = temp_repo_dir("retrack");
    let repo = Repository::init(&dir).unwrap();
    let t = 1_600_000_000;
    let c1 = commit_files(&repo, &[("phoenix.txt", "born")], t, &[], Some("HEAD"), "add");
    let c1 = repo.find_commit(c1).unwrap();
    let c2 = commit_files(&repo, &[("other.txt", "x")], t + 1, &[&c1], Some("HEAD"), "delete");
    let c2 = repo.find_commit(c2).unwrap();
    commit_files(&repo, &[("other.txt", "x"), ("phoenix.txt", "reborn")], t + 2, &[&c2], Some("HEAD"), "re-add");

    let ghosts = detect_ghost_files(&dir).unwrap();
    assert!(ghosts.is_empty(), "currently tracked file must not appear: {:?}", ghosts);
}

#[test]
fn stale_branch_is_a_zombie_fresh_one_is_not() {
    let dir = temp_repo_dir("zombies");
    let repo = Repository::init(&dir).unwrap();
    let old = commit_files(&repo, &[("a.txt", "a")], 1_577_836_800, &[], Some("refs/heads/old-feature"), "old work");
    let old = repo.find_commit(old).unwrap();
    let fresh = commit_files(&repo, &[("b.txt", "b")], now_secs() - 3600, &[&old], Some("refs/heads/fresh"), "fresh work");

    let zombies = detect_zombie_branches(&dir, None).unwrap();
    let names: Vec<&str> = zombies.iter().map(|z| z.branch_name.as_str()).collect();
    assert_eq!(names, vec!["old-feature"]);
    assert_eq!(zombies[0].last_commit_hash, old.id().to_string());
    assert_eq!(zombies[0].last_commit_author, "TestUser");
    assert_eq!(zombies[0].last_commit_timestamp, 1_577_836_800);
    assert!(zombies[0].age_days > 365);
    assert_ne!(fresh.to_string(), zombies[0].last_commit_hash);

    // A threshold no branch can reach.
    assert!(detect_zombie_branches(&dir, Some(i64::MAX)).unwrap().is_empty());
}

#[test]
fn unreachable_commit_listed_by_fsck_is_an_orphan() {
    let dir = temp_repo_dir("orphans");
    let repo = Repository::init(&dir).unwrap();
    let base = commit_files(&repo, &[("a.txt", "a")], 1_650_000_000, &[], Some("HEAD"), "initial commit");
    let base_commit = repo.find_commit(base).unwrap();
    let stray = commit_files(&repo, &[("b.txt", "b")], 1_650_000_100, &[&base_commit], None, "orphan message\n\nbody");
    let missing = "1".repeat(40);
    let report = format!(
        "Checking object directories\nunreachable commit {}\nunreachable commit {}\nunreachable commit {}\n\nunreachable commit {}\n",
        stray.to_string().to_uppercase(),
        missing,
        stray,
        stray
    );

    let orphans = detect_orphan_commits(&dir, Ok(report)).unwrap();
    assert_eq!(orphans.len(), 1, "got {:?}", orphans);
    assert_eq!(orphans[0].commit_hash, stray.to_string());
    assert_eq!(orphans[0].author, "TestUser");
    assert_eq!(orphans[0].timestamp, 1_650_000_100);
    assert_eq!(orphans[0].message_summary, "orphan message");

    let failed = detect_orphan_commits(&dir, Err(std::io::Error::new(std::io::ErrorKind::NotFound, "no git")));
    assert!(failed.is_err());
}

#[test]
fn scan_refuses_zero_threshold_and_non_repositories() {
    let dir = temp_repo_dir("scan");
    let repo = Repository::init(&dir).unwrap();
    commit_files(&repo, &[("a.txt", "a")], 1_600_000_000, &[], Some("HEAD"), "init");

    let err = run_scan(&dir, Some(0), Ok(String::new())).unwrap_err();
    assert_eq!(err, "threshold must be greater than 0; a value of 0 is not meaningful");

    let results = run_scan(&dir, Some(1), Ok(String::new())).unwrap();
    assert!(results.ghost_files.is_empty());
    assert!(results.orphan_commits.is_empty());
    assert_eq!(results.zombie_branches.len(), 1);

    let missing = temp_repo_dir("missing");
    let err = run_scan(&missing, None, Ok(String::new())).unwrap_err();
    assert!(
        err.starts_with(&format!("'{}' is not a valid git repository: ", missing)),
        "{err}"
    );
}

#[test]
fn zero_byte_file_deletion_is_reported_with_size_zero() {
    let dir = temp_repo_dir("zerobyte");
    let repo = Repository::init(&dir).unwrap();
    let t = 1_600_000_000;
    let c1 = commit_files(&repo, &[("empty.txt", ""), ("keep.txt", "k")], t, &[], Some("HEAD"), "add empty file");
    let c1 = repo.find_commit(c1).unwrap();
    let c2 = commit_files(&repo, &[("keep.txt", "k")], t + 5, &[&c1], Some("HEAD"), "delete empty file");

    let ghosts = detect_ghost_files(&dir).unwrap();
    assert_eq!(ghosts.len(), 1, "{:?}", ghosts);
    assert_eq!(ghosts[0].file_path, "empty.txt");
    assert_eq!(ghosts[0].original_file_size_bytes, 0);
    assert_eq!(ghosts[0].deletion_commit_hash, c2.to_string());
    assert_eq!(ghosts[0].deletion_commit_hash.len(), 40);
}

#[test]
fn several_unreachable_commits_are_all_orphans() {
    let dir = temp_repo_dir("orphans-many");
    let repo = Repository::init(&dir).unwrap();
    let base = commit_files(&repo, &[("a.txt", "a")], 1_650_000_000, &[], Some("HEAD"), "initial commit");
    let base_commit = repo.find_commit(base).unwrap();
    let first = commit_files(&repo, &[("b.txt", "b")], 1_650_000_100, &[&base_commit], None, "first stray");
    let second = commit_files(&repo, &[("c.txt", "c")], 1_650_000_200, &[&base_commit], None, "second stray");
    let report = format!("unreachable commit {}\n\nunreachable commit {}\n", first, second);

    let orphans = detect_orphan_commits(&dir, Ok(report)).unwrap();
    let hashes: Vec<String> = orphans.iter().map(|o| o.commit_hash.clone()).collect();
    assert_eq!(hashes, vec![first.to_string(), second.to_string()]);
    assert_eq!(orphans[0].message_summary, "first stray");
    assert_eq!(orphans[1].message_summary, "second stray");
}

#[test]
fn scan_in_two_steps_gathers_all_findings() {
    let dir = temp_repo_dir("two-steps");
    let repo = Repository::init(&dir).unwrap();
    let t = 1_600_000_000;
    let c1 = commit_files(&repo, &[("gone.txt", "bye"), ("keep.txt", "k")], t, &[], Some("HEAD"), "add");
    let c1 = repo.find_commit(c1).unwrap();
    let c2 = commit_files(&repo, &[("keep.txt", "k")], t + 1, &[&c1], Some("HEAD"), "delete");
    let c2c = repo.find_commit(c2).unwrap();
    let stray = commit_files(&repo, &[("x.txt", "x")], t + 2, &[&c2c], None, "stray");

    let found = scan_ghosts_and_zombies(&dir, Some(1)).unwrap();
    assert_eq!(found.ghost_files.len(), 1);
    assert_eq!(found.ghost_files[0].file_path, "gone.txt");
    assert_eq!(found.ghost_files[0].original_file_size_bytes, 3);
    let results = scan_orphans(&dir, found, Ok(format!("unreachable commit {}\n", stray))).unwrap();
    assert_eq!(results.ghost_files[0].deletion_commit_hash, c2.to_string());
    assert_eq!(results.zombie_branches.len(), 1);
    assert_eq!(results.orphan_commits.len(), 1);
    assert_eq!(results.orphan_commits[0].commit_hash, stray.to_string());

    let found = scan_ghosts_and_zombies(&dir, None).unwrap();
    let err = scan_orphans(&dir, found, Err(std::io::Error::new(std::io::ErrorKind::NotFound, "no git"))).unwrap_err();
    assert!(err.starts_with("orphan-commit detection failed: "), "{err}");
}
