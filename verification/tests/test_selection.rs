use git_ghosts::cache::CacheError;
use git_ghosts::cli::{run_clean_dry_run, run_report};
use git_ghosts::detect::{select_new_ghosts, tracked_paths};
use git_ghosts::detectors::zombie_branches::{
    select_zombie_branches, zombie_threshold_secs, BranchTip,
};
use git_ghosts::detectors::DetectError;
use git_ghosts::git::TreeEntryInfo;
use git_ghosts::{format_clean_dry_run, format_report, OrphanCommit, ScanResults, ZombieBranch};

fn strip_ansi(s: &str) -> String {
    let mut out = String::with_capacity(s.len());
    let mut chars = s.chars().peekable();
    while let Some(c) = chars.next() {
        if c == '\x1b' {
            for ch in chars.by_ref() {
                if ch == 'm' {
                    break;
                }
            }
        } else {
            out.push(c);
        }
    }
    out
}

fn strings(v: &[&str]) -> Vec<String> {
    v.iter().map(|s| s.to_string()).collect()
}

#[test]
fn tracked_paths_keep_blobs_with_their_directory() {
    let entries = vec![
        TreeEntryInfo { dir: "".to_string(), name: Some("a.txt".to_string()), is_blob: true },
        TreeEntryInfo { dir: "".to_string(), name: Some("sub".to_string()), is_blob: false },
        TreeEntryInfo { dir: "sub/".to_string(), name: Some("b.txt".to_string()), is_blob: true },
        TreeEntryInfo { dir: "sub/".to_string(), name: None, is_blob: true },
    ];
    assert_eq!(tracked_paths(&entries), strings(&["a.txt", "sub/b.txt", "sub/"]));
}

#[test]
fn new_ghosts_are_first_untracked_deletions() {
    let at_head = strings(&["keep.txt"]);
    let paths = strings(&["x.txt", "keep.txt", "y.txt", "x.txt", "z.txt", "y.txt"]);
    assert_eq!(select_new_ghosts(&at_head, &paths), vec![0, 2, 4]);
    assert!(select_new_ghosts(&at_head, &strings(&["keep.txt"])).is_empty());
    assert!(select_new_ghosts(&vec![], &vec![]).is_empty());
}

#[test]
fn threshold_defaults_to_thirty_days() {
    assert_eq!(zombie_threshold_secs(None).unwrap(), 30 * 86_400);
    assert_eq!(zombie_threshold_secs(Some(1)).unwrap(), 86_400);
    assert_eq!(zombie_threshold_secs(Some(i64::MAX)).unwrap(), i64::MAX);
}

#[test]
fn non_positive_threshold_is_refused_with_its_value() {
    match zombie_threshold_secs(Some(0)) {
        Err(e) => assert_eq!(e.message(), "threshold_days must be a positive integer, got 0"),
        Ok(_) => panic!("expected an error"),
    }
    match zombie_threshold_secs(Some(-5)) {
        Err(DetectError::InvalidThreshold(d)) => assert_eq!(d, -5),
        _ => panic!("expected InvalidThreshold"),
    }
    match zombie_threshold_secs(Some(i64::MIN)) {
        Err(e) => assert_eq!(
            e.message(),
            format!("threshold_days must be a positive integer, got {}", i64::MIN)
        ),
        Ok(_) => panic!("expected an error"),
    }
}

fn tip(name: &str, timestamp: i64) -> BranchTip {
    BranchTip {
        name: name.to_string(),
        commit_hash: "a".repeat(40),
        author: "TestUser".to_string(),
        timestamp,
    }
}

#[test]
fn zombie_selection_boundaries() {
    let now = 1_700_000_000;
    let threshold = 30 * 86_400;
    let tips = vec![
        tip("old", now - 400 * 86_400),
        tip("boundary-in", now - threshold - 120),
        tip("exact", now - threshold),
        tip("fresh", now - threshold + 3600),
        tip("future", now + 86_400),
    ];
    let zombies = select_zombie_branches(&tips, now, threshold);
    let names: Vec<&str> = zombies.iter().map(|z| z.branch_name.as_str()).collect();
    assert_eq!(names, vec!["old", "boundary-in", "exact"]);
    assert_eq!(zombies[0].age_days, 400);
    assert_eq!(zombies[1].age_days, 30);
    assert_eq!(zombies[2].age_days, 30);
    assert_eq!(zombies[0].last_commit_author, "TestUser");
    assert_eq!(zombies[1].last_commit_timestamp, now - threshold - 120);
}

#[test]
fn zombie_selection_extreme_timestamps_do_not_overflow() {
    let tips = vec![tip("ancient", i64::MIN), tip("far-future", i64::MAX)];
    let zombies = select_zombie_branches(&tips, i64::MAX, i64::MAX);
    assert_eq!(zombies.len(), 1);
    assert_eq!(zombies[0].branch_name, "ancient");
    assert_eq!(zombies[0].age_days, (u64::MAX / 86_400) as u64);
}

fn sample() -> ScanResults {
    ScanResults {
        ghost_files: vec![],
        zombie_branches: vec![ZombieBranch {
            branch_name: "feature/old".to_string(),
            last_commit_hash: "d".repeat(40),
            last_commit_author: "Bob".to_string(),
            last_commit_timestamp: 1,
            age_days: 2,
        }],
        orphan_commits: vec![OrphanCommit {
            commit_hash: "e".repeat(40),
            author: "Carol".to_string(),
            timestamp: 3,
            message_summary: "stray".to_string(),
        }],
    }
}

#[test]
fn report_text_without_colours_is_the_plain_table() {
    let plain = strip_ansi(&format_report(&sample()));
    let sep = "-".repeat(40);
    let expected = format!(
        "{sep}\n{:<25} Count\n{sep}\n{:<25} 0\n{:<25} 1\n{:<25} 1\n{sep}\n",
        "Category", "Ghost Files", "Zombie Branches", "Orphan Commits"
    );
    assert_eq!(plain, expected);
}

#[test]
fn clean_plan_text_without_colours() {
    let plain = strip_ansi(&format_clean_dry_run(&sample()));
    assert_eq!(
        plain,
        format!(
            "[dry-run] would delete branch: feature/old\n[dry-run] would remove orphan commit: {}",
            "e".repeat(40)
        )
    );
}

#[test]
fn report_command_answers_missing_cache() {
    assert_eq!(
        run_report(Err(CacheError::NotFound)),
        Err("No scan cache found. Run git-ghosts scan first.".to_string())
    );
    assert_eq!(
        run_clean_dry_run(Err(CacheError::NotFound)),
        Err("No scan cache found. Run git-ghosts scan first.".to_string())
    );
    assert_eq!(CacheError::NotFound.message(), "no cache file found");
}

#[test]
fn report_and_clean_commands_render_loaded_scan() {
    let text = run_report(Ok(sample())).unwrap();
    assert_eq!(strip_ansi(&text), strip_ansi(&format_report(&sample())));
    let plan = run_clean_dry_run(Ok(sample())).unwrap();
    assert_eq!(
        strip_ansi(&plan),
        format!("{}\n", strip_ansi(&format_clean_dry_run(&sample())))
    );
    let empty = ScanResults { ghost_files: vec![], zombie_branches: vec![], orphan_commits: vec![] };
    assert_eq!(run_clean_dry_run(Ok(empty)).unwrap(), "");
}

#[test]
fn io_failure_messages_carry_their_prefix() {
    let e = std::io::Error::new(std::io::ErrorKind::PermissionDenied, "denied");
    let msg = run_report(Err(CacheError::Io(e))).unwrap_err();
    assert!(msg.starts_with("Failed to read cache: "), "{msg}");
    let json_err = serde_json::from_str::<u32>("nope").unwrap_err();
    let msg = run_clean_dry_run(Err(CacheError::Json(json_err))).unwrap_err();
    assert!(msg.starts_with("Failed to parse cache: "), "{msg}");
}
