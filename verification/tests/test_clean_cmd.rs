use git_ghosts::{format_clean_dry_run, GhostFile, OrphanCommit, ScanResults, ZombieBranch};

/// Build a `ScanResults` fixture with the requested number of each item.
fn make_fixture_results(
    ghost_count: usize,
    zombie_count: usize,
    orphan_count: usize,
) -> ScanResults {
    let ghost_files = (0..ghost_count)
        .map(|i| GhostFile {
            file_path: format!("src/deleted_{i}.rs"),
            deletion_commit_hash: format!("{i:040x}"),
            author: "Alice".to_string(),
            timestamp: 1_700_000_000 + i as i64,
            original_file_size_bytes: 512 + i as u64,
        })
        .collect();

    let zombie_branches = (0..zombie_count)
        .map(|i| ZombieBranch {
            branch_name: format!("feature/old-{i}"),
            last_commit_hash: format!("{i:040x}"),
            last_commit_author: "Bob".to_string(),
            last_commit_timestamp: 1_600_000_000 + i as i64,
            age_days: 90 + i as u64,
        })
        .collect();

    let orphan_commits = (0..orphan_count)
        .map(|i| OrphanCommit {
            commit_hash: format!("{i:040x}"),
            author: "Carol".to_string(),
            timestamp: 1_500_000_000 + i as i64,
            message_summary: format!("stray work {i}"),
        })
        .collect();

    ScanResults {
        ghost_files,
        zombie_branches,
        orphan_commits,
    }
}

/// Strips ANSI escape sequences so assertions are colour-agnostic.
fn strip_ansi(s: &str) -> String {
    let mut out = String::with_capacity(s.len());
    let mut chars = s.chars().peekable();
    while let Some(c) = chars.next() {
        if c == '\x1b' {
            for ch in chars.by_ref() {
                if ch == 'm' {
                    break;
                }
            }
        } else {
            out.push(c);
        }
    }
    out
}

/// `format_clean_dry_run` on an all-empty `ScanResults` returns an empty string.
#[test]
fn clean_dry_run_empty_results_no_output() {
    let results = make_fixture_results(0, 0, 0);
    let output = format_clean_dry_run(&results);
    assert!(
        output.is_empty(),
        "expected empty output for empty results, got: {:?}",
        output
    );
}

/// `format_clean_dry_run` with only ghost files produces no output (ghost files
/// are excluded from the clean action).
#[test]
fn clean_dry_run_ghost_files_not_in_output() {
    let results = make_fixture_results(3, 0, 0);
    let output = strip_ansi(&format_clean_dry_run(&results));
    assert!(
        output.is_empty(),
        "expected empty output when only ghost_files present, got: {:?}",
        output
    );
}

/// All zombie-branch lines appear before all orphan-commit lines in the output.
#[test]
fn clean_dry_run_zombie_lines_before_orphan_lines() {
    let results = make_fixture_results(0, 1, 1);
    let plain = strip_ansi(&format_clean_dry_run(&results));
    let lines: Vec<&str> = plain.lines().collect();

    let branch_pos = lines
        .iter()
        .position(|l| l.contains("would delete branch:"))
        .expect("zombie line not found");
    let orphan_pos = lines
        .iter()
        .position(|l| l.contains("would remove orphan commit:"))
        .expect("orphan line not found");

    assert!(
        branch_pos < orphan_pos,
        "zombie line ({}) should appear before orphan line ({})",
        branch_pos,
        orphan_pos
    );
}

/// Branch names with special characters (e.g. slashes and spaces) appear
/// verbatim in the output.
#[test]
fn clean_dry_run_special_branch_name() {
    let results = ScanResults {
        ghost_files: vec![],
        zombie_branches: vec![ZombieBranch {
            branch_name: "refs/heads/fix/foo bar".to_string(),
            last_commit_hash: "a".repeat(40),
            last_commit_author: "Dev".to_string(),
            last_commit_timestamp: 1_600_000_000,
            age_days: 100,
        }],
        orphan_commits: vec![],
    };

    let plain = strip_ansi(&format_clean_dry_run(&results));
    assert!(
        plain.contains("would delete branch: refs/heads/fix/foo bar"),
        "special branch name not found verbatim; got:\n{}",
        plain
    );
}

/// `format_clean_dry_run` with 2 zombies + 1 orphan produces three expected
/// action lines.
#[test]
fn clean_dry_run_output_matches_fixture() {
    let results = make_fixture_results(0, 2, 1);

    let plain = strip_ansi(&format_clean_dry_run(&results));

    assert!(
        plain.contains("would delete branch: feature/old-0"),
        "missing first zombie line; got:\n{}",
        plain
    );
    assert!(
        plain.contains("would delete branch: feature/old-1"),
        "missing second zombie line; got:\n{}",
        plain
    );
    assert!(
        plain.contains("would remove orphan commit: 0000000000000000000000000000000000000000"),
        "missing orphan line; got:\n{}",
        plain
    );
}
