use git_ghosts::report::format_report;
use git_ghosts::{GhostFile, OrphanCommit, ScanResults, ZombieBranch};

fn make_results() -> ScanResults {
    ScanResults {
        ghost_files: vec![GhostFile {
            file_path: "src/old.rs".to_string(),
            deletion_commit_hash: "abc123".to_string(),
            author: "Alice".to_string(),
            timestamp: 1_700_000_000,
            original_file_size_bytes: 1024,
        }],
        zombie_branches: vec![ZombieBranch {
            branch_name: "feature/old".to_string(),
            last_commit_hash: "dead0001".to_string(),
            last_commit_author: "Bob".to_string(),
            last_commit_timestamp: 1_600_000_000,
            age_days: 180,
        }],
        orphan_commits: vec![OrphanCommit {
            commit_hash: "orphanff".to_string(),
            author: "Carol".to_string(),
            timestamp: 1_500_000_000,
            message_summary: "stray work".to_string(),
        }],
    }
}

fn strip_ansi(s: &str) -> String {
    let mut out = String::with_capacity(s.len());
    let mut chars = s.chars().peekable();
    while let Some(c) = chars.next() {
        if c == '\x1b' {
            for ch in chars.by_ref() {
                if ch == 'm' {
                    break;
                }
            }
        } else {
            out.push(c);
        }
    }
    out
}

#[test]
fn report_contains_all_category_labels() {
    let results = make_results();
    let raw = format_report(&results);
    let plain = strip_ansi(&raw);
    assert!(
        plain.contains("Ghost Files"),
        "missing Ghost Files: {plain}"
    );
    assert!(
        plain.contains("Zombie Branches"),
        "missing Zombie Branches: {plain}"
    );
    assert!(
        plain.contains("Orphan Commits"),
        "missing Orphan Commits: {plain}"
    );
}

#[test]
fn report_shows_correct_counts() {
    let results = make_results();
    let raw = format_report(&results);
    let plain = strip_ansi(&raw);
    let lines: Vec<&str> = plain.lines().collect();
    let ghost_line = lines
        .iter()
        .find(|l| l.contains("Ghost Files"))
        .expect("Ghost Files line missing");
    let zombie_line = lines
        .iter()
        .find(|l| l.contains("Zombie Branches"))
        .expect("Zombie Branches line missing");
    let orphan_line = lines
        .iter()
        .find(|l| l.contains("Orphan Commits"))
        .expect("Orphan Commits line missing");
    assert!(ghost_line.contains('1'), "ghost count wrong: {ghost_line}");
    assert!(
        zombie_line.contains('1'),
        "zombie count wrong: {zombie_line}"
    );
    assert!(
        orphan_line.contains('1'),
        "orphan count wrong: {orphan_line}"
    );
}

#[test]
fn report_empty_results_contains_labels() {
    let results = ScanResults {
        ghost_files: vec![],
        zombie_branches: vec![],
        orphan_commits: vec![],
    };
    let raw = format_report(&results);
    let plain = strip_ansi(&raw);
    assert!(plain.contains("Ghost Files"));
    assert!(plain.contains("Zombie Branches"));
    assert!(plain.contains("Orphan Commits"));
    let lines: Vec<&str> = plain.lines().collect();
    let ghost_line = lines.iter().find(|l| l.contains("Ghost Files")).unwrap();
    assert!(
        ghost_line.contains('0'),
        "empty ghost count should be 0: {ghost_line}"
    );
}

#[test]
fn test_report_render_report_does_not_panic() {
    let results = make_results();
    git_ghosts::report::render_report(&results);
}

/// Build a `ScanResults` fixture with the requested number of each item.
fn make_fixture_results(ghost_count: usize, zombie_count: usize, orphan_count: usize) -> ScanResults {
    let ghost_files = (0..ghost_count)
        .map(|i| GhostFile {
            file_path: format!("src/deleted_{i}.rs"),
            deletion_commit_hash: format!("{i:040x}"),
            author: "Alice".to_string(),
            timestamp: 1_700_000_000 + i as i64,
            original_file_size_bytes: 512 + i as u64,
        })
        .collect();
    let zombie_branches = (0..zombie_count)
        .map(|i| ZombieBranch {
            branch_name: format!("feature/old-{i}"),
            last_commit_hash: format!("{i:040x}"),
            last_commit_author: "Bob".to_string(),
            last_commit_timestamp: 1_600_000_000 + i as i64,
            age_days: 90 + i as u64,
        })
        .collect();
    let orphan_commits = (0..orphan_count)
        .map(|i| OrphanCommit {
            commit_hash: format!("{i:040x}"),
            author: "Carol".to_string(),
            timestamp: 1_500_000_000 + i as i64,
            message_summary: format!("stray work {i}"),
        })
        .collect();
    ScanResults { ghost_files, zombie_branches, orphan_commits }
}

#[test]
fn report_output_contains_correct_counts_from_cache() {
    let results = make_fixture_results(2, 1, 1);
    let plain = strip_ansi(&format_report(&results));
    let lines: Vec<&str> = plain.lines().collect();

    let ghost_line = lines
        .iter()
        .find(|l| l.contains("Ghost Files"))
        .expect("Ghost Files line missing from report");
    let zombie_line = lines
        .iter()
        .find(|l| l.contains("Zombie Branches"))
        .expect("Zombie Branches line missing from report");
    let orphan_line = lines
        .iter()
        .find(|l| l.contains("Orphan Commits"))
        .expect("Orphan Commits line missing from report");

    assert!(ghost_line.contains('2'), "expected ghost count 2 in line: {ghost_line}");
    assert!(zombie_line.contains('1'), "expected zombie count 1 in line: {zombie_line}");
    assert!(orphan_line.contains('1'), "expected orphan count 1 in line: {orphan_line}");
}
