use git_ghosts::cache::cache_path;
use git_ghosts::detectors::orphan_commits::{distinct_hashes, parse_unreachable_commit_hashes};
use git_ghosts::text::{i64_to_decimal, join_with_newlines, pad_to_width, u64_to_decimal};

#[test]
fn decimal_rendering_matches_to_string() {
    assert_eq!(u64_to_decimal(0), "0");
    assert_eq!(u64_to_decimal(7), "7");
    assert_eq!(u64_to_decimal(100_000), "100000");
    assert_eq!(u64_to_decimal(u64::MAX), u64::MAX.to_string());
    assert_eq!(i64_to_decimal(-5), "-5");
    assert_eq!(i64_to_decimal(0), "0");
    assert_eq!(i64_to_decimal(i64::MIN), i64::MIN.to_string());
    assert_eq!(i64_to_decimal(i64::MAX), i64::MAX.to_string());
}

#[test]
fn padding_matches_format_width() {
    assert_eq!(pad_to_width("Ghost Files", 25), format!("{:<25}", "Ghost Files"));
    assert_eq!(pad_to_width("文件", 5), format!("{:<5}", "文件"));
    assert_eq!(pad_to_width("a long label here", 4), "a long label here");
    assert_eq!(pad_to_width("", 3), "   ");
}

#[test]
fn joining_lines() {
    assert_eq!(join_with_newlines(&vec![]), "");
    assert_eq!(join_with_newlines(&vec!["a".to_string()]), "a");
    assert_eq!(
        join_with_newlines(&vec!["a".to_string(), "".to_string(), "c".to_string()]),
        "a\n\nc"
    );
}

#[test]
fn cache_path_is_inside_dot_git() {
    assert_eq!(cache_path("/repo"), "/repo/.git/git-ghosts-cache.json");
    assert_eq!(cache_path("/repo/"), "/repo/.git/git-ghosts-cache.json");
    assert_eq!(cache_path(""), ".git/git-ghosts-cache.json");
    assert_eq!(cache_path("rel/dir"), "rel/dir/.git/git-ghosts-cache.json");
}

const H1: &str = "0123456789abcdef0123456789abcdef01234567";
const H2: &str = "89ABCDEF0123456789ABCDEF0123456789abcdef";

#[test]
fn parse_reads_unreachable_commit_lines_in_order() {
    let report = format!(
        "Checking object directories\nunreachable commit {}\nunreachable blob {}\nunreachable commit {}\n",
        H1, H1, H2
    );
    let hashes = parse_unreachable_commit_hashes(&report);
    assert_eq!(
        hashes,
        vec![H1.to_string(), "89abcdef0123456789abcdef0123456789abcdef".to_string()]
    );
}

#[test]
fn parse_skips_malformed_lines() {
    let report = format!(
        "unreachable commit {}0\nunreachable commit xyz\ndangling commit {}\nunreachable  commit\ncommit unreachable {}",
        H1, H1, H1
    );
    assert!(parse_unreachable_commit_hashes(&report).is_empty());
    let not_hex = format!("unreachable commit {}g", &H1[..39]);
    assert!(parse_unreachable_commit_hashes(&not_hex).is_empty());
    assert!(parse_unreachable_commit_hashes("").is_empty());
}

#[test]
fn parse_accepts_extra_spacing_and_words() {
    let report = format!(
        "  unreachable\tcommit   {}  trailing words\r\n\u{a0}unreachable commit {}\u{2003}",
        H1, H2
    );
    let hashes = parse_unreachable_commit_hashes(&report);
    assert_eq!(hashes.len(), 2);
    assert_eq!(hashes[0], H1);
    assert_eq!(hashes[1], H2.to_lowercase());
}

#[test]
fn distinct_hashes_keeps_first_occurrences() {
    let hashes = vec![
        "b".to_string(),
        "a".to_string(),
        "b".to_string(),
        "c".to_string(),
        "a".to_string(),
    ];
    assert_eq!(
        distinct_hashes(&hashes),
        vec!["b".to_string(), "a".to_string(), "c".to_string()]
    );
    assert!(distinct_hashes(&vec![]).is_empty());
}
