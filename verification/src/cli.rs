//! The commands: scanning, the summary report and the clean preview. The
//! command line itself, and reading and writing the cache, belong to the
//! program around the library.
use vstd::prelude::*;

use crate::cache::starts_with;
use crate::detect::{detect_ghost_files_recorded, is_ghost_scan, GhostFilesReport};
use crate::detectors::orphan_commits::{detect_orphan_commits, is_lower_hex_hash, is_orphan_scan};
use crate::clock::read_clock;
use crate::detectors::zombie_branches::{
    detect_zombie_branches_recorded, is_branch_scan, is_branch_scan_at, ZombieBranchesReport,
};
use crate::git::{git_error_text, open_repository};
use crate::models::{GhostFile, OrphanCommit, ScanResults, ZombieBranch};

pub mod clean;
pub mod report;

pub use clean::{format_clean_dry_run, run_clean_dry_run};
pub use report::run_report;

verus! {

/// The answer to a threshold of 0.
pub open spec fn zero_threshold_text() -> Seq<char> {
    "threshold must be greater than 0; a value of 0 is not meaningful"@
}

/// `'<path>' is not a valid git repository: `
pub open spec fn not_a_repository_prefix(path: Seq<char>) -> Seq<char> {
    "'"@ + path + "' is not a valid git repository: "@
}

/// `ghost-file detection failed: `
pub open spec fn ghost_step_prefix() -> Seq<char> {
    "ghost-file detection failed: "@
}

/// `zombie-branch detection failed: `
pub open spec fn zombie_step_prefix() -> Seq<char> {
    "zombie-branch detection failed: "@
}

/// `orphan-commit detection failed: `
pub open spec fn orphan_step_prefix() -> Seq<char> {
    "orphan-commit detection failed: "@
}

/// `msg` names one of the three detectors as the step that failed.
pub open spec fn is_detector_failure(msg: Seq<char>) -> bool {
    ||| starts_with(msg, ghost_step_prefix())
    ||| starts_with(msg, zombie_step_prefix())
    ||| starts_with(msg, orphan_step_prefix())
}

/// `msg` says which step of a scan failed: the path is no repository, the
/// threshold is 0, or one of the three detectors failed (its message then
/// follows the step's name).
pub open spec fn is_scan_failure(path: Seq<char>, msg: Seq<char>) -> bool {
    ||| starts_with(msg, not_a_repository_prefix(path))
    ||| msg == zero_threshold_text()
    ||| is_detector_failure(msg)
}

fn with_prefix(prefix: String, rest: String) -> (res: String)
    ensures
        res@ == prefix@ + rest@,
{
    prefix.concat(rest.as_str())
}

/// The message for a path that is no git repository:
/// `'<path>' is not a valid git repository: <detail>`.
pub fn not_a_repository_message(path: &str, detail: String) -> (res: String)
    ensures
        res@ == not_a_repository_prefix(path@) + detail@,
{
    let mut prefix = "'".to_owned();
    prefix.append(path);
    prefix.append("' is not a valid git repository: ");
    with_prefix(prefix, detail)
}

/// The ghost-file step of a scan: the files found, or the detector's
/// message after `ghost-file detection failed: `.
pub fn ghost_step(outcome: Result<Vec<GhostFile>, String>) -> (res: Result<Vec<GhostFile>, String>)
    ensures
        match outcome {
            Ok(files) => res matches Ok(r) && r@ == files@,
            Err(detail) => res matches Err(m) && m@ == ghost_step_prefix() + detail@,
        },
{
    match outcome {
        Ok(files) => Ok(files),
        Err(detail) => Err(with_prefix("ghost-file detection failed: ".to_owned(), detail)),
    }
}

/// The zombie-branch step of a scan: the branches found, or the detector's
/// message after `zombie-branch detection failed: `.
pub fn zombie_step(outcome: Result<Vec<ZombieBranch>, String>) -> (res: Result<Vec<ZombieBranch>, String>)
    ensures
        match outcome {
            Ok(zombies) => res matches Ok(r) && r@ == zombies@,
            Err(detail) => res matches Err(m) && m@ == zombie_step_prefix() + detail@,
        },
{
    match outcome {
        Ok(zombies) => Ok(zombies),
        Err(detail) => Err(with_prefix("zombie-branch detection failed: ".to_owned(), detail)),
    }
}

/// The orphan-commit step of a scan: the commits found, or the detector's
/// message after `orphan-commit detection failed: `.
pub fn orphan_step(outcome: Result<Vec<OrphanCommit>, String>) -> (res: Result<Vec<OrphanCommit>, String>)
    ensures
        match outcome {
            Ok(orphans) => res matches Ok(r) && r@ == orphans@,
            Err(detail) => res matches Err(m) && m@ == orphan_step_prefix() + detail@,
        },
{
    match outcome {
        Ok(orphans) => Ok(orphans),
        Err(detail) => Err(with_prefix("orphan-commit detection failed: ".to_owned(), detail)),
    }
}

/// A message that begins with `prefix`, whose first character differs
/// from that of the zero-threshold answer, is not that answer.
proof fn lemma_not_zero_threshold(msg: Seq<char>, prefix: Seq<char>)
    requires
        prefix.len() > 0,
        msg.len() >= prefix.len(),
        msg.subrange(0, prefix.len() as int) == prefix,
        prefix[0] != 't',
    ensures
        msg != zero_threshold_text(),
{
    reveal_strlit("threshold must be greater than 0; a value of 0 is not meaningful");
    assert(msg[0] == prefix[0]);
}

/// A message whose first character is none of `g`, `z` and `o` names no
/// detector.
proof fn lemma_no_detector_named(msg: Seq<char>)
    requires
        msg.len() > 0,
        msg[0] != 'g' && msg[0] != 'z' && msg[0] != 'o',
    ensures
        !is_detector_failure(msg),
{
    reveal_strlit("ghost-file detection failed: ");
    reveal_strlit("zombie-branch detection failed: ");
    reveal_strlit("orphan-commit detection failed: ");
    if starts_with(msg, ghost_step_prefix()) {
        assert(msg.subrange(0, ghost_step_prefix().len() as int)[0] == msg[0]);
    }
    if starts_with(msg, zombie_step_prefix()) {
        assert(msg.subrange(0, zombie_step_prefix().len() as int)[0] == msg[0]);
    }
    if starts_with(msg, orphan_step_prefix()) {
        assert(msg.subrange(0, orphan_step_prefix().len() as int)[0] == msg[0]);
    }
}

/// What a scan has found before its orphan step: the ghost files and the
/// zombie branches, with the record of the ghost-file detector's answer
/// that the ghost files are.
pub struct FirstFindings {
    pub ghost_files: Vec<GhostFile>,
    pub zombie_branches: Vec<ZombieBranch>,
    pub ghost_files_report: GhostFilesReport,
    pub zombie_branches_report: ZombieBranchesReport,
}

/// What the ghost-file and zombie-branch steps promise of their findings
/// for a threshold of `threshold` days (30 when none is given).
pub open spec fn are_first_findings(
    ghost_files: Seq<GhostFile>,
    zombie_branches: Seq<ZombieBranch>,
    threshold: Option<u32>,
) -> bool {
    &&& is_ghost_scan(ghost_files)
    &&& forall|a: int, b: int|
        0 <= a < b < ghost_files.len() ==> ghost_files[a].file_path@
            != ghost_files[b].file_path@
    &&& forall|a: int|
        0 <= a < ghost_files.len() ==> is_lower_hex_hash(
            #[trigger] ghost_files[a].deletion_commit_hash@,
        )
    &&& forall|a: int|
        0 <= a < zombie_branches.len() ==> is_lower_hex_hash(
            #[trigger] zombie_branches[a].last_commit_hash@,
        )
    &&& is_branch_scan(
        zombie_branches,
        match threshold {
            Some(t) => t as int,
            None => 30,
        },
    )
}

/// What the orphan step promises of its findings for the fsck report
/// `fsck_report`.
pub open spec fn are_orphan_findings(
    orphans: Seq<OrphanCommit>,
    fsck_report: Result<String, std::io::Error>,
) -> bool {
    &&& fsck_report matches Ok(report) && is_orphan_scan(orphans, report@)
    &&& forall|a: int, b: int|
        0 <= a < b < orphans.len() ==> orphans[a].commit_hash@ != orphans[b].commit_hash@
    &&& forall|a: int| 0 <= a < orphans.len() ==> is_lower_hex_hash(#[trigger] orphans[a].commit_hash@)
}

/// The steps of a scan up to the orphan step: checks that `path` is a git
/// repository, refuses a threshold of 0, then finds the ghost files and the
/// zombie branches (older than `threshold` days, 30 when none is given), in
/// that order; the first failure ends the scan with a message that says
/// which step failed.
pub fn scan_ghosts_and_zombies(path: &str, threshold: Option<u32>) -> (res: Result<FirstFindings, String>)
    ensures
        res matches Err(msg) ==> {
            ||| starts_with(msg@, not_a_repository_prefix(path@))
            ||| msg@ == zero_threshold_text()
            ||| starts_with(msg@, ghost_step_prefix())
            ||| starts_with(msg@, zombie_step_prefix())
        },
        res matches Err(msg) && msg@ == zero_threshold_text() ==> threshold == Some(0u32),
        res matches Err(msg) && is_detector_failure(msg@) ==> threshold != Some(0u32),
        threshold == Some(0u32) ==> (res matches Err(msg) && (msg@ == zero_threshold_text()
            || starts_with(msg@, not_a_repository_prefix(path@)))),
        res matches Ok(found) ==> threshold != Some(0u32) && are_first_findings(
            found.ghost_files@,
            found.zombie_branches@,
            threshold,
        ),
        res matches Ok(found) ==> found.ghost_files_report.path() == path@
            && found.ghost_files@ == found.ghost_files_report.files(),
        res matches Ok(found) ==> {
            &&& found.zombie_branches_report.path() == path@
            &&& found.zombie_branches_report.threshold_days() == (match threshold {
                Some(t) => Some(t as i64),
                None => None::<i64>,
            })
            &&& found.zombie_branches@ == found.zombie_branches_report.zombies()
            &&& is_branch_scan_at(
                found.zombie_branches@,
                match threshold {
                    Some(t) => t as int,
                    None => 30,
                },
                found.zombie_branches_report.now() as int,
            )
        },
{
    match open_repository(path) {
        Ok(_) => {},
        Err(e) => {
            let msg = not_a_repository_message(path, git_error_text(&e));
            proof {
                reveal_strlit("'");
                let prefix = not_a_repository_prefix(path@);
                assert(msg@.subrange(0, prefix.len() as int) =~= prefix);
                assert(prefix[0] == '\'');
                lemma_not_zero_threshold(msg@, prefix);
                assert(msg@[0] == prefix[0]);
                lemma_no_detector_named(msg@);
            }
            return Err(msg);
        },
    }
    if threshold == Some(0u32) {
        let msg = "threshold must be greater than 0; a value of 0 is not meaningful".to_owned();
        proof {
            reveal_strlit("threshold must be greater than 0; a value of 0 is not meaningful");
            lemma_no_detector_named(msg@);
        }
        return Err(msg);
    }
    let (ghost_outcome, ghost_files_report) = match detect_ghost_files_recorded(path) {
        Ok((files, report)) => (Ok(files), report),
        Err(e) => {
            let detail = git_error_text(&e);
            let msg = with_prefix("ghost-file detection failed: ".to_owned(), detail);
            proof {
                reveal_strlit("ghost-file detection failed: ");
                let prefix = ghost_step_prefix();
                assert(msg@.subrange(0, prefix.len() as int) =~= prefix);
                lemma_not_zero_threshold(msg@, prefix);
            }
            return Err(msg);
        },
    };
    let ghost_files = match ghost_step(ghost_outcome) {
        Ok(files) => files,
        Err(msg) => {
            proof {
                reveal_strlit("ghost-file detection failed: ");
                let prefix = ghost_step_prefix();
                assert(msg@.subrange(0, prefix.len() as int) =~= prefix);
                lemma_not_zero_threshold(msg@, prefix);
            }
            return Err(msg);
        },
    };
    let days: Option<i64> = match threshold {
        Some(t) => Some(t as i64),
        None => None,
    };
    let clock = read_clock();
    let (zombie_outcome, zombie_branches_report) = match detect_zombie_branches_recorded(path, days, &clock) {
        Ok((zombies, report)) => (Ok(zombies), report),
        Err(e) => {
            let msg = with_prefix("zombie-branch detection failed: ".to_owned(), e.message());
            proof {
                reveal_strlit("zombie-branch detection failed: ");
                let prefix = zombie_step_prefix();
                assert(msg@.subrange(0, prefix.len() as int) =~= prefix);
                lemma_not_zero_threshold(msg@, prefix);
            }
            return Err(msg);
        },
    };
    let zombie_branches = match zombie_step(zombie_outcome) {
        Ok(zombies) => zombies,
        Err(msg) => {
            proof {
                reveal_strlit("zombie-branch detection failed: ");
                let prefix = zombie_step_prefix();
                assert(msg@.subrange(0, prefix.len() as int) =~= prefix);
                lemma_not_zero_threshold(msg@, prefix);
            }
            return Err(msg);
        },
    };
    Ok(FirstFindings { ghost_files, zombie_branches, ghost_files_report, zombie_branches_report })
}

/// The orphan step of a scan, once the first steps have found `found`: the
/// orphan commits of the repository at `path` from `fsck_report` (the
/// output of `git fsck --unreachable --no-reflogs` run in it), gathered
/// with `found`; a failure is labelled as the orphan step's.
pub fn scan_orphans(path: &str, found: FirstFindings, fsck_report: Result<String, std::io::Error>) -> (res:
    Result<ScanResults, String>)
    ensures
        res matches Err(msg) ==> starts_with(msg@, orphan_step_prefix()),
        fsck_report is Err ==> res is Err,
        res matches Ok(results) ==> {
            &&& results.ghost_files@ == found.ghost_files@
            &&& results.zombie_branches@ == found.zombie_branches@
            &&& are_orphan_findings(results.orphan_commits@, fsck_report)
        },
{
    let orphan_outcome = match detect_orphan_commits(path, fsck_report) {
        Ok(orphans) => Ok(orphans),
        Err(e) => Err(e.message()),
    };
    match orphan_step(orphan_outcome) {
        Ok(orphan_commits) => Ok(
            ScanResults {
                ghost_files: found.ghost_files,
                zombie_branches: found.zombie_branches,
                orphan_commits,
            },
        ),
        Err(msg) => {
            proof {
                let prefix = orphan_step_prefix();
                assert(msg@.subrange(0, prefix.len() as int) =~= prefix);
            }
            Err(msg)
        },
    }
}

/// Scans the repository at `path`: checks that it is a git repository,
/// refuses a threshold of 0, then finds its ghost files, its zombie branches
/// (older than `threshold` days, 30 when none is given) and its orphan
/// commits (from `fsck_report`, the output of `git fsck --unreachable
/// --no-reflogs` run in it), in that order, and gathers them; the first
/// failure ends the scan with a message that says which step failed.
/// Persisting the results is left to the caller.
pub fn run_scan(path: &str, threshold: Option<u32>, fsck_report: Result<String, std::io::Error>) -> (res: Result<
    ScanResults,
    String,
>)
    ensures
        res matches Err(msg) ==> is_scan_failure(path@, msg@),
        res matches Err(msg) && msg@ == zero_threshold_text() ==> threshold == Some(0u32),
        res matches Err(msg) && is_detector_failure(msg@) ==> threshold != Some(0u32),
        fsck_report is Err ==> res is Err,
        threshold == Some(0u32) ==> (res matches Err(msg) && (msg@ == zero_threshold_text()
            || starts_with(msg@, not_a_repository_prefix(path@)))),
        res matches Ok(results) ==> {
            &&& threshold != Some(0u32)
            &&& are_first_findings(results.ghost_files@, results.zombie_branches@, threshold)
            &&& are_orphan_findings(results.orphan_commits@, fsck_report)
        },
{
    let found = match scan_ghosts_and_zombies(path, threshold) {
        Ok(found) => found,
        Err(msg) => {
            return Err(msg);
        },
    };
    let res = scan_orphans(path, found, fsck_report);
    proof {
        reveal_strlit("threshold must be greater than 0; a value of 0 is not meaningful");
        reveal_strlit("orphan-commit detection failed: ");
        if res is Err {
            lemma_not_zero_threshold(res->Err_0@, orphan_step_prefix());
        }
    }
    res
}

} // verus!
