//! The records a scan finds.
use vstd::prelude::*;

verus! {

/// A file that was deleted in the history and is not tracked any more.
#[derive(Debug, Clone)]
pub struct GhostFile {
    pub file_path: String,
    pub deletion_commit_hash: String,
    pub author: String,
    pub timestamp: i64,
    pub original_file_size_bytes: u64,
}

/// A branch whose newest commit is older than the age threshold.
#[derive(Debug, Clone)]
pub struct ZombieBranch {
    pub branch_name: String,
    pub last_commit_hash: String,
    pub last_commit_author: String,
    pub last_commit_timestamp: i64,
    pub age_days: u64,
}

/// A commit that no branch, tag or other reference reaches.
#[derive(Debug, Clone)]
pub struct OrphanCommit {
    pub commit_hash: String,
    pub author: String,
    pub timestamp: i64,
    pub message_summary: String,
}

/// Everything one scan found.
#[derive(Debug, Clone)]
pub struct ScanResults {
    pub ghost_files: Vec<GhostFile>,
    pub zombie_branches: Vec<ZombieBranch>,
    pub orphan_commits: Vec<OrphanCommit>,
}

} // verus!
