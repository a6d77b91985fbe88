//! The three detectors: deleted files, stale branches and unreachable
//! commits, and what goes wrong in them.
use vstd::prelude::*;

use crate::cache::io_error_text;
use crate::git::{commit_author, commit_summary, commit_time, git_error_text, signature_name, time_seconds};
use crate::text::{i64_to_decimal, signed_decimal};

pub mod orphan_commits;
pub mod zombie_branches;

pub use crate::detect::detect_ghost_files;
pub use orphan_commits::detect_orphan_commits;
pub use zombie_branches::detect_zombie_branches;

verus! {

/// Errors of the zombie-branch and orphan-commit detectors.
#[derive(Debug)]
pub enum DetectError {
    /// The age threshold, in days, is not positive.
    InvalidThreshold(i64),
    /// A `git2` call failed.
    Git(git2::Error),
    /// Running `git fsck` failed.
    Io(std::io::Error),
}

/// `threshold_days must be a positive integer, got `
pub open spec fn invalid_threshold_prefix() -> Seq<char> {
    seq![
        't', 'h', 'r', 'e', 's', 'h', 'o', 'l', 'd', '_', 'd', 'a', 'y', 's', ' ', 'm', 'u', 's',
        't', ' ', 'b', 'e', ' ', 'a', ' ', 'p', 'o', 's', 'i', 't', 'i', 'v', 'e', ' ', 'i', 'n',
        't', 'e', 'g', 'e', 'r', ',', ' ', 'g', 'o', 't', ' ',
    ]
}

impl DetectError {
    /// The description of the error: for a bad threshold `threshold_days
    /// must be a positive integer, got <days>`, otherwise the text of the
    /// underlying error.
    pub fn message(&self) -> (res: String)
        ensures
            match *self {
                DetectError::InvalidThreshold(days) => res@ == invalid_threshold_prefix()
                    + signed_decimal(days as int),
                _ => true,
            },
    {
        match self {
            DetectError::InvalidThreshold(days) => {
                let mut res = "threshold_days must be a positive integer, got ".to_owned();
                res.append(i64_to_decimal(*days).as_str());
                proof {
                    reveal_strlit("threshold_days must be a positive integer, got ");
                    assert("threshold_days must be a positive integer, got "@
                        =~= invalid_threshold_prefix());
                }
                res
            },
            DetectError::Git(e) => git_error_text(e),
            DetectError::Io(e) => io_error_text(e),
        }
    }
}

/// `text` when there is one, else `default`.
pub fn text_or(text: Option<String>, default: &str) -> (res: String)
    ensures
        match text {
            Some(t) => res@ == t@,
            None => res@ == default@,
        },
{
    match text {
        Some(t) => t,
        None => default.to_owned(),
    }
}

/// The author's name of a commit, `Unknown` when it is not UTF-8
/// (`text_or`). The name is read by `git2` from the repository and the
/// commit is opaque here, so no clause can say which text comes back.
pub fn author_name(commit: &git2::Commit<'_>) -> (res: String) {
    let signature = commit_author(commit);
    text_or(signature_name(&signature), "Unknown")
}

/// A record of what was read of a commit: the author's name (`Unknown`
/// when it is not UTF-8), the time in seconds since the Unix epoch and the
/// summary (empty when there is none). Only `read_commit` makes one, from
/// what it read.
pub struct CommitRead {
    author: Ghost<Seq<char>>,
    timestamp: Ghost<i64>,
    summary: Ghost<Seq<char>>,
}

impl CommitRead {
    /// The author's name that was read.
    pub closed spec fn author(self) -> Seq<char> {
        self.author@
    }

    /// The time that was read.
    pub closed spec fn timestamp(self) -> i64 {
        self.timestamp@
    }

    /// The summary that was read.
    pub closed spec fn summary(self) -> Seq<char> {
        self.summary@
    }
}

/// Reads the author's name (`author_name`), the time and the summary
/// (empty when there is none) of `commit`, with a record of what was read.
pub fn read_commit(commit: &git2::Commit<'_>) -> (res: (String, i64, String, CommitRead))
    ensures
        res.3.author() == res.0@,
        res.3.timestamp() == res.1,
        res.3.summary() == res.2@,
{
    let author = author_name(commit);
    let timestamp = time_seconds(commit_time(commit));
    let summary = text_or(commit_summary(commit), "");
    let read = CommitRead { author: Ghost(author@), timestamp: Ghost(timestamp), summary: Ghost(summary@) };
    (author, timestamp, summary, read)
}

} // verus!
