//! Finds the ghosts of a git repository: files deleted in its history,
//! branches nobody has touched for a long time, and commits nothing
//! reaches any more; and renders what a scan found.
pub mod cache;
pub mod cli;
pub mod clock;
pub mod detect;
pub mod detectors;
pub mod git;
pub mod models;
pub mod paint;
pub mod report;
pub mod reporter;
pub mod text;

pub use cache::CacheError;
pub use cli::{format_clean_dry_run, run_clean_dry_run};
pub use detectors::{detect_ghost_files, detect_orphan_commits, detect_zombie_branches};
pub use models::{GhostFile, OrphanCommit, ScanResults, ZombieBranch};
pub use report::{format_report, render_report};
