//! The `report` command: the summary table of the cached scan.
use vstd::prelude::*;

use crate::cache::{cache_failure_message, cache_failure_text, CacheError};
use crate::models::ScanResults;
use crate::report::{format_report, is_report};

verus! {

/// The text that `report` prints for the cached scan `loaded`: its summary
/// table. No detector runs. A cache that could not be loaded gives the
/// advice to scan first (no cache yet), or `Failed to read cache: ` /
/// `Failed to parse cache: ` followed by the error's text.
pub fn run_report(loaded: Result<ScanResults, CacheError>) -> (res: Result<String, String>)
    ensures
        match (loaded, res) {
            (Ok(results), Ok(out)) => is_report(
                out@,
                results.ghost_files@.len(),
                results.zombie_branches@.len(),
                results.orphan_commits@.len(),
            ),
            (Err(e), Err(msg)) => cache_failure_message(e, msg@),
            _ => false,
        },
{
    match loaded {
        Ok(results) => Ok(format_report(&results)),
        Err(e) => Err(cache_failure_text(&e)),
    }
}

} // verus!
