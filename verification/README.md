# git_ghosts

Finds the "ghosts" of a git repository and reports them:

- ghost files: files deleted somewhere in the history of HEAD that HEAD no
  longer tracks, each reported once at its most recent deletion;
- zombie branches: branches whose newest commit is older than a threshold
  (30 days unless told otherwise);
- orphan commits: commits that `git fsck --unreachable` lists and that no
  reference reaches.

## Layout

- `src/` is the verified library. `detect.rs` and `detectors/` hold the
  three detectors. The calls into `git2` (in `git.rs`, trusted) read the
  repository into plain records (`DeltaInfo`, `DeletedFile`,
  `BranchLookup`, `CommitInfo`, blob sizes with the id they were read
  for); verified steps with exact contracts decide what is reported from
  those records: `push_commit_deletions`, `select_new_ghosts`,
  `blob_ids_of` and `ghost_files_from`; `tips_from_lookups` and
  `select_zombie_branches`; `parse_unreachable_commit_hashes`,
  `distinct_hashes` and `orphans_from_lookups`. The detectors' own
  contracts say how their results follow from what was read; what `git2`
  reads from disk is left open. `cli.rs` runs a scan in two parts (before
  and after `git fsck`) and labels each failing step; `report.rs` and
  `cli/` build the summary table, the clean preview and the command
  answers; `paint.rs` wraps the `colored` crate and proves what a coloured
  text reads as once its escape codes are removed. `text.rs` holds the
  character-level helpers (decimal rendering, padding, joining,
  splitting).
- `app/` is the `git-ghosts` program: command-line parsing (clap), the JSON
  cache file (serde), running `git fsck`, and printing.
- `tests/` run the library, including scans of repositories built with
  `git2`.
