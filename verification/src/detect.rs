//! Ghost files: files deleted somewhere in the history of HEAD that HEAD
//! does not track any more.
use vstd::prelude::*;

use crate::detectors::orphan_commits::is_lower_hex_hash;
use crate::git::{
    blob_size, commit_parent, commit_parent_count, commit_time, commit_tree,
    diff_deltas, diff_trees, find_blob, find_commit, new_revwalk, oid_hex, open_repository,
    peel_to_commit, repository_head, revwalk_items, revwalk_push_head, revwalk_sort_by_time,
    parent_tree, time_seconds, tree_entries, DeltaInfo, TreeEntryInfo,
};
use crate::detectors::author_name;
use crate::models::GhostFile;
use crate::text::string_views;

verus! {

/// The path of a tree entry: its directory followed by its name (an empty
/// name when the name is not UTF-8).
pub open spec fn entry_path(e: TreeEntryInfo) -> Seq<char> {
    e.dir@ + match e.name {
        Some(n) => n@,
        None => Seq::<char>::empty(),
    }
}

/// The paths of the blobs among `entries`, in order.
pub open spec fn blob_paths(entries: Seq<TreeEntryInfo>) -> Seq<Seq<char>>
    decreases entries.len(),
{
    if entries.len() == 0 {
        seq![]
    } else {
        let rest = blob_paths(entries.drop_last());
        if entries.last().is_blob {
            rest.push(entry_path(entries.last()))
        } else {
            rest
        }
    }
}

/// The paths of the files (blobs) among the entries of a tree walk: each
/// entry's directory followed by its name, an empty name when the name is
/// not UTF-8.
pub fn tracked_paths(entries: &Vec<TreeEntryInfo>) -> (res: Vec<String>)
    ensures
        string_views(res@) == blob_paths(entries@),
{
    let mut res: Vec<String> = Vec::new();
    let mut i: usize = 0;
    while i < entries.len()
        invariant
            i <= entries.len(),
            string_views(res@) == blob_paths(entries@.take(i as int)),
        decreases entries.len() - i,
    {
        let e = &entries[i];
        proof {
            assert(entries@.take(i as int + 1).drop_last() =~= entries@.take(i as int));
            assert(entries@.take(i as int + 1).last() == entries@[i as int]);
        }
        if e.is_blob {
            let mut path = e.dir.clone();
            match &e.name {
                Some(n) => {
                    path.append(n.as_str());
                },
                None => {},
            }
            assert(path@ =~= entry_path(entries@[i as int]));
            let ghost before = res@;
            res.push(path);
            proof {
                assert(string_views(res@) =~= string_views(before).push(entry_path(entries@[i as int])));
            }
        }
        i = i + 1;
    }
    assert(entries@.take(entries.len() as int) =~= entries@);
    res
}

/// The paths of the files tracked at HEAD: those of the blobs of a walk of
/// its tree (`tracked_paths`); none when HEAD does not resolve (an empty
/// repository). The HEAD lookup and the tree walk read the repository
/// through `git2`, so which entries the walk gives is not stated.
fn currently_tracked_files(repo: &git2::Repository) -> (res: Result<Vec<String>, git2::Error>)
    ensures
        res matches Ok(v) ==> exists|entries: Seq<TreeEntryInfo>|
            string_views(v@) == #[trigger] blob_paths(entries),
{
    let head = match repository_head(repo) {
        Ok(h) => h,
        Err(_) => {
            let none: Vec<String> = Vec::new();
            proof {
                let empty = Seq::<TreeEntryInfo>::empty();
                assert(string_views(none@) =~= blob_paths(empty));
            }
            return Ok(none);
        },
    };
    let commit = peel_to_commit(&head)?;
    let tree = commit_tree(&commit)?;
    let entries = tree_entries(&tree)?;
    let paths = tracked_paths(&entries);
    proof {
        assert(string_views(paths@) == blob_paths(entries@));
    }
    Ok(paths)
}

/// Whether deletion `i` is the first deletion of its path in `paths`, and
/// the path is not tracked.
pub open spec fn is_new_ghost(at_head: Seq<Seq<char>>, paths: Seq<Seq<char>>, i: int) -> bool {
    &&& !at_head.contains(paths[i])
    &&& forall|j: int| 0 <= j < i ==> paths[j] != paths[i]
}

/// The positions `i < n` of the new ghosts, in increasing order.
pub open spec fn new_ghost_positions(at_head: Seq<Seq<char>>, paths: Seq<Seq<char>>, n: int) -> Seq<int>
    decreases n,
{
    if n <= 0 {
        seq![]
    } else {
        let rest = new_ghost_positions(at_head, paths, n - 1);
        if is_new_ghost(at_head, paths, n - 1) {
            rest.push(n - 1)
        } else {
            rest
        }
    }
}

/// Whether `p` is among `v`.
fn contains_path(v: &Vec<String>, p: &String) -> (r: bool)
    ensures
        r == string_views(v@).contains(p@),
{
    let mut i: usize = 0;
    while i < v.len()
        invariant
            i <= v.len(),
            forall|k: int| 0 <= k < i ==> v@[k]@ != p@,
        decreases v.len() - i,
    {
        if v[i] == *p {
            proof {
                assert(string_views(v@)[i as int] == p@);
            }
            return true;
        }
        i = i + 1;
    }
    proof {
        if string_views(v@).contains(p@) {
            let k = choose|k: int| 0 <= k < string_views(v@).len() && string_views(v@)[k] == p@;
            assert(v@[k]@ == p@);
        }
    }
    false
}

/// The deletions that make ghost files, given the deleted paths in the
/// order of the history walk (newest first) and the paths tracked at HEAD:
/// the positions of the paths that are not tracked, each at its first
/// deletion in the walk, in increasing order.
pub fn select_new_ghosts(at_head: &Vec<String>, paths: &Vec<String>) -> (res: Vec<usize>)
    ensures
        res@.map_values(|k: usize| k as int) == new_ghost_positions(
            string_views(at_head@),
            string_views(paths@),
            paths@.len() as int,
        ),
{
    let ghost t = string_views(at_head@);
    let ghost ps = string_views(paths@);
    let mut res: Vec<usize> = Vec::new();
    let mut seen: Vec<String> = Vec::new();
    let mut i: usize = 0;
    while i < paths.len()
        invariant
            t == string_views(at_head@),
            ps == string_views(paths@),
            i <= paths.len(),
            res@.map_values(|k: usize| k as int) == new_ghost_positions(t, ps, i as int),
            forall|p: Seq<char>|
                string_views(seen@).contains(p) <==> (!t.contains(p) && exists|j: int|
                    0 <= j < i && #[trigger] ps[j] == p),
        decreases paths.len() - i,
    {
        let p = &paths[i];
        let is_tracked = contains_path(at_head, p);
        let is_seen = contains_path(&seen, p);
        let ghost before_res = res@;
        let ghost before_seen = string_views(seen@);
        proof {
            assert(forall|q: Seq<char>|
                before_seen.contains(q) <==> (!t.contains(q) && exists|j: int|
                    0 <= j < i && #[trigger] ps[j] == q));
        }
        proof {
            assert(ps[i as int] == p@);
            if !is_tracked && !is_seen {
                assert forall|j: int| 0 <= j < i implies ps[j] != ps[i as int] by {
                    if ps[j] == ps[i as int] {
                        assert(string_views(seen@).contains(p@));
                    }
                }
                assert(is_new_ghost(t, ps, i as int));
            } else {
                if !is_tracked {
                    let j = choose|j: int| 0 <= j < i && #[trigger] ps[j] == p@;
                    assert(ps[j] == ps[i as int]);
                }
                assert(!is_new_ghost(t, ps, i as int));
            }
        }
        if !is_tracked && !is_seen {
            res.push(i);
            seen.push(p.clone());
            proof {
                assert(res@.map_values(|k: usize| k as int) =~= before_res.map_values(
                    |k: usize| k as int,
                ).push(i as int));
                assert(string_views(seen@) =~= before_seen.push(p@));
            }
        }
        i = i + 1;
        proof {
            assert forall|q: Seq<char>|
                string_views(seen@).contains(q) <==> (!t.contains(q) && exists|j: int|
                    0 <= j < i && #[trigger] ps[j] == q) by {
                if string_views(seen@).contains(q) {
                    if !before_seen.contains(q) {
                        assert(q == p@);
                        assert(ps[i - 1] == q);
                    } else {
                        assert(exists|j: int| 0 <= j < i - 1 && #[trigger] ps[j] == q);
                        let j = choose|j: int| 0 <= j < i - 1 && #[trigger] ps[j] == q;
                        assert(ps[j] == q);
                    }
                }
                if !t.contains(q) && exists|j: int| 0 <= j < i && #[trigger] ps[j] == q {
                    let j = choose|j: int| 0 <= j < i && #[trigger] ps[j] == q;
                    if j < i - 1 {
                        assert(before_seen.contains(q));
                        let k = choose|k: int| 0 <= k < before_seen.len() && before_seen[k] == q;
                        assert(string_views(seen@)[k] == q);
                    } else {
                        assert(q == p@);
                        if is_seen {
                            assert(before_seen.contains(q));
                            let k = choose|k: int| 0 <= k < before_seen.len() && before_seen[k] == q;
                            assert(string_views(seen@)[k] == q);
                        } else {
                            assert(string_views(seen@).last() == q);
                        }
                    }
                }
            }
        }
    }
    res
}

/// Law: the chosen deletions are at distinct, increasing positions; their
/// paths are pairwise distinct and none of them is tracked.
pub proof fn lemma_new_ghosts_distinct(at_head: Seq<Seq<char>>, paths: Seq<Seq<char>>, n: int)
    requires
        0 <= n <= paths.len(),
    ensures
        forall|a: int, b: int|
            0 <= a < b < new_ghost_positions(at_head, paths, n).len() ==> new_ghost_positions(
                at_head,
                paths,
                n,
            )[a] < new_ghost_positions(at_head, paths, n)[b] && paths[new_ghost_positions(
                at_head,
                paths,
                n,
            )[a]] != paths[new_ghost_positions(at_head, paths, n)[b]],
        forall|a: int|
            0 <= a < new_ghost_positions(at_head, paths, n).len() ==> 0 <= new_ghost_positions(
                at_head,
                paths,
                n,
            )[a] < n && is_new_ghost(at_head, paths, new_ghost_positions(at_head, paths, n)[a])
                && !at_head.contains(paths[new_ghost_positions(at_head, paths, n)[a]]),
    decreases n,
{
    if n > 0 {
        lemma_new_ghosts_distinct(at_head, paths, n - 1);
        let pos = new_ghost_positions(at_head, paths, n);
        let rest = new_ghost_positions(at_head, paths, n - 1);
        if is_new_ghost(at_head, paths, n - 1) {
            assert(pos == rest.push(n - 1));
            assert forall|a: int| 0 <= a < pos.len() implies 0 <= pos[a] < n && is_new_ghost(
                at_head,
                paths,
                pos[a],
            ) && !at_head.contains(paths[pos[a]]) by {
                if a < rest.len() {
                    assert(pos[a] == rest[a]);
                }
            }
            assert forall|a: int, b: int| 0 <= a < b < pos.len() implies pos[a] < pos[b]
                && paths[pos[a]] != paths[pos[b]] by {
                assert(pos[a] == rest[a]);
                if b < rest.len() {
                    assert(pos[b] == rest[b]);
                } else {
                    assert(pos[b] == n - 1);
                    assert(0 <= rest[a] < n - 1);
                }
            }
        } else {
            assert(pos == rest);
        }
    }
}

/// A file deletion found in the history of HEAD: the deleted path, and the
/// deleting commit's hash, author (`Unknown` when the name is not UTF-8)
/// and time in seconds since the Unix epoch.
#[derive(Debug, Clone)]
pub struct DeletedFile {
    pub path: String,
    pub commit_hash: String,
    pub author: String,
    pub timestamp: i64,
}

/// The deleted paths, in order.
pub open spec fn deleted_paths(deletions: Seq<DeletedFile>) -> Seq<Seq<char>> {
    deletions.map_values(|d: DeletedFile| d.path@)
}

/// `g` records the deletion `d` of a blob of `size` bytes.
pub open spec fn records_deletion(g: GhostFile, d: DeletedFile, size: u64) -> bool {
    &&& g.file_path@ == d.path@
    &&& g.deletion_commit_hash@ == d.commit_hash@
    &&& g.author@ == d.author@
    &&& g.timestamp == d.timestamp
    &&& g.original_file_size_bytes == size
}

/// `files` are the ghost files of the deletions `deletions` (in the order
/// of the history walk) when `at_head` is tracked: one record for each
/// deleted path that is not tracked, at its first deletion in the walk, in
/// the order of the walk, with the sizes `sizes` of the deleted blobs.
pub open spec fn reports_ghosts(
    files: Seq<GhostFile>,
    deletions: Seq<DeletedFile>,
    at_head: Seq<Seq<char>>,
    sizes: Seq<u64>,
) -> bool {
    let pos = new_ghost_positions(at_head, deleted_paths(deletions), deletions.len() as int);
    &&& files.len() == pos.len()
    &&& sizes.len() == pos.len()
    &&& forall|k: int|
        #![trigger files[k]]
        0 <= k < pos.len() ==> records_deletion(files[k], deletions[pos[k]], sizes[k])
}

/// What is known of a deletion: the path, and the deleting commit's hash,
/// author and time.
pub open spec fn deletion_views(deletions: Seq<DeletedFile>) -> Seq<(Seq<char>, Seq<char>, Seq<char>, i64)> {
    deletions.map_values(|d: DeletedFile| (d.path@, d.commit_hash@, d.author@, d.timestamp))
}

/// The deletions in the diff `deltas` of the commit with hash `hash`,
/// author `author` and time `timestamp`: one for each delta that deletes a
/// file whose path is UTF-8, in the order of the diff.
pub open spec fn diff_deletions(deltas: Seq<DeltaInfo>, hash: Seq<char>, author: Seq<char>, timestamp: i64) -> Seq<
    (Seq<char>, Seq<char>, Seq<char>, i64),
>
    decreases deltas.len(),
{
    if deltas.len() == 0 {
        seq![]
    } else {
        let rest = diff_deletions(deltas.drop_last(), hash, author, timestamp);
        let d = deltas.last();
        match d.old_path {
            Some(p) => if d.deleted {
                rest.push((p@, hash, author, timestamp))
            } else {
                rest
            },
            None => rest,
        }
    }
}

/// The ids of the blobs that the deletions of `diff_deletions` remove, in
/// the same order.
pub open spec fn diff_deleted_ids(deltas: Seq<DeltaInfo>) -> Seq<git2::Oid>
    decreases deltas.len(),
{
    if deltas.len() == 0 {
        seq![]
    } else {
        let rest = diff_deleted_ids(deltas.drop_last());
        let d = deltas.last();
        if d.deleted && d.old_path is Some {
            rest.push(d.old_id)
        } else {
            rest
        }
    }
}

/// The deletions of a history walk, commit after commit: each commit (one
/// that has a parent) is given by its hash, author, time and the deltas of
/// its diff with its first parent.
pub open spec fn walk_deletions(walk: Seq<(Seq<char>, Seq<char>, i64, Seq<DeltaInfo>)>) -> Seq<
    (Seq<char>, Seq<char>, Seq<char>, i64),
>
    decreases walk.len(),
{
    if walk.len() == 0 {
        seq![]
    } else {
        let c = walk.last();
        walk_deletions(walk.drop_last()) + diff_deletions(c.3, c.0, c.1, c.2)
    }
}

/// Every deletion of a commit's diff carries the commit's hash.
proof fn lemma_diff_deletions_hash(deltas: Seq<DeltaInfo>, hash: Seq<char>, author: Seq<char>, timestamp: i64)
    ensures
        forall|i: int|
            0 <= i < diff_deletions(deltas, hash, author, timestamp).len() ==> (#[trigger] diff_deletions(
                deltas,
                hash,
                author,
                timestamp,
            )[i]).1 == hash,
    decreases deltas.len(),
{
    if deltas.len() > 0 {
        lemma_diff_deletions_hash(deltas.drop_last(), hash, author, timestamp);
        let rest = diff_deletions(deltas.drop_last(), hash, author, timestamp);
        let all = diff_deletions(deltas, hash, author, timestamp);
        assert forall|i: int| 0 <= i < all.len() implies (#[trigger] all[i]).1 == hash by {
            if i < rest.len() {
                assert(all[i] == rest[i]);
            }
        }
    }
}

/// The deletions of a walk whose commits have forty-digit lower-case
/// hashes carry such hashes.
proof fn lemma_walk_hashes(walk: Seq<(Seq<char>, Seq<char>, i64, Seq<DeltaInfo>)>)
    requires
        forall|k: int| 0 <= k < walk.len() ==> is_lower_hex_hash(#[trigger] walk[k].0),
    ensures
        forall|i: int|
            0 <= i < walk_deletions(walk).len() ==> is_lower_hex_hash(
                (#[trigger] walk_deletions(walk)[i]).1,
            ),
    decreases walk.len(),
{
    if walk.len() > 0 {
        let init = walk.drop_last();
        assert forall|k: int| 0 <= k < init.len() implies is_lower_hex_hash(#[trigger] init[k].0) by {
            assert(init[k] == walk[k]);
        }
        lemma_walk_hashes(init);
        let c = walk.last();
        assert(is_lower_hex_hash(walk[walk.len() - 1].0));
        lemma_diff_deletions_hash(c.3, c.0, c.1, c.2);
        let rest = walk_deletions(init);
        let more = diff_deletions(c.3, c.0, c.1, c.2);
        assert forall|i: int| 0 <= i < walk_deletions(walk).len() implies is_lower_hex_hash(
            (#[trigger] walk_deletions(walk)[i]).1,
        ) by {
            if i < rest.len() {
                assert(walk_deletions(walk)[i] == rest[i]);
            } else {
                assert(walk_deletions(walk)[i] == more[i - rest.len()]);
            }
        }
    }
}

/// Appends the deletions of one commit's diff with its first parent:
/// for each delta that deletes a file whose path is UTF-8, in the order of
/// the diff, the deletion (with the commit's `hash`, `author` and
/// `timestamp`) to `deletions` and the deleted blob's id to `old_ids`.
pub fn push_commit_deletions(
    deltas: &Vec<DeltaInfo>,
    hash: &String,
    author: &String,
    timestamp: i64,
    deletions: &mut Vec<DeletedFile>,
    old_ids: &mut Vec<git2::Oid>,
)
    ensures
        deletion_views(final(deletions)@) == deletion_views(old(deletions)@) + diff_deletions(
            deltas@,
            hash@,
            author@,
            timestamp,
        ),
        final(old_ids)@ == old(old_ids)@ + diff_deleted_ids(deltas@),
        final(deletions)@.len() - old(deletions)@.len() == final(old_ids)@.len() - old(
            old_ids,
        )@.len(),
{
    let ghost start = deletion_views(deletions@);
    let ghost start_ids = old_ids@;
    let ghost start_len = deletions@.len();
    let ghost start_ids_len = old_ids@.len();
    let mut d: usize = 0;
    while d < deltas.len()
        invariant
            d <= deltas.len(),
            deletion_views(deletions@) == start + diff_deletions(
                deltas@.take(d as int),
                hash@,
                author@,
                timestamp,
            ),
            old_ids@ == start_ids + diff_deleted_ids(deltas@.take(d as int)),
            deletions@.len() - start_len == old_ids@.len() - start_ids_len,
        decreases deltas.len() - d,
    {
        let delta = &deltas[d];
        let ghost before = deletion_views(deletions@);
        let ghost before_ids = old_ids@;
        proof {
            assert(deltas@.take(d as int + 1).drop_last() =~= deltas@.take(d as int));
            assert(deltas@.take(d as int + 1).last() == deltas@[d as int]);
        }
        if delta.deleted {
            match &delta.old_path {
                Some(p) => {
                    deletions.push(
                        DeletedFile {
                            path: p.clone(),
                            commit_hash: hash.clone(),
                            author: author.clone(),
                            timestamp,
                        },
                    );
                    old_ids.push(delta.old_id);
                    proof {
                        assert(deletion_views(deletions@) =~= before.push(
                            (p@, hash@, author@, timestamp),
                        ));
                    }
                },
                None => {},
            }
        }
        d = d + 1;
    }
    proof {
        assert(deltas@.take(deltas@.len() as int) =~= deltas@);
    }
}

/// The paths of `deletions`, in order.
fn paths_of(deletions: &Vec<DeletedFile>) -> (res: Vec<String>)
    ensures
        string_views(res@) == deleted_paths(deletions@),
{
    let mut res: Vec<String> = Vec::new();
    let mut i: usize = 0;
    while i < deletions.len()
        invariant
            i <= deletions.len(),
            string_views(res@) == deleted_paths(deletions@.take(i as int)),
        decreases deletions.len() - i,
    {
        let ghost before = res@;
        res.push(deletions[i].path.clone());
        proof {
            assert(string_views(res@) =~= string_views(before).push(deletions@[i as int].path@));
            assert(deleted_paths(deletions@.take(i as int + 1)) =~= deleted_paths(
                deletions@.take(i as int),
            ).push(deletions@[i as int].path@));
        }
        i = i + 1;
    }
    proof {
        assert(deletions@.take(deletions@.len() as int) =~= deletions@);
    }
    res
}

/// How many of `flags` are set.
pub open spec fn count_true(flags: Seq<bool>) -> nat
    decreases flags.len(),
{
    if flags.len() == 0 {
        0
    } else {
        count_true(flags.drop_last()) + if flags.last() {
            1nat
        } else {
            0nat
        }
    }
}

/// The blob ids that the deletions of a history walk remove, commit after
/// commit, in the order of `walk_deletions`.
pub open spec fn walk_deleted_ids(walk: Seq<(Seq<char>, Seq<char>, i64, Seq<DeltaInfo>)>) -> Seq<git2::Oid>
    decreases walk.len(),
{
    if walk.len() == 0 {
        seq![]
    } else {
        walk_deleted_ids(walk.drop_last()) + diff_deleted_ids(walk.last().3)
    }
}

/// The sizes of blob reads, in order.
pub open spec fn read_sizes(reads: Seq<(git2::Oid, u64)>) -> Seq<u64> {
    reads.map_values(|r: (git2::Oid, u64)| r.1)
}

/// Each read `k` was made for the blob id removed by the deletion at
/// `positions[k]`.
pub open spec fn reads_blobs_of(reads: Seq<(git2::Oid, u64)>, ids: Seq<git2::Oid>, positions: Seq<int>) -> bool {
    &&& reads.len() == positions.len()
    &&& forall|k: int| 0 <= k < reads.len() ==> (#[trigger] reads[k]).0 == ids[positions[k]]
}

/// `files` is what the ghost-file detector reports: for some history walk
/// whose commits have forty-digit lower-case hashes, the ghost files of
/// the deletions it finds, when the blobs of some walk of a tree are
/// tracked, each with the size read for the blob that its deletion removed.
pub open spec fn is_ghost_scan(files: Seq<GhostFile>) -> bool {
    exists|
        walk: Seq<(Seq<char>, Seq<char>, i64, Seq<DeltaInfo>)>,
        deletions: Seq<DeletedFile>,
        entries: Seq<TreeEntryInfo>,
        reads: Seq<(git2::Oid, u64)>,
    |
        #![trigger walk_deletions(walk), reports_ghosts(files, deletions, blob_paths(entries), read_sizes(reads))]
        {
            &&& forall|k: int| 0 <= k < walk.len() ==> is_lower_hex_hash(#[trigger] walk[k].0)
            &&& deletion_views(deletions) == walk_deletions(walk)
            &&& reports_ghosts(files, deletions, blob_paths(entries), read_sizes(reads))
            &&& reads_blobs_of(
                reads,
                walk_deleted_ids(walk),
                new_ghost_positions(blob_paths(entries), deleted_paths(deletions), deletions.len() as int),
            )
        }
}

/// The blob ids that the chosen deletions remove, in the order of `chosen`.
pub fn blob_ids_of(old_ids: &Vec<git2::Oid>, chosen: &Vec<usize>) -> (ids: Vec<git2::Oid>)
    requires
        forall|k: int| 0 <= k < chosen.len() ==> #[trigger] chosen@[k] < old_ids.len(),
    ensures
        ids@ == chosen@.map_values(|k: usize| old_ids@[k as int]),
{
    let mut ids: Vec<git2::Oid> = Vec::new();
    let mut m: usize = 0;
    while m < chosen.len()
        invariant
            m <= chosen.len(),
            forall|k: int| 0 <= k < chosen.len() ==> #[trigger] chosen@[k] < old_ids.len(),
            ids@ == chosen@.take(m as int).map_values(|k: usize| old_ids@[k as int]),
        decreases chosen.len() - m,
    {
        ids.push(old_ids[chosen[m]]);
        proof {
            assert(chosen@.take(m as int + 1) =~= chosen@.take(m as int).push(chosen@[m as int]));
            assert(ids@ =~= chosen@.take(m as int + 1).map_values(|k: usize| old_ids@[k as int]));
        }
        m = m + 1;
    }
    proof {
        assert(chosen@.take(chosen@.len() as int) =~= chosen@);
    }
    ids
}

/// Reads the size of the blob `id` in `repo` (0 when it cannot be read),
/// together with the id it was read for.
fn read_blob_size(repo: &git2::Repository, id: git2::Oid) -> (res: (git2::Oid, u64))
    ensures
        res.0 == id,
{
    let size: u64 = match find_blob(repo, id) {
        Ok(blob) => blob_size(&blob) as u64,
        Err(_) => 0,
    };
    (id, size)
}

/// Law: ghost files are reported once each, and none of them is tracked.
pub proof fn lemma_reported_ghosts(
    files: Seq<GhostFile>,
    deletions: Seq<DeletedFile>,
    at_head: Seq<Seq<char>>,
    sizes: Seq<u64>,
)
    requires
        reports_ghosts(files, deletions, at_head, sizes),
    ensures
        forall|a: int, b: int|
            0 <= a < b < files.len() ==> files[a].file_path@ != files[b].file_path@,
        forall|a: int| 0 <= a < files.len() ==> !at_head.contains(#[trigger] files[a].file_path@),
{
    let paths = deleted_paths(deletions);
    let n = deletions.len() as int;
    let pos = new_ghost_positions(at_head, paths, n);
    lemma_new_ghosts_distinct(at_head, paths, n);
    assert forall|a: int, b: int| 0 <= a < b < files.len() implies files[a].file_path@
        != files[b].file_path@ by {
        assert(records_deletion(files[a], deletions[pos[a]], sizes[a]));
        assert(records_deletion(files[b], deletions[pos[b]], sizes[b]));
        assert(paths[pos[a]] == deletions[pos[a]].path@);
        assert(paths[pos[b]] == deletions[pos[b]].path@);
    }
    assert forall|a: int| 0 <= a < files.len() implies !at_head.contains(
        #[trigger] files[a].file_path@,
    ) by {
        assert(records_deletion(files[a], deletions[pos[a]], sizes[a]));
        assert(paths[pos[a]] == deletions[pos[a]].path@);
    }
}

/// Every new ghost below `n` has a place among the chosen positions.
proof fn lemma_new_ghost_chosen(at_head: Seq<Seq<char>>, paths: Seq<Seq<char>>, n: int, i: int)
    requires
        0 <= i < n,
        is_new_ghost(at_head, paths, i),
    ensures
        exists|a: int|
            0 <= a < new_ghost_positions(at_head, paths, n).len() && #[trigger] new_ghost_positions(
                at_head,
                paths,
                n,
            )[a] == i,
    decreases n,
{
    let pos = new_ghost_positions(at_head, paths, n);
    let rest = new_ghost_positions(at_head, paths, n - 1);
    if i == n - 1 {
        assert(pos == rest.push(n - 1));
        assert(pos[rest.len() as int] == i);
    } else {
        lemma_new_ghost_chosen(at_head, paths, n - 1, i);
        let a = choose|a: int| 0 <= a < rest.len() && #[trigger] rest[a] == i;
        if is_new_ghost(at_head, paths, n - 1) {
            assert(pos == rest.push(n - 1));
            assert(pos[a] == i);
        } else {
            assert(pos == rest);
        }
    }
}

/// The first position in `paths` that holds the same path as position `j`.
proof fn lemma_first_index(paths: Seq<Seq<char>>, j: int)
    requires
        0 <= j < paths.len(),
    ensures
        exists|i: int|
            0 <= i <= j && #[trigger] paths[i] == paths[j] && forall|m: int|
                0 <= m < i ==> paths[m] != paths[j],
    decreases j,
{
    if exists|m: int| 0 <= m < j && paths[m] == paths[j] {
        let m = choose|m: int| 0 <= m < j && paths[m] == paths[j];
        lemma_first_index(paths, m);
        let i = choose|i: int|
            0 <= i <= m && #[trigger] paths[i] == paths[m] && forall|k: int|
                0 <= k < i ==> paths[k] != paths[m];
        assert(paths[i] == paths[j]);
    } else {
        assert(paths[j] == paths[j]);
    }
}

/// Law: nothing deleted and untracked is left out. For every deletion
/// whose path is not tracked, a ghost file is reported that records the
/// first deletion of that path in the walk (the most recent one, the walk
/// going newest first), with the size read for it.
pub proof fn lemma_ghosts_complete(
    files: Seq<GhostFile>,
    deletions: Seq<DeletedFile>,
    at_head: Seq<Seq<char>>,
    sizes: Seq<u64>,
    j: int,
)
    requires
        reports_ghosts(files, deletions, at_head, sizes),
        0 <= j < deletions.len(),
        !at_head.contains(deletions[j].path@),
    ensures
        exists|a: int, i: int|
            #![trigger files[a], deletions[i]]
            {
                &&& 0 <= a < files.len()
                &&& 0 <= i <= j
                &&& deletions[i].path@ == deletions[j].path@
                &&& forall|m: int| 0 <= m < i ==> deletions[m].path@ != deletions[j].path@
                &&& records_deletion(files[a], deletions[i], sizes[a])
            },
{
    let paths = deleted_paths(deletions);
    let n = deletions.len() as int;
    let pos = new_ghost_positions(at_head, paths, n);
    assert(paths[j] == deletions[j].path@);
    lemma_first_index(paths, j);
    let i = choose|i: int|
        0 <= i <= j && #[trigger] paths[i] == paths[j] && forall|m: int|
            0 <= m < i ==> paths[m] != paths[j];
    assert forall|m: int| 0 <= m < i implies deletions[m].path@ != deletions[j].path@ by {
        assert(paths[m] == deletions[m].path@);
    }
    assert forall|m: int| 0 <= m < i implies paths[m] != paths[i] by {}
    assert(is_new_ghost(at_head, paths, i));
    lemma_new_ghost_chosen(at_head, paths, n, i);
    let a = choose|a: int| 0 <= a < pos.len() && #[trigger] pos[a] == i;
    assert(records_deletion(files[a], deletions[pos[a]], sizes[a]));
    assert(deletions[i].path@ == paths[i]);
}

/// The ghost-file records of the chosen deletions: for each position in
/// `chosen`, the deletion there with the size in `sizes` at the same place.
pub fn ghost_files_from(deletions: &Vec<DeletedFile>, chosen: &Vec<usize>, sizes: &Vec<u64>) -> (res: Vec<
    GhostFile,
>)
    requires
        chosen.len() == sizes.len(),
        forall|k: int| 0 <= k < chosen.len() ==> #[trigger] chosen@[k] < deletions.len(),
    ensures
        res@.len() == chosen@.len(),
        forall|k: int|
            #![trigger res@[k]]
            0 <= k < chosen@.len() ==> records_deletion(
                res@[k],
                deletions@[chosen@[k] as int],
                sizes@[k],
            ),
{
    let mut res: Vec<GhostFile> = Vec::new();
    let mut m: usize = 0;
    while m < chosen.len()
        invariant
            m <= chosen.len(),
            chosen.len() == sizes.len(),
            forall|k: int| 0 <= k < chosen.len() ==> #[trigger] chosen@[k] < deletions.len(),
            res@.len() == m,
            forall|k: int|
                #![trigger res@[k]]
                0 <= k < m ==> records_deletion(res@[k], deletions@[chosen@[k] as int], sizes@[k]),
        decreases chosen.len() - m,
    {
        let d = &deletions[chosen[m]];
        let ghost before = res@;
        res.push(
            GhostFile {
                file_path: d.path.clone(),
                deletion_commit_hash: d.commit_hash.clone(),
                author: d.author.clone(),
                timestamp: d.timestamp,
                original_file_size_bytes: sizes[m],
            },
        );
        proof {
            assert forall|k: int|
                #![trigger res@[k]]
                0 <= k < m + 1 implies records_deletion(
                res@[k],
                deletions@[chosen@[k] as int],
                sizes@[k],
            ) by {
                if k < m {
                    assert(res@[k] == before[k]);
                }
            }
        }
        m = m + 1;
    }
    res
}

/// The ghost files of the repository at `repo_path`: every file deleted in
/// a commit of the history of HEAD (walked newest first, each commit
/// compared with its first parent) that HEAD no longer tracks, reported once,
/// at its most recent deletion, with the deleting commit's hash, author and
/// time and the deleted blob's size (0 when the blob cannot be read),
/// read for the blob id that the deletion removed. A repository without
/// HEAD has none. The diff of each commit goes from its parent's tree to
/// its own (`ParentTree` and `OwnTree` keep the two sides apart). The paths reported are pairwise
/// distinct and each hash is forty lower-case hexadecimal digits.
pub fn detect_ghost_files(repo_path: &str) -> (res: Result<Vec<GhostFile>, git2::Error>)
    ensures
        match res {
            Ok(files) => {
                &&& is_ghost_scan(files@)
                &&& forall|a: int, b: int|
                    0 <= a < b < files@.len() ==> files@[a].file_path@ != files@[b].file_path@
                &&& forall|a: int|
                    0 <= a < files@.len() ==> is_lower_hex_hash(
                        #[trigger] files@[a].deletion_commit_hash@,
                    )
            },
            Err(_) => true,
        },
{
    let repo = open_repository(repo_path)?;
    let at_head = currently_tracked_files(&repo)?;
    let ghost entries = choose|entries: Seq<TreeEntryInfo>|
        string_views(at_head@) == #[trigger] blob_paths(entries);
    let mut revwalk = new_revwalk(&repo)?;
    if revwalk_push_head(&mut revwalk).is_err() {
        let none: Vec<GhostFile> = Vec::new();
        proof {
            let no_walk = Seq::<(Seq<char>, Seq<char>, i64, Seq<DeltaInfo>)>::empty();
            let no_deletions = Seq::<DeletedFile>::empty();
            let no_sizes = Seq::<u64>::empty();
            assert(new_ghost_positions(blob_paths(entries), deleted_paths(no_deletions), 0) =~= seq![]);
            assert(reports_ghosts(none@, no_deletions, blob_paths(entries), no_sizes));
            assert(deletion_views(no_deletions) =~= walk_deletions(no_walk));
            let no_reads = Seq::<(git2::Oid, u64)>::empty();
            assert(read_sizes(no_reads) =~= no_sizes);
            assert(reads_blobs_of(no_reads, walk_deleted_ids(no_walk), seq![]));
        }
        return Ok(none);
    }
    revwalk_sort_by_time(&mut revwalk)?;
    let items = revwalk_items(revwalk);

    let mut deletions: Vec<DeletedFile> = Vec::new();
    let mut old_ids: Vec<git2::Oid> = Vec::new();
    let ghost mut history: Seq<(Seq<char>, Seq<char>, i64, Seq<DeltaInfo>)> = seq![];
    let ghost mut has_parents: Seq<bool> = seq![];
    for item in items
        invariant
            history.len() == count_true(has_parents),
            old_ids@.len() == deletions@.len(),
            old_ids@ == walk_deleted_ids(history),
            deletion_views(deletions@) == walk_deletions(history),
            forall|k: int| 0 <= k < history.len() ==> is_lower_hex_hash(#[trigger] history[k].0),
    {
        let oid = item?;
        let commit = find_commit(&repo, oid)?;
        let has_parent = commit_parent_count(&commit) > 0;
        let ghost before_flags = has_parents;
        proof {
            has_parents = has_parents.push(has_parent);
            assert(has_parents.drop_last() =~= before_flags);
        }
        if has_parent {
            let parent = commit_parent(&commit, 0)?;
            let old_tree = parent_tree(&parent)?;
            let new_tree = commit_tree(&commit)?;
            let diff = diff_trees(&repo, &old_tree, &new_tree)?;
            let deltas = diff_deltas(&diff);
            let hash = oid_hex(oid);
            let author = author_name(&commit);
            let timestamp = time_seconds(commit_time(&commit));
            push_commit_deletions(&deltas, &hash, &author, timestamp, &mut deletions, &mut old_ids);
            proof {
                let before = history;
                history = history.push((hash@, author@, timestamp, deltas@));
                assert(history.drop_last() =~= before);
                assert(walk_deleted_ids(history) == walk_deleted_ids(before) + diff_deleted_ids(deltas@));
                assert forall|k: int| 0 <= k < history.len() implies is_lower_hex_hash(
                    #[trigger] history[k].0,
                ) by {
                    if k < before.len() {
                        assert(history[k] == before[k]);
                    }
                }
            }
        }
    }
    let paths = paths_of(&deletions);
    let chosen = select_new_ghosts(&at_head, &paths);
    let ghost t = string_views(at_head@);
    let ghost positions = new_ghost_positions(t, string_views(paths@), paths@.len() as int);
    proof {
        lemma_new_ghosts_distinct(t, string_views(paths@), paths@.len() as int);
        assert(string_views(paths@) == deleted_paths(deletions@));
        assert forall|k: int| 0 <= k < chosen@.len() implies #[trigger] chosen@[k]
            < deletions@.len() by {
            assert(chosen@.map_values(|j: usize| j as int)[k] == chosen@[k] as int);
            assert(0 <= positions[k] < paths@.len());
        }
    }
    let ids = blob_ids_of(&old_ids, &chosen);
    let mut reads: Vec<(git2::Oid, u64)> = Vec::new();
    let mut sizes: Vec<u64> = Vec::new();
    let mut m: usize = 0;
    while m < ids.len()
        invariant
            m <= ids.len(),
            reads@.len() == m,
            sizes@ == read_sizes(reads@),
            forall|k: int| 0 <= k < m ==> (#[trigger] reads@[k]).0 == ids@[k],
        decreases ids.len() - m,
    {
        let read = read_blob_size(&repo, ids[m]);
        let ghost before = reads@;
        sizes.push(read.1);
        reads.push(read);
        proof {
            assert(read_sizes(reads@) =~= read_sizes(before).push(read.1));
            assert forall|k: int| 0 <= k < m + 1 implies (#[trigger] reads@[k]).0 == ids@[k] by {
                if k < m {
                    assert(reads@[k] == before[k]);
                }
            }
        }
        m = m + 1;
    }
    let ghosts = ghost_files_from(&deletions, &chosen, &sizes);
    proof {
        assert forall|k: int| 0 <= k < positions.len() implies #[trigger] positions[k]
            == chosen@[k] as int by {
            assert(chosen@.map_values(|j: usize| j as int)[k] == chosen@[k] as int);
        }
        assert(reports_ghosts(ghosts@, deletions@, t, sizes@));
        assert(reports_ghosts(ghosts@, deletions@, blob_paths(entries), read_sizes(reads@)));
        assert forall|k: int| 0 <= k < reads@.len() implies (#[trigger] reads@[k]).0
            == walk_deleted_ids(history)[positions[k]] by {
            assert(ids@[k] == old_ids@[chosen@[k] as int]);
        }
        assert(reads_blobs_of(reads@, walk_deleted_ids(history), positions));
        lemma_reported_ghosts(ghosts@, deletions@, t, sizes@);
        lemma_walk_hashes(history);
        assert forall|a: int| 0 <= a < ghosts@.len() implies is_lower_hex_hash(
            #[trigger] ghosts@[a].deletion_commit_hash@,
        ) by {
            let k = positions[a];
            assert(records_deletion(ghosts@[a], deletions@[k], sizes@[a]));
            assert(deletion_views(deletions@)[k] == walk_deletions(history)[k]);
            assert(is_lower_hex_hash(walk_deletions(history)[k].1));
        }
    }
    Ok(ghosts)
}

/// A record that `detect_ghost_files` reported some files for a path.
/// Only `detect_ghost_files_recorded` makes one, from the detector's own
/// answer.
pub struct GhostFilesReport {
    path: Ghost<Seq<char>>,
    files: Ghost<Seq<GhostFile>>,
}

impl GhostFilesReport {
    /// The path the detector was run on.
    pub closed spec fn path(self) -> Seq<char> {
        self.path@
    }

    /// The files the detector reported.
    pub closed spec fn files(self) -> Seq<GhostFile> {
        self.files@
    }
}

/// `detect_ghost_files` on `repo_path`, with a record of its answer: on
/// success, the files it reported and a `GhostFilesReport` for that path
/// holding the same files.
pub fn detect_ghost_files_recorded(repo_path: &str) -> (res: Result<
    (Vec<GhostFile>, GhostFilesReport),
    git2::Error,
>)
    ensures
        res matches Ok((files, report)) ==> {
            &&& report.path() == repo_path@
            &&& report.files() == files@
            &&& is_ghost_scan(files@)
            &&& forall|a: int, b: int|
                0 <= a < b < files@.len() ==> files@[a].file_path@ != files@[b].file_path@
            &&& forall|a: int|
                0 <= a < files@.len() ==> is_lower_hex_hash(
                    #[trigger] files@[a].deletion_commit_hash@,
                )
        },
{
    let files = detect_ghost_files(repo_path)?;
    let report = GhostFilesReport { path: Ghost(repo_path@), files: Ghost(files@) };
    Ok((files, report))
}

} // verus!
