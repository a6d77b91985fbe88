//! The calls into `git2` (libgit2) that the detectors make. What they read
//! comes from the repository on disk, so apart from a few facts that the
//! source of `git2` and libgit2 shows, nothing is claimed of their results;
//! the detectors state what holds whatever came back.
use vstd::prelude::*;

use crate::detectors::orphan_commits::{is_hex_digit, is_lower_hex_hash};

verus! {

#[verifier::external_type_specification]
#[verifier::external_body]
pub struct ExRepository(git2::Repository);

#[verifier::external_type_specification]
#[verifier::external_body]
pub struct ExGitError(git2::Error);

#[verifier::external_type_specification]
#[verifier::external_body]
pub struct ExOid(git2::Oid);

#[verifier::external_type_specification]
#[verifier::external_body]
pub struct ExTime(git2::Time);

#[verifier::external_type_specification]
#[verifier::external_body]
pub struct ExCommit<'repo>(git2::Commit<'repo>);

#[verifier::external_type_specification]
#[verifier::external_body]
pub struct ExTree<'repo>(git2::Tree<'repo>);

#[verifier::external_type_specification]
#[verifier::external_body]
pub struct ExDiff<'repo>(git2::Diff<'repo>);

#[verifier::external_type_specification]
#[verifier::external_body]
pub struct ExRevwalk<'repo>(git2::Revwalk<'repo>);

#[verifier::external_type_specification]
#[verifier::external_body]
pub struct ExBlob<'repo>(git2::Blob<'repo>);

#[verifier::external_type_specification]
#[verifier::external_body]
pub struct ExBranch<'repo>(git2::Branch<'repo>);

#[verifier::external_type_specification]
#[verifier::external_body]
pub struct ExBranches<'repo>(git2::Branches<'repo>);

#[verifier::external_type_specification]
#[verifier::external_body]
pub struct ExBranchType(git2::BranchType);

#[verifier::external_type_specification]
#[verifier::external_body]
pub struct ExReference<'repo>(git2::Reference<'repo>);

#[verifier::external_type_specification]
#[verifier::external_body]
pub struct ExSignature<'a>(git2::Signature<'a>);

/// One node of a tree walk, as plain values: the directory it lies in
/// (ending with `/`, empty at the root), its name when that is UTF-8, and
/// whether it is a blob (a file).
pub struct TreeEntryInfo {
    pub dir: String,
    pub name: Option<String>,
    pub is_blob: bool,
}

/// One change of a diff, as plain values: whether the file was deleted, the
/// old path when there is one and it is UTF-8, and the id of the old blob.
pub struct DeltaInfo {
    pub deleted: bool,
    pub old_path: Option<String>,
    pub old_id: git2::Oid,
}

/// `git2::Repository::open`: opens the repository at `path`. Whether it
/// succeeds depends on what is on disk; nothing is claimed.
#[verifier::external_body]
pub fn open_repository(path: &str) -> (res: Result<git2::Repository, git2::Error>) {
    git2::Repository::open(path)
}

/// `Repository::head`: the reference HEAD points to, if it resolves.
#[verifier::external_body]
pub fn repository_head(repo: &git2::Repository) -> (res: Result<git2::Reference<'_>, git2::Error>) {
    repo.head()
}

/// `Reference::peel_to_commit`: the commit a reference leads to.
#[verifier::external_body]
pub fn peel_to_commit<'r>(reference: &git2::Reference<'r>) -> (res: Result<git2::Commit<'r>, git2::Error>) {
    reference.peel_to_commit()
}

/// A parent of a commit, as `Commit::parent` gave it. Only `commit_parent`
/// makes one, so a diff cannot take a commit's own tree for its parent's.
pub struct ParentCommit<'r> {
    commit: git2::Commit<'r>,
}

/// The tree of a parent commit: the old side of a diff.
pub struct ParentTree<'r> {
    tree: git2::Tree<'r>,
}

/// The tree of a commit itself: the new side of a diff, or the tree of
/// HEAD.
pub struct OwnTree<'r> {
    tree: git2::Tree<'r>,
}

/// `Commit::tree`: the tree of a commit.
#[verifier::external_body]
pub fn commit_tree<'r>(commit: &git2::Commit<'r>) -> (res: Result<OwnTree<'r>, git2::Error>) {
    commit.tree().map(|tree| OwnTree { tree })
}

/// `Commit::tree` of a parent commit.
#[verifier::external_body]
pub fn parent_tree<'r>(parent: &ParentCommit<'r>) -> (res: Result<ParentTree<'r>, git2::Error>) {
    parent.commit.tree().map(|tree| ParentTree { tree })
}

/// `Tree::walk` in pre-order over the whole tree, each visited entry turned
/// into a `TreeEntryInfo` (its directory, its name through `TreeEntry::name`
/// when that is UTF-8, and whether `TreeEntry::kind` is a blob). The entries
/// depend on the repository; nothing is claimed of them.
#[verifier::external_body]
pub fn tree_entries(tree: &OwnTree<'_>) -> (res: Result<Vec<TreeEntryInfo>, git2::Error>) {
    let mut entries: Vec<TreeEntryInfo> = Vec::new();
    tree.tree.walk(git2::TreeWalkMode::PreOrder, |dir, entry| {
        entries.push(TreeEntryInfo {
            dir: dir.to_string(),
            name: entry.name().ok().map(|n| n.to_string()),
            is_blob: entry.kind() == Some(git2::ObjectType::Blob),
        });
        git2::TreeWalkResult::Ok
    })?;
    Ok(entries)
}

/// `Repository::revwalk`: a new history walk.
#[verifier::external_body]
pub fn new_revwalk(repo: &git2::Repository) -> (res: Result<git2::Revwalk<'_>, git2::Error>) {
    repo.revwalk()
}

/// `Revwalk::push_head`: starts the walk at HEAD; fails when there is none.
#[verifier::external_body]
pub fn revwalk_push_head(walk: &mut git2::Revwalk<'_>) -> (res: Result<(), git2::Error>) {
    walk.push_head()
}

/// `Revwalk::set_sorting` with `Sort::TIME`: newest commits first.
#[verifier::external_body]
pub fn revwalk_sort_by_time(walk: &mut git2::Revwalk<'_>) -> (res: Result<(), git2::Error>) {
    walk.set_sorting(git2::Sort::TIME)
}

/// The items of the walk (`Revwalk` as an iterator), collected in order.
#[verifier::external_body]
pub fn revwalk_items(walk: git2::Revwalk<'_>) -> (res: Vec<Result<git2::Oid, git2::Error>>) {
    walk.collect()
}

/// `Repository::find_commit`: the commit with the given id.
#[verifier::external_body]
pub fn find_commit(repo: &git2::Repository, oid: git2::Oid) -> (res: Result<git2::Commit<'_>, git2::Error>) {
    repo.find_commit(oid)
}

/// `Commit::parent_count`.
#[verifier::external_body]
pub fn commit_parent_count(commit: &git2::Commit<'_>) -> (res: usize) {
    commit.parent_count()
}

/// `Commit::parent`: the parent at position `i`.
#[verifier::external_body]
pub fn commit_parent<'r>(commit: &git2::Commit<'r>, i: usize) -> (res: Result<ParentCommit<'r>, git2::Error>) {
    commit.parent(i).map(|commit| ParentCommit { commit })
}

/// `Commit::id`.
#[verifier::external_body]
pub fn commit_id(commit: &git2::Commit<'_>) -> (res: git2::Oid) {
    commit.id()
}

/// `Commit::time`: the committer time.
#[verifier::external_body]
pub fn commit_time(commit: &git2::Commit<'_>) -> (res: git2::Time) {
    commit.time()
}

/// `Time::seconds`: seconds since the Unix epoch.
#[verifier::external_body]
pub fn time_seconds(time: git2::Time) -> (res: i64) {
    time.seconds()
}

/// `Commit::author`: the author's signature.
#[verifier::external_body]
pub fn commit_author<'c>(commit: &'c git2::Commit<'_>) -> (res: git2::Signature<'c>) {
    commit.author()
}

/// `Signature::name`, when it is UTF-8 (`None` when `git2` reports an
/// error for it).
#[verifier::external_body]
pub fn signature_name(signature: &git2::Signature<'_>) -> (res: Option<String>) {
    signature.name().ok().map(|n| n.to_string())
}

/// `Commit::summary`: the first paragraph of the message; `None` when there
/// is none or it is not UTF-8.
#[verifier::external_body]
pub fn commit_summary(commit: &git2::Commit<'_>) -> (res: Option<String>) {
    commit.summary().ok().flatten().map(|s| s.to_string())
}

/// `Repository::diff_tree_to_tree` from a parent's tree `old` to a
/// commit's own tree `new`, without options.
#[verifier::external_body]
pub fn diff_trees<'r>(
    repo: &'r git2::Repository,
    old: &ParentTree<'_>,
    new: &OwnTree<'_>,
) -> (res: Result<git2::Diff<'r>, git2::Error>) {
    repo.diff_tree_to_tree(Some(&old.tree), Some(&new.tree), None)
}

/// `Diff::deltas`, each delta turned into a `DeltaInfo`: whether its
/// `status` is `Delta::Deleted`, the old file's path when it is UTF-8, and
/// the old file's id.
#[verifier::external_body]
pub fn diff_deltas(diff: &git2::Diff<'_>) -> (res: Vec<DeltaInfo>) {
    diff.deltas().map(|d| DeltaInfo {
        deleted: d.status() == git2::Delta::Deleted,
        old_path: d.old_file().path().and_then(|p| p.to_str()).map(|s| s.to_string()),
        old_id: d.old_file().id(),
    }).collect()
}

/// `Repository::find_blob`: the blob with the given id.
#[verifier::external_body]
pub fn find_blob(repo: &git2::Repository, oid: git2::Oid) -> (res: Result<git2::Blob<'_>, git2::Error>) {
    repo.find_blob(oid)
}

/// `Blob::size`: the size of the content in bytes.
#[verifier::external_body]
pub fn blob_size(blob: &git2::Blob<'_>) -> (res: usize) {
    blob.size()
}

/// `Oid` through `Display` (`to_string`): libgit2's `git_oid_tostr` writes
/// the forty digits of a SHA-1 id from the table `0123456789abcdef`.
#[verifier::external_body]
pub fn oid_hex(oid: git2::Oid) -> (res: String)
    ensures
        is_lower_hex_hash(res@),
{
    oid.to_string()
}

/// `Oid::from_str`: libgit2's `git_oid__fromstrn` accepts one to forty
/// hexadecimal digits and refuses anything else.
#[verifier::external_body]
pub fn oid_from_hex(text: &str) -> (res: Result<git2::Oid, git2::Error>)
    ensures
        res is Ok <==> (1 <= text@.len() <= 40 && forall|i: int|
            0 <= i < text@.len() ==> is_hex_digit(#[trigger] text@[i])),
{
    git2::Oid::from_str(text)
}

/// `Repository::branches` over local and remote branches.
#[verifier::external_body]
pub fn repository_branches(repo: &git2::Repository) -> (res: Result<git2::Branches<'_>, git2::Error>) {
    repo.branches(None)
}

/// The items of a branch listing (`Branches` as an iterator), in order,
/// each keeping the branch and dropping its type.
#[verifier::external_body]
pub fn branch_items(branches: git2::Branches<'_>) -> (res: Vec<Result<git2::Branch<'_>, git2::Error>>) {
    branches.map(|item| item.map(|(branch, _)| branch)).collect()
}

/// `Branch::name`: `Ok(None)` when the name is not UTF-8.
#[verifier::external_body]
pub fn branch_name(branch: &git2::Branch<'_>) -> (res: Result<Option<String>, git2::Error>) {
    branch.name().map(|n| n.map(|s| s.to_string()))
}

/// `Branch::get`: the reference behind the branch.
#[verifier::external_body]
pub fn branch_reference<'b, 'r>(branch: &'b git2::Branch<'r>) -> (res: &'b git2::Reference<'r>) {
    branch.get()
}

/// `git2::Error` through `Display`: its message, class and code. The error
/// is opaque here, so nothing is claimed of the text.
#[verifier::external_body]
pub fn git_error_text(e: &git2::Error) -> (res: String) {
    e.to_string()
}

} // verus!
