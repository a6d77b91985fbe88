//! The `clean --dry-run` preview: what a clean would delete, without
//! touching the repository.
use vstd::prelude::*;

use crate::cache::{cache_failure_message, CacheError};
use crate::models::{OrphanCommit, ScanResults, ZombieBranch};
use crate::paint::{
    bold_red, bold_yellow, lemma_closed_concat, lemma_strip_painted, lemma_strip_plain, no_escape,
    open_after, paint_bold_red, paint_bold_yellow, painted, strip_escapes,
};
use crate::text::{join_lines, join_with_newlines, string_views};

verus! {

/// `[dry-run] would delete branch: `
pub open spec fn branch_line_prefix() -> Seq<char> {
    seq![
        '[', 'd', 'r', 'y', '-', 'r', 'u', 'n', ']', ' ', 'w', 'o', 'u', 'l', 'd', ' ', 'd', 'e',
        'l', 'e', 't', 'e', ' ', 'b', 'r', 'a', 'n', 'c', 'h', ':', ' ',
    ]
}

/// `[dry-run] would remove orphan commit: `
pub open spec fn orphan_line_prefix() -> Seq<char> {
    seq![
        '[', 'd', 'r', 'y', '-', 'r', 'u', 'n', ']', ' ', 'w', 'o', 'u', 'l', 'd', ' ', 'r', 'e',
        'm', 'o', 'v', 'e', ' ', 'o', 'r', 'p', 'h', 'a', 'n', ' ', 'c', 'o', 'm', 'm', 'i', 't',
        ':', ' ',
    ]
}

/// The line that announces the deletion of a zombie branch.
pub open spec fn branch_line(z: ZombieBranch) -> Seq<char> {
    branch_line_prefix() + z.branch_name@
}

/// The line that announces the removal of an orphan commit.
pub open spec fn orphan_line(o: OrphanCommit) -> Seq<char> {
    orphan_line_prefix() + o.commit_hash@
}

/// The lines of the plan, colours aside: one per zombie branch, in order,
/// then one per orphan commit, in order. Ghost files have no clean action.
pub open spec fn plain_plan_lines(zombies: Seq<ZombieBranch>, orphans: Seq<OrphanCommit>) -> Seq<
    Seq<char>,
> {
    zombies.map_values(|z: ZombieBranch| branch_line(z)) + orphans.map_values(
        |o: OrphanCommit| orphan_line(o),
    )
}

/// `res` is what the `colored` wrapper made of `text` in the style `code`:
/// never shorter, and painted when the text holds no escape character.
pub open spec fn painted_as(text: Seq<char>, code: Seq<char>, res: Seq<char>) -> bool {
    &&& res.len() >= text.len()
    &&& no_escape(text) ==> painted(text, code, res)
}

/// `lines` are the plan's lines as written: the branch lines painted bold
/// yellow, the orphan lines bold red.
pub open spec fn painted_plan_lines(
    lines: Seq<Seq<char>>,
    zombies: Seq<ZombieBranch>,
    orphans: Seq<OrphanCommit>,
) -> bool {
    &&& lines.len() == zombies.len() + orphans.len()
    &&& forall|i: int|
        0 <= i < zombies.len() ==> #[trigger] painted_as(
            branch_line(zombies[i]),
            bold_yellow(),
            lines[i],
        )
    &&& forall|j: int|
        0 <= j < orphans.len() ==> #[trigger] painted_as(
            orphan_line(orphans[j]),
            bold_red(),
            lines[zombies.len() + j],
        )
}

/// `s` is the plan for these zombie branches and orphan commits: its
/// painted lines joined by line feeds.
pub open spec fn is_clean_plan(s: Seq<char>, zombies: Seq<ZombieBranch>, orphans: Seq<OrphanCommit>) -> bool {
    exists|lines: Seq<Seq<char>>|
        #[trigger] painted_plan_lines(lines, zombies, orphans) && s == join_lines(lines)
}

/// The dry-run plan of `results`: one line `[dry-run] would delete branch:
/// <name>` (bold yellow) per zombie branch, then one line `[dry-run] would
/// remove orphan commit: <hash>` (bold red) per orphan commit, both in the
/// order of `results`, joined by line feeds. Ghost files are left out. The
/// text is empty exactly when there is neither a zombie branch nor an orphan
/// commit.
pub fn format_clean_dry_run(results: &ScanResults) -> (res: String)
    ensures
        is_clean_plan(res@, results.zombie_branches@, results.orphan_commits@),
        res@.len() == 0 <==> (results.zombie_branches@.len() == 0
            && results.orphan_commits@.len() == 0),
{
    let ghost zombies = results.zombie_branches@;
    let ghost orphans = results.orphan_commits@;
    let mut lines: Vec<String> = Vec::new();
    let mut i: usize = 0;
    while i < results.zombie_branches.len()
        invariant
            zombies == results.zombie_branches@,
            i <= zombies.len(),
            lines@.len() == i,
            forall|k: int|
                0 <= k < i ==> #[trigger] painted_as(
                    branch_line(zombies[k]),
                    bold_yellow(),
                    lines@[k]@,
                ),
        decreases zombies.len() - i,
    {
        let mut text = "[dry-run] would delete branch: ".to_owned();
        text.append(results.zombie_branches[i].branch_name.as_str());
        proof {
            reveal_strlit("[dry-run] would delete branch: ");
            assert("[dry-run] would delete branch: "@ =~= branch_line_prefix());
            assert(text@ =~= branch_line(zombies[i as int]));
        }
        let line = paint_bold_yellow(text.as_str());
        lines.push(line);
        i = i + 1;
    }
    let mut j: usize = 0;
    while j < results.orphan_commits.len()
        invariant
            zombies == results.zombie_branches@,
            orphans == results.orphan_commits@,
            j <= orphans.len(),
            lines@.len() == zombies.len() + j,
            forall|k: int|
                0 <= k < zombies.len() ==> #[trigger] painted_as(
                    branch_line(zombies[k]),
                    bold_yellow(),
                    lines@[k]@,
                ),
            forall|k: int|
                0 <= k < j ==> #[trigger] painted_as(
                    orphan_line(orphans[k]),
                    bold_red(),
                    lines@[zombies.len() + k]@,
                ),
        decreases orphans.len() - j,
    {
        let mut text = "[dry-run] would remove orphan commit: ".to_owned();
        text.append(results.orphan_commits[j].commit_hash.as_str());
        proof {
            reveal_strlit("[dry-run] would remove orphan commit: ");
            assert("[dry-run] would remove orphan commit: "@ =~= orphan_line_prefix());
            assert(text@ =~= orphan_line(orphans[j as int]));
        }
        let line = paint_bold_red(text.as_str());
        lines.push(line);
        j = j + 1;
    }
    let res = join_with_newlines(&lines);
    proof {
        let views = string_views(lines@);
        assert(painted_plan_lines(views, zombies, orphans)) by {
            assert forall|k: int| 0 <= k < zombies.len() implies #[trigger] painted_as(
                branch_line(zombies[k]),
                bold_yellow(),
                views[k],
            ) by {
                assert(views[k] == lines@[k]@);
            }
            assert forall|k: int| 0 <= k < orphans.len() implies #[trigger] painted_as(
                orphan_line(orphans[k]),
                bold_red(),
                views[zombies.len() + k],
            ) by {
                assert(views[zombies.len() + k] == lines@[zombies.len() + k]@);
            }
        }
        if views.len() > 0 {
            if zombies.len() > 0 {
                assert(painted_as(branch_line(zombies[0]), bold_yellow(), views[0]));
            } else {
                let j0: int = 0;
                assert(painted_as(orphan_line(orphans[j0]), bold_red(), views[zombies.len() + j0]));
                assert(views[0] == views[zombies.len() + j0]);
            }
            lemma_join_nonempty(views);
        }
    }
    res
}

/// Joining at least one line, the first of them not empty, gives a text that
/// is not empty.
proof fn lemma_join_nonempty(lines: Seq<Seq<char>>)
    requires
        lines.len() > 0,
        lines[0].len() > 0,
    ensures
        join_lines(lines).len() > 0,
    decreases lines.len(),
{
    if lines.len() > 1 {
        lemma_join_nonempty(lines.drop_last());
    }
}

/// Stripping a join of lines that each leave no sequence open strips line
/// by line.
proof fn lemma_strip_join(lines: Seq<Seq<char>>, plain: Seq<Seq<char>>)
    requires
        lines.len() == plain.len(),
        forall|i: int|
            0 <= i < lines.len() ==> strip_escapes(#[trigger] lines[i]) == plain[i] && !open_after(
                lines[i],
                false,
            ),
    ensures
        strip_escapes(join_lines(lines)) == join_lines(plain),
        !open_after(join_lines(lines), false),
    decreases lines.len(),
{
    if lines.len() == 0 {
    } else if lines.len() == 1 {
        assert(strip_escapes(lines[0]) == plain[0]);
    } else {
        lemma_strip_join(lines.drop_last(), plain.drop_last());
        let nl = seq!['\n'];
        assert(no_escape(nl));
        lemma_strip_plain(nl);
        let a = join_lines(lines.drop_last());
        lemma_closed_concat(a, nl);
        lemma_closed_concat(a + nl, lines.last());
        assert(strip_escapes(lines.last()) == plain.last());
    }
}

/// Law: when no branch name and no commit hash holds an escape character,
/// the plan, with its colour codes taken out, is exactly the plain plan
/// lines joined by line feeds; ghost files play no part in it.
pub proof fn lemma_clean_plan_visible_text(
    s: Seq<char>,
    zombies: Seq<ZombieBranch>,
    orphans: Seq<OrphanCommit>,
)
    requires
        is_clean_plan(s, zombies, orphans),
        forall|i: int| 0 <= i < zombies.len() ==> no_escape(#[trigger] zombies[i].branch_name@),
        forall|j: int| 0 <= j < orphans.len() ==> no_escape(#[trigger] orphans[j].commit_hash@),
    ensures
        strip_escapes(s) == join_lines(plain_plan_lines(zombies, orphans)),
{
    let lines = choose|lines: Seq<Seq<char>>|
        #[trigger] painted_plan_lines(lines, zombies, orphans) && s == join_lines(lines);
    let plain = plain_plan_lines(zombies, orphans);
    assert(no_escape(branch_line_prefix()));
    assert(no_escape(orphan_line_prefix()));
    assert forall|i: int| 0 <= i < lines.len() implies strip_escapes(#[trigger] lines[i])
        == plain[i] && !open_after(lines[i], false) by {
        if i < zombies.len() {
            let t = branch_line(zombies[i]);
            assert(no_escape(t)) by {
                assert forall|k: int| 0 <= k < t.len() implies t[k] != '\x1b' by {
                    if k >= branch_line_prefix().len() {
                        assert(t[k] == zombies[i].branch_name@[k - branch_line_prefix().len()]);
                    }
                }
            }
            assert(painted_as(t, bold_yellow(), lines[i]));
            lemma_strip_painted(t, bold_yellow(), lines[i]);
            assert(plain[i] == t);
        } else {
            let j = i - zombies.len();
            let t = orphan_line(orphans[j]);
            assert(no_escape(t)) by {
                assert forall|k: int| 0 <= k < t.len() implies t[k] != '\x1b' by {
                    if k >= orphan_line_prefix().len() {
                        assert(t[k] == orphans[j].commit_hash@[k - orphan_line_prefix().len()]);
                    }
                }
            }
            assert(painted_as(t, bold_red(), lines[zombies.len() + j]));
            lemma_strip_painted(t, bold_red(), lines[i]);
            assert(plain[i] == t);
        }
    }
    lemma_strip_join(lines, plain);
}

/// The text that `clean --dry-run` prints for the cached scan `loaded`: the
/// plan followed by a line feed, or nothing when the plan is empty. A cache
/// that could not be loaded gives the message that the report command gives
/// for it.
pub fn run_clean_dry_run(loaded: Result<ScanResults, CacheError>) -> (res: Result<String, String>)
    ensures
        match (loaded, res) {
            (Ok(results), Ok(out)) => exists|plan: Seq<char>|
                #[trigger] is_clean_plan(plan, results.zombie_branches@, results.orphan_commits@)
                    && if plan.len() == 0 {
                    out@ == plan
                } else {
                    out@ == plan + seq!['\n']
                },
            (Err(e), Err(msg)) => cache_failure_message(e, msg@),
            _ => false,
        },
{
    match loaded {
        Ok(results) => {
            let mut out = format_clean_dry_run(&results);
            let ghost plan = out@;
            if out.unicode_len() > 0 {
                out.push('\n');
            }
            proof {
                assert(is_clean_plan(plan, results.zombie_branches@, results.orphan_commits@));
            }
            Ok(out)
        },
        Err(e) => Err(crate::cache::cache_failure_text(&e)),
    }
}

} // verus!
