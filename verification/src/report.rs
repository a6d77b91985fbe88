//! The summary table of a scan: how many ghost files, zombie branches and
//! orphan commits were found.
use vstd::prelude::*;

use crate::models::ScanResults;
use crate::paint::{
    bold_cyan, bold_red, bold_yellow, cyan, lemma_closed_concat, lemma_strip_painted,
    lemma_strip_plain, no_escape, open_after, paint_bold_cyan, paint_bold_red, paint_bold_yellow,
    paint_cyan, paint_red, paint_yellow, painted, print_text, strip_escapes, red, yellow, Printed,
};
use crate::text::{decimal, digit_char, pad_right, pad_to_width, u64_to_decimal};

verus! {

/// The width of the category column.
pub open spec fn label_width() -> nat {
    25
}

/// The rule line of the table: forty dashes.
pub open spec fn separator() -> Seq<char> {
    Seq::new(40, |i: int| '-')
}

/// `Category`, the heading of the first column.
pub open spec fn category_heading() -> Seq<char> {
    seq!['C', 'a', 't', 'e', 'g', 'o', 'r', 'y']
}

/// `Count`, the heading of the second column.
pub open spec fn count_heading() -> Seq<char> {
    seq!['C', 'o', 'u', 'n', 't']
}

/// `Ghost Files`.
pub open spec fn ghost_label() -> Seq<char> {
    seq!['G', 'h', 'o', 's', 't', ' ', 'F', 'i', 'l', 'e', 's']
}

/// `Zombie Branches`.
pub open spec fn zombie_label() -> Seq<char> {
    seq!['Z', 'o', 'm', 'b', 'i', 'e', ' ', 'B', 'r', 'a', 'n', 'c', 'h', 'e', 's']
}

/// `Orphan Commits`.
pub open spec fn orphan_label() -> Seq<char> {
    seq!['O', 'r', 'p', 'h', 'a', 'n', ' ', 'C', 'o', 'm', 'm', 'i', 't', 's']
}

/// A table row: the (padded) label, a space, the count and a line feed.
pub open spec fn table_row(label: Seq<char>, count: Seq<char>) -> Seq<char> {
    label + seq![' '] + count + seq!['\n']
}

/// The rule, the heading row and the rule again.
pub open spec fn table_head() -> Seq<char> {
    separator() + seq!['\n'] + table_row(pad_right(category_heading(), label_width()), count_heading())
        + separator() + seq!['\n']
}

/// The closing rule.
pub open spec fn table_foot() -> Seq<char> {
    separator() + seq!['\n']
}

/// The table with its three rows given as they were written.
pub open spec fn table_with_rows(r1: Seq<char>, r2: Seq<char>, r3: Seq<char>) -> Seq<char> {
    table_head() + r1 + r2 + r3 + table_foot()
}

/// The table as it reads on screen, colours aside, for the given counts.
pub open spec fn plain_report(ghosts: nat, zombies: nat, orphans: nat) -> Seq<char> {
    table_with_rows(
        table_row(pad_right(ghost_label(), label_width()), decimal(ghosts)),
        table_row(pad_right(zombie_label(), label_width()), decimal(zombies)),
        table_row(pad_right(orphan_label(), label_width()), decimal(orphans)),
    )
}

/// `s` is the report for the given counts: the plain table in which each
/// row's padded label is painted bold (cyan, yellow, red) and its count in
/// the same colour.
pub open spec fn is_report(s: Seq<char>, ghosts: nat, zombies: nat, orphans: nat) -> bool {
    exists|gl: Seq<char>, gc: Seq<char>, zl: Seq<char>, zc: Seq<char>, ol: Seq<char>, oc: Seq<char>|
        #![trigger painted(pad_right(ghost_label(), label_width()), bold_cyan(), gl), painted(decimal(ghosts), cyan(), gc), painted(pad_right(zombie_label(), label_width()), bold_yellow(), zl), painted(decimal(zombies), yellow(), zc), painted(pad_right(orphan_label(), label_width()), bold_red(), ol), painted(decimal(orphans), red(), oc)]
        {
            &&& painted(pad_right(ghost_label(), label_width()), bold_cyan(), gl)
            &&& painted(decimal(ghosts), cyan(), gc)
            &&& painted(pad_right(zombie_label(), label_width()), bold_yellow(), zl)
            &&& painted(decimal(zombies), yellow(), zc)
            &&& painted(pad_right(orphan_label(), label_width()), bold_red(), ol)
            &&& painted(decimal(orphans), red(), oc)
            &&& s == table_with_rows(table_row(gl, gc), table_row(zl, zc), table_row(ol, oc))
        }
}

/// The summary table of `results`: a rule of forty dashes, the heading row
/// (`Category` padded to 25 characters, a space, `Count`), a rule, one row per
/// category (label padded to 25 characters, a space, the number of entries)
/// and a closing rule, each line ended by a line feed. Ghost files are shown
/// in cyan, zombie branches in yellow and orphan commits in red, the labels
/// in bold.
pub fn format_report(results: &ScanResults) -> (res: String)
    ensures
        is_report(
            res@,
            results.ghost_files@.len(),
            results.zombie_branches@.len(),
            results.orphan_commits@.len(),
        ),
{
    let mut out = table_head_text();

    let gl = paint_bold_cyan(pad_to_width("Ghost Files", 25).as_str());
    let gc = paint_cyan(u64_to_decimal(results.ghost_files.len() as u64).as_str());
    push_row(&mut out, &gl, &gc);

    let zl = paint_bold_yellow(pad_to_width("Zombie Branches", 25).as_str());
    let zc = paint_yellow(u64_to_decimal(results.zombie_branches.len() as u64).as_str());
    push_row(&mut out, &zl, &zc);

    let ol = paint_bold_red(pad_to_width("Orphan Commits", 25).as_str());
    let oc = paint_red(u64_to_decimal(results.orphan_commits.len() as u64).as_str());
    push_row(&mut out, &ol, &oc);

    push_separator_line(&mut out);

    proof {
        reveal_strlit("Ghost Files");
        reveal_strlit("Zombie Branches");
        reveal_strlit("Orphan Commits");
        assert("Ghost Files"@ =~= ghost_label());
        assert("Zombie Branches"@ =~= zombie_label());
        assert("Orphan Commits"@ =~= orphan_label());
        let g = results.ghost_files@.len();
        let z = results.zombie_branches@.len();
        let o = results.orphan_commits@.len();
        lemma_report_pieces_plain(g, z, o);
        assert(out@ =~= table_with_rows(table_row(gl@, gc@), table_row(zl@, zc@), table_row(ol@, oc@)));
        lemma_is_report_intro(out@, g, z, o, gl@, gc@, zl@, zc@, ol@, oc@);
    }
    out
}

/// The rule, heading row and rule that open the table.
fn table_head_text() -> (s: String)
    ensures
        s@ == table_head(),
{
    let mut out = String::new();
    push_separator_line(&mut out);
    let heading = pad_to_width("Category", 25);
    let count = "Count".to_owned();
    push_row(&mut out, &heading, &count);
    push_separator_line(&mut out);
    proof {
        reveal_strlit("Category");
        reveal_strlit("Count");
        assert("Category"@ =~= category_heading());
        assert("Count"@ =~= count_heading());
        assert(out@ =~= table_head());
    }
    out
}

/// Appends the rule and a line feed.
fn push_separator_line(out: &mut String)
    ensures
        final(out)@ == old(out)@ + separator() + seq!['\n'],
{
    let sep = "----------------------------------------";
    out.append(sep);
    out.push('\n');
    proof {
        reveal_strlit("----------------------------------------");
        assert(sep@ =~= separator());
        assert(final(out)@ =~= old(out)@ + separator() + seq!['\n']);
    }
}

/// Appends a table row.
fn push_row(out: &mut String, label: &String, count: &String)
    ensures
        final(out)@ == old(out)@ + table_row(label@, count@),
{
    out.append(label.as_str());
    out.push(' ');
    out.append(count.as_str());
    out.push('\n');
    assert(final(out)@ =~= old(out)@ + table_row(label@, count@));
}

/// The pieces that make a report, put together, are a report.
proof fn lemma_is_report_intro(
    s: Seq<char>,
    ghosts: nat,
    zombies: nat,
    orphans: nat,
    gl: Seq<char>,
    gc: Seq<char>,
    zl: Seq<char>,
    zc: Seq<char>,
    ol: Seq<char>,
    oc: Seq<char>,
)
    requires
        painted(pad_right(ghost_label(), label_width()), bold_cyan(), gl),
        painted(decimal(ghosts), cyan(), gc),
        painted(pad_right(zombie_label(), label_width()), bold_yellow(), zl),
        painted(decimal(zombies), yellow(), zc),
        painted(pad_right(orphan_label(), label_width()), bold_red(), ol),
        painted(decimal(orphans), red(), oc),
        s == table_with_rows(table_row(gl, gc), table_row(zl, zc), table_row(ol, oc)),
    ensures
        is_report(s, ghosts, zombies, orphans),
{
}

/// Writes the summary table of `results` to standard output: the table
/// of their numbers of ghost files, zombie branches and orphan commits, as
/// `format_report` gives it.
pub fn render_report(results: &ScanResults) -> (printed: Printed)
    ensures
        is_report(
            printed.text(),
            results.ghost_files@.len(),
            results.zombie_branches@.len(),
            results.orphan_commits@.len(),
        ),
{
    let text = format_report(results);
    print_text(text.as_str())
}

/// The digits of a number hold no escape character.
pub proof fn lemma_decimal_plain(n: nat)
    ensures
        no_escape(decimal(n)),
    decreases n,
{
    if n >= 10 {
        lemma_decimal_plain(n / 10);
        let d = decimal(n / 10);
        assert(decimal(n) == d.push(digit_char((n % 10) as int)));
        assert forall|i: int| 0 <= i < decimal(n).len() implies decimal(n)[i] != '\x1b' by {
            if i < d.len() {
                assert(decimal(n)[i] == d[i]);
            }
        }
    }
}

/// Padding text without escape characters adds none.
pub proof fn lemma_pad_plain(text: Seq<char>, width: nat)
    requires
        no_escape(text),
    ensures
        no_escape(pad_right(text, width)),
{
    let p = pad_right(text, width);
    assert forall|i: int| 0 <= i < p.len() implies p[i] != '\x1b' by {
        if i >= text.len() {
            assert(p[i] == ' ');
        } else {
            assert(p[i] == text[i]);
        }
    }
}

/// Every piece of the table that gets painted is free of escape characters.
pub proof fn lemma_report_pieces_plain(ghosts: nat, zombies: nat, orphans: nat)
    ensures
        no_escape(pad_right(ghost_label(), label_width())),
        no_escape(pad_right(zombie_label(), label_width())),
        no_escape(pad_right(orphan_label(), label_width())),
        no_escape(decimal(ghosts)),
        no_escape(decimal(zombies)),
        no_escape(decimal(orphans)),
{
    lemma_pad_plain(ghost_label(), label_width());
    lemma_pad_plain(zombie_label(), label_width());
    lemma_pad_plain(orphan_label(), label_width());
    lemma_decimal_plain(ghosts);
    lemma_decimal_plain(zombies);
    lemma_decimal_plain(orphans);
}

/// A row of painted pieces reads, on screen, as the row of the plain pieces.
proof fn lemma_strip_row(
    label: Seq<char>,
    lcode: Seq<char>,
    painted_label: Seq<char>,
    count: Seq<char>,
    ccode: Seq<char>,
    painted_count: Seq<char>,
)
    requires
        no_escape(label),
        no_escape(count),
        forall|i: int| 0 <= i < lcode.len() ==> lcode[i] != 'm',
        forall|i: int| 0 <= i < ccode.len() ==> ccode[i] != 'm',
        painted(label, lcode, painted_label),
        painted(count, ccode, painted_count),
    ensures
        strip_escapes(table_row(painted_label, painted_count)) == table_row(label, count),
        !open_after(table_row(painted_label, painted_count), false),
{
    lemma_strip_painted(label, lcode, painted_label);
    lemma_strip_painted(count, ccode, painted_count);
    let sp = seq![' '];
    let nl = seq!['\n'];
    assert(no_escape(sp));
    assert(no_escape(nl));
    lemma_strip_plain(sp);
    lemma_strip_plain(nl);
    lemma_closed_concat(painted_label, sp);
    lemma_closed_concat(painted_label + sp, painted_count);
    lemma_closed_concat(painted_label + sp + painted_count, nl);
}

/// Law: with its colour codes taken out, the report is exactly the plain
/// table of the three counts.
pub proof fn lemma_report_visible_text(s: Seq<char>, ghosts: nat, zombies: nat, orphans: nat)
    requires
        is_report(s, ghosts, zombies, orphans),
    ensures
        strip_escapes(s) == plain_report(ghosts, zombies, orphans),
{
    let (gl, gc, zl, zc, ol, oc) = choose|
        gl: Seq<char>,
        gc: Seq<char>,
        zl: Seq<char>,
        zc: Seq<char>,
        ol: Seq<char>,
        oc: Seq<char>,
    |
        {
            &&& painted(pad_right(ghost_label(), label_width()), bold_cyan(), gl)
            &&& painted(decimal(ghosts), cyan(), gc)
            &&& painted(pad_right(zombie_label(), label_width()), bold_yellow(), zl)
            &&& painted(decimal(zombies), yellow(), zc)
            &&& painted(pad_right(orphan_label(), label_width()), bold_red(), ol)
            &&& painted(decimal(orphans), red(), oc)
            &&& s == table_with_rows(table_row(gl, gc), table_row(zl, zc), table_row(ol, oc))
        };
    lemma_report_pieces_plain(ghosts, zombies, orphans);
    lemma_strip_row(pad_right(ghost_label(), label_width()), bold_cyan(), gl, decimal(ghosts), cyan(), gc);
    lemma_strip_row(pad_right(zombie_label(), label_width()), bold_yellow(), zl, decimal(zombies), yellow(), zc);
    lemma_strip_row(pad_right(orphan_label(), label_width()), bold_red(), ol, decimal(orphans), red(), oc);
    let head = table_head();
    let foot = table_foot();
    assert(no_escape(head)) by {
        lemma_pad_plain(category_heading(), label_width());
        let p = pad_right(category_heading(), label_width());
        assert forall|i: int| 0 <= i < head.len() implies head[i] != '\x1b' by {
            let a = separator() + seq!['\n'];
            let b = table_row(p, count_heading());
            assert(head == a + b + a);
            if i < a.len() {
                assert(head[i] == a[i]);
            } else if i < a.len() + b.len() {
                assert(head[i] == b[i - a.len()]);
                let c = p + seq![' '];
                assert(b == c + count_heading() + seq!['\n']);
                let k = i - a.len();
                if k < p.len() {
                    assert(b[k] == p[k]);
                } else if k < c.len() {
                    assert(b[k] == ' ');
                }
            } else {
                assert(head[i] == a[i - a.len() - b.len()]);
            }
        }
    }
    assert(no_escape(foot));
    lemma_strip_plain(head);
    lemma_strip_plain(foot);
    let r1 = table_row(gl, gc);
    let r2 = table_row(zl, zc);
    let r3 = table_row(ol, oc);
    lemma_closed_concat(head, r1);
    lemma_closed_concat(head + r1, r2);
    lemma_closed_concat(head + r1 + r2, r3);
    lemma_closed_concat(head + r1 + r2 + r3, foot);
}

} // verus!
