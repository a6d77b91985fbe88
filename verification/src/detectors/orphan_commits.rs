//! Unreachable commits: reading the report of `git fsck --unreachable` and
//! looking up the commits it lists.
use vstd::prelude::*;

use crate::detectors::{read_commit, CommitRead, DetectError};
use crate::git::{find_commit, oid_from_hex, open_repository};
use crate::models::OrphanCommit;
use crate::text::{chars_equal, chars_of, string_of, string_views};

verus! {

/// Whether `c` is white space as `char::is_whitespace` defines it (the
/// Unicode `White_Space` property).
pub open spec fn is_white_space(c: char) -> bool {
    let n = c as u32;
    ||| 0x09 <= n <= 0x0d
    ||| n == 0x20
    ||| n == 0x85
    ||| n == 0xa0
    ||| n == 0x1680
    ||| 0x2000 <= n <= 0x200a
    ||| n == 0x2028
    ||| n == 0x2029
    ||| n == 0x202f
    ||| n == 0x205f
    ||| n == 0x3000
}

/// Whether `c` is an ASCII hexadecimal digit.
pub open spec fn is_hex_digit(c: char) -> bool {
    ('0' <= c <= '9') || ('a' <= c <= 'f') || ('A' <= c <= 'F')
}

/// Whether `c` is a lower-case hexadecimal digit.
pub open spec fn is_lower_hex_digit(c: char) -> bool {
    ('0' <= c <= '9') || ('a' <= c <= 'f')
}

/// `c` in lower case, for a hexadecimal digit.
pub open spec fn hex_lower(c: char) -> char {
    if 'A' <= c <= 'F' {
        ((c as u32) + 32) as char
    } else {
        c
    }
}

/// The lines of `s`: the pieces between line feeds, in order (a text with
/// `k` line feeds has `k + 1` of them).
pub open spec fn lines_of(s: Seq<char>) -> Seq<Seq<char>>
    decreases s.len(),
{
    if s.len() == 0 {
        seq![Seq::<char>::empty()]
    } else {
        let p = lines_of(s.drop_last());
        if s.last() == '\n' {
            p.push(Seq::<char>::empty())
        } else {
            p.update(p.len() - 1, p.last().push(s.last()))
        }
    }
}

/// The white-space separated words of `s`, in order (as `split_whitespace`
/// gives them).
pub open spec fn words_of(s: Seq<char>) -> Seq<Seq<char>>
    decreases s.len(),
{
    if s.len() == 0 {
        seq![]
    } else {
        let w = words_of(s.drop_last());
        if is_white_space(s.last()) {
            w
        } else if s.len() >= 2 && !is_white_space(s[s.len() - 2]) {
            w.update(w.len() - 1, w.last().push(s.last()))
        } else {
            w.push(seq![s.last()])
        }
    }
}

/// `unreachable`
pub open spec fn unreachable_word() -> Seq<char> {
    seq!['u', 'n', 'r', 'e', 'a', 'c', 'h', 'a', 'b', 'l', 'e']
}

/// `commit`
pub open spec fn commit_word() -> Seq<char> {
    seq!['c', 'o', 'm', 'm', 'i', 't']
}

/// Whether `h` is forty hexadecimal digits.
pub open spec fn is_hex_hash(h: Seq<char>) -> bool {
    h.len() == 40 && forall|i: int| 0 <= i < 40 ==> is_hex_digit(#[trigger] h[i])
}

/// Whether `h` is forty lower-case hexadecimal digits.
pub open spec fn is_lower_hex_hash(h: Seq<char>) -> bool {
    h.len() == 40 && forall|i: int| 0 <= i < 40 ==> is_lower_hex_digit(#[trigger] h[i])
}

/// The hash that a line's words announce: the words `unreachable`,
/// `commit` and a forty-digit hexadecimal hash (more words may follow),
/// the hash in lower case.
pub open spec fn hash_of_words(words: Seq<Seq<char>>) -> Option<Seq<char>> {
    if words.len() >= 3 && words[0] == unreachable_word() && words[1] == commit_word()
        && is_hex_hash(words[2]) {
        Some(words[2].map_values(|c: char| hex_lower(c)))
    } else {
        None
    }
}

/// The hashes that the lines announce, in the order of the lines.
pub open spec fn hashes_of_lines(lines: Seq<Seq<char>>) -> Seq<Seq<char>>
    decreases lines.len(),
{
    if lines.len() == 0 {
        seq![]
    } else {
        let rest = hashes_of_lines(lines.drop_last());
        match hash_of_words(words_of(lines.last())) {
            Some(h) => rest.push(h),
            None => rest,
        }
    }
}

/// The commit hashes that a `git fsck --unreachable` report lists: one per
/// line of the form `unreachable commit <forty hex digits>`, in order,
/// in lower case.
pub open spec fn unreachable_commit_hashes(report: Seq<char>) -> Seq<Seq<char>> {
    hashes_of_lines(lines_of(report))
}

/// The character views of a sequence of character vectors.
pub open spec fn char_vec_views(v: Seq<Vec<char>>) -> Seq<Seq<char>> {
    v.map_values(|x: Vec<char>| x@)
}

fn is_white_space_char(c: char) -> (r: bool)
    ensures
        r == is_white_space(c),
{
    let n = c as u32;
    (0x09 <= n && n <= 0x0d) || n == 0x20 || n == 0x85 || n == 0xa0 || n == 0x1680 || (0x2000 <= n
        && n <= 0x200a) || n == 0x2028 || n == 0x2029 || n == 0x202f || n == 0x205f || n == 0x3000
}

fn hex_hash_lower(w: &Vec<char>) -> (r: Option<String>)
    ensures
        match r {
            Some(h) => is_hex_hash(w@) && h@ == w@.map_values(|c: char| hex_lower(c)),
            None => !is_hex_hash(w@),
        },
{
    if w.len() != 40 {
        return None;
    }
    let mut out: Vec<char> = Vec::new();
    let mut i: usize = 0;
    while i < 40
        invariant
            w@.len() == 40,
            i <= 40,
            out@.len() == i,
            forall|k: int| 0 <= k < i ==> is_hex_digit(#[trigger] w@[k]),
            forall|k: int| 0 <= k < i ==> out@[k] == hex_lower(#[trigger] w@[k]),
        decreases 40 - i,
    {
        let c = w[i];
        if '0' <= c && c <= '9' || 'a' <= c && c <= 'f' {
            out.push(c);
        } else if 'A' <= c && c <= 'F' {
            let lower = ((c as u32) + 32) as u8 as char;
            assert(lower == hex_lower(c)) by {
                assert(0x41 <= (c as u32) <= 0x46);
            }
            out.push(lower);
        } else {
            return None;
        }
        i = i + 1;
    }
    let h = string_of(&out);
    assert(h@ =~= w@.map_values(|c: char| hex_lower(c)));
    Some(h)
}

fn hash_of_word_list(words: &Vec<Vec<char>>) -> (r: Option<String>)
    ensures
        match (r, hash_of_words(char_vec_views(words@))) {
            (Some(h), Some(s)) => h@ == s,
            (None, None) => true,
            _ => false,
        },
{
    let ghost views = char_vec_views(words@);
    if words.len() < 3 {
        return None;
    }
    let unreachable = vec!['u', 'n', 'r', 'e', 'a', 'c', 'h', 'a', 'b', 'l', 'e'];
    let commit = vec!['c', 'o', 'm', 'm', 'i', 't'];
    assert(unreachable@ =~= unreachable_word());
    assert(commit@ =~= commit_word());
    if !chars_equal(&words[0], &unreachable) || !chars_equal(&words[1], &commit) {
        assert(views[0] == words@[0]@ && views[1] == words@[1]@);
        return None;
    }
    assert(views[2] == words@[2]@);
    hex_hash_lower(&words[2])
}

proof fn lemma_lines_nonempty(s: Seq<char>)
    ensures
        lines_of(s).len() >= 1,
    decreases s.len(),
{
    if s.len() > 0 {
        lemma_lines_nonempty(s.drop_last());
    }
}

/// The lowercase commit hashes that the report of `git fsck --unreachable`
/// lists, one per line `unreachable commit <forty hex digits>` (other words
/// may follow on the line), in the order of the report. Each is forty
/// lower-case hexadecimal digits.
pub fn parse_unreachable_commit_hashes(output: &str) -> (res: Vec<String>)
    ensures
        res@.map_values(|h: String| h@) == unreachable_commit_hashes(output@),
        forall|i: int| 0 <= i < res@.len() ==> is_lower_hex_hash(#[trigger] res@[i]@),
{
    let chars = chars_of(output);
    let ghost s = chars@;
    let mut res: Vec<String> = Vec::new();
    let mut words: Vec<Vec<char>> = Vec::new();
    let mut i: usize = 0;
    while i < chars.len()
        invariant
            s == chars@,
            i <= s.len(),
            lines_of(s.take(i as int)).len() >= 1,
            char_vec_views(words@) == words_of(lines_of(s.take(i as int)).last()),
            res@.map_values(|h: String| h@) == hashes_of_lines(lines_of(s.take(i as int)).drop_last()),
        decreases s.len() - i,
    {
        let c = chars[i];
        let ghost pre = s.take(i as int);
        let ghost post = s.take(i as int + 1);
        proof {
            assert(post.drop_last() =~= pre);
            assert(post.last() == c);
            lemma_lines_nonempty(pre);
        }
        let ghost cur = lines_of(pre).last();
        if c == '\n' {
            let found = hash_of_word_list(&words);
            match found {
                Some(h) => {
                    res.push(h);
                },
                None => {},
            }
            words = Vec::new();
            proof {
                assert(lines_of(post) == lines_of(pre).push(Seq::<char>::empty()));
                assert(lines_of(post).drop_last() =~= lines_of(pre));
                assert(char_vec_views(words@) =~= words_of(Seq::<char>::empty()));
                assert(res@.map_values(|h: String| h@) =~= hashes_of_lines(lines_of(post).drop_last()));
            }
        } else {
            let ws = is_white_space_char(c);
            let ghost next = cur.push(c);
            proof {
                assert(lines_of(post) == lines_of(pre).update(lines_of(pre).len() - 1, next));
                assert(lines_of(post).last() == next);
                assert(lines_of(post).drop_last() =~= lines_of(pre).drop_last());
                assert(next.drop_last() =~= cur);
            }
            if ws {
            } else if words.len() > 0 && i > 0 && !is_white_space_char(chars[i - 1]) && chars[i - 1] != '\n' {
                proof {
                    assert(s[i - 1] == pre.last());
                    lemma_cur_tail(pre);
                    assert(next[next.len() - 2] == chars@[i - 1]);
                }
                let mut last = words.pop().unwrap();
                last.push(c);
                words.push(last);
                proof {
                    assert(char_vec_views(words@) =~= words_of(next));
                }
            } else {
                proof {
                    if next.len() >= 2 && !is_white_space(next[next.len() - 2]) {
                        assert(cur.len() >= 1);
                        if pre.len() == 0 {
                            assert(lines_of(pre) =~= seq![Seq::<char>::empty()]);
                        }
                        lemma_cur_tail(pre);
                        assert(next[next.len() - 2] == cur.last());
                        assert(pre.last() == s[i - 1]);
                        lemma_words_nonempty(cur);
                        assert(false);
                    }
                }
                let fresh = vec![c];
                let ghost before = words@;
                words.push(fresh);
                proof {
                    assert(next.last() == c);
                    assert(words_of(next) == words_of(cur).push(seq![c]));
                    assert(words@ == before.push(fresh));
                    assert(fresh@ =~= seq![c]);
                    assert(char_vec_views(words@) =~= char_vec_views(before).push(seq![c]));
                }
            }
        }
        i = i + 1;
    }
    let last = hash_of_word_list(&words);
    match last {
        Some(h) => {
            res.push(h);
        },
        None => {},
    }
    proof {
        assert(s.take(s.len() as int) =~= s);
        lemma_lines_nonempty(s);
        assert(lines_of(s).drop_last().push(lines_of(s).last()) =~= lines_of(s));
        assert(res@.map_values(|h: String| h@) =~= unreachable_commit_hashes(output@));
        lemma_hashes_lower(lines_of(s));
        assert forall|k: int| 0 <= k < res@.len() implies is_lower_hex_hash(#[trigger] res@[k]@) by {
            assert(res@.map_values(|h: String| h@)[k] == res@[k]@);
        }
    }
    res
}

/// The last line of a non-empty text that does not end in a line feed
/// ends with the text's last character.
proof fn lemma_cur_tail(pre: Seq<char>)
    requires
        pre.len() > 0,
    ensures
        pre.last() != '\n' ==> lines_of(pre).last().len() > 0 && lines_of(pre).last().last()
            == pre.last(),
        pre.last() == '\n' ==> lines_of(pre).last().len() == 0,
{
    lemma_lines_nonempty(pre.drop_last());
}

/// A text that ends with a non-space character has at least one word.
proof fn lemma_words_nonempty(s: Seq<char>)
    requires
        s.len() > 0,
        !is_white_space(s.last()),
    ensures
        words_of(s).len() > 0,
    decreases s.len(),
{
    if s.len() >= 2 && !is_white_space(s[s.len() - 2]) {
        assert(s.drop_last().last() == s[s.len() - 2]);
        lemma_words_nonempty(s.drop_last());
    }
}

/// Every announced hash is forty lower-case hexadecimal digits.
proof fn lemma_hashes_lower(lines: Seq<Seq<char>>)
    ensures
        forall|i: int|
            0 <= i < hashes_of_lines(lines).len() ==> is_lower_hex_hash(
                #[trigger] hashes_of_lines(lines)[i],
            ),
    decreases lines.len(),
{
    if lines.len() > 0 {
        lemma_hashes_lower(lines.drop_last());
        let rest = hashes_of_lines(lines.drop_last());
        match hash_of_words(words_of(lines.last())) {
            Some(h) => {
                assert(hashes_of_lines(lines) == rest.push(h));
                let w = words_of(lines.last())[2];
                assert forall|k: int| 0 <= k < 40 implies is_lower_hex_digit(#[trigger] h[k]) by {
                    assert(is_hex_digit(w[k]));
                    assert(h[k] == hex_lower(w[k]));
                    if 'A' <= w[k] <= 'F' {
                        assert(0x41 <= (w[k] as u32) <= 0x46);
                    }
                }
                assert forall|i: int| 0 <= i < hashes_of_lines(lines).len() implies is_lower_hex_hash(
                    #[trigger] hashes_of_lines(lines)[i],
                ) by {
                    if i < rest.len() {
                        assert(hashes_of_lines(lines)[i] == rest[i]);
                    }
                }
            },
            None => {
                assert(hashes_of_lines(lines) == rest);
            },
        }
    }
}

/// The first occurrence of each hash, in order.
pub open spec fn first_occurrences(hashes: Seq<Seq<char>>) -> Seq<Seq<char>>
    decreases hashes.len(),
{
    if hashes.len() == 0 {
        seq![]
    } else {
        let rest = first_occurrences(hashes.drop_last());
        if rest.contains(hashes.last()) {
            rest
        } else {
            rest.push(hashes.last())
        }
    }
}

/// Law: the first occurrences are pairwise distinct, and are exactly the
/// hashes that occur.
pub proof fn lemma_first_occurrences(hashes: Seq<Seq<char>>)
    ensures
        forall|a: int, b: int|
            0 <= a < b < first_occurrences(hashes).len() ==> first_occurrences(hashes)[a]
                != first_occurrences(hashes)[b],
        forall|h: Seq<char>| #[trigger] first_occurrences(hashes).contains(h) <==> hashes.contains(h),
    decreases hashes.len(),
{
    if hashes.len() > 0 {
        let init = hashes.drop_last();
        lemma_first_occurrences(init);
        let rest = first_occurrences(init);
        let all = first_occurrences(hashes);
        assert forall|h: Seq<char>| #[trigger] all.contains(h) <==> hashes.contains(h) by {
            if hashes.contains(h) {
                let i = choose|i: int| 0 <= i < hashes.len() && hashes[i] == h;
                if i < init.len() {
                    assert(init[i] == h);
                    assert(init.contains(h));
                    assert(rest.contains(h));
                    let k = choose|k: int| 0 <= k < rest.len() && rest[k] == h;
                    if !rest.contains(hashes.last()) {
                        assert(all[k] == h);
                    }
                } else {
                    if !rest.contains(hashes.last()) {
                        assert(all.last() == h);
                    }
                }
            }
            if all.contains(h) {
                let k = choose|k: int| 0 <= k < all.len() && all[k] == h;
                if k < rest.len() {
                    assert(rest[k] == h);
                    assert(rest.contains(h));
                    let i = choose|i: int| 0 <= i < init.len() && init[i] == h;
                    assert(hashes[i] == h);
                } else {
                    assert(hashes[hashes.len() - 1] == h);
                }
            }
        }
        if !rest.contains(hashes.last()) {
            assert forall|a: int, b: int| 0 <= a < b < all.len() implies all[a] != all[b] by {
                if b < rest.len() {
                } else {
                    assert(all[a] == rest[a]);
                }
            }
        }
    }
}

/// The hashes without repetition: the first occurrence of each, in order.
pub fn distinct_hashes(hashes: &Vec<String>) -> (res: Vec<String>)
    ensures
        string_views(res@) == first_occurrences(string_views(hashes@)),
{
    let ghost hs = string_views(hashes@);
    let mut res: Vec<String> = Vec::new();
    let mut i: usize = 0;
    while i < hashes.len()
        invariant
            hs == string_views(hashes@),
            i <= hashes.len(),
            string_views(res@) == first_occurrences(hs.take(i as int)),
        decreases hashes.len() - i,
    {
        proof {
            assert(hs.take(i as int + 1).drop_last() =~= hs.take(i as int));
            assert(hs.take(i as int + 1).last() == hashes@[i as int]@);
        }
        let mut found = false;
        let mut k: usize = 0;
        while k < res.len()
            invariant
                k <= res.len(),
                i < hashes.len(),
                found == exists|m: int| 0 <= m < k && res@[m]@ == hashes@[i as int]@,
            decreases res.len() - k,
        {
            if res[k] == hashes[i] {
                found = true;
            }
            k = k + 1;
        }
        proof {
            if found {
                let m = choose|m: int| 0 <= m < res@.len() && res@[m]@ == hashes@[i as int]@;
                assert(string_views(res@)[m] == hashes@[i as int]@);
            } else {
                assert forall|m: int| 0 <= m < string_views(res@).len() implies string_views(res@)[m]
                    != hashes@[i as int]@ by {
                    assert(string_views(res@)[m] == res@[m]@);
                }
            }
        }
        if !found {
            let ghost before = res@;
            res.push(hashes[i].clone());
            proof {
                assert(string_views(res@) =~= string_views(before).push(hashes@[i as int]@));
            }
        }
        i = i + 1;
    }
    proof {
        assert(hs.take(hashes@.len() as int) =~= hs);
    }
    res
}

/// What the lookup of a listed hash found: the hash it was looked up
/// under, the commit's author (`Unknown` when the name is not UTF-8), its
/// time in seconds since the Unix epoch and its summary (empty when there
/// is none).
#[derive(Debug, Clone)]
pub struct CommitInfo {
    pub hash: String,
    pub author: String,
    pub timestamp: i64,
    pub summary: String,
}

/// The positions `k < n` whose lookup found a commit, in increasing order.
pub open spec fn found_positions(lookups: Seq<Option<CommitInfo>>, n: int) -> Seq<int>
    decreases n,
{
    if n <= 0 {
        seq![]
    } else {
        let rest = found_positions(lookups, n - 1);
        if lookups[n - 1] is Some {
            rest.push(n - 1)
        } else {
            rest
        }
    }
}

/// `o` reports the commit `c` that was found under the hash `h`.
pub open spec fn reports_commit(o: OrphanCommit, h: Seq<char>, c: CommitInfo) -> bool {
    &&& o.commit_hash@ == h
    &&& o.author@ == c.author@
    &&& o.timestamp == c.timestamp
    &&& o.message_summary@ == c.summary@
}

/// `orphans` reports, in order, each of `hashes` whose lookup (the entry
/// of `lookups` at the same position) found a commit, and nothing else.
pub open spec fn reports_found_commits(
    orphans: Seq<OrphanCommit>,
    hashes: Seq<Seq<char>>,
    lookups: Seq<Option<CommitInfo>>,
) -> bool {
    let pos = found_positions(lookups, lookups.len() as int);
    &&& hashes.len() == lookups.len()
    &&& orphans.len() == pos.len()
    &&& forall|k: int|
        #![trigger orphans[k]]
        0 <= k < pos.len() ==> reports_commit(orphans[k], hashes[pos[k]], lookups[pos[k]]->0)
}

/// Each commit found was looked up under the hash at its own position.
pub open spec fn looked_up_under(hashes: Seq<Seq<char>>, lookups: Seq<Option<CommitInfo>>) -> bool {
    forall|k: int|
        0 <= k < lookups.len() ==> (#[trigger] lookups[k] matches Some(c) ==> c.hash@ == hashes[k])
}

/// `orphans` is what the orphan detector reports for the fsck report
/// `report`: for some outcome of looking up each distinct listed hash (in
/// the order of their first occurrence), each commit found under the hash
/// it was looked up with, the commits that were found.
pub open spec fn is_orphan_scan(orphans: Seq<OrphanCommit>, report: Seq<char>) -> bool {
    exists|lookups: Seq<Option<CommitInfo>>|
        #[trigger] reports_found_commits(
            orphans,
            first_occurrences(unreachable_commit_hashes(report)),
            lookups,
        ) && looked_up_under(first_occurrences(unreachable_commit_hashes(report)), lookups)
}

/// The found positions are increasing, below `n`, and each names a lookup
/// that found a commit.
proof fn lemma_found_positions(lookups: Seq<Option<CommitInfo>>, n: int)
    requires
        0 <= n <= lookups.len(),
    ensures
        forall|a: int|
            0 <= a < found_positions(lookups, n).len() ==> 0 <= #[trigger] found_positions(
                lookups,
                n,
            )[a] < n && lookups[found_positions(lookups, n)[a]] is Some,
        forall|a: int, b: int|
            0 <= a < b < found_positions(lookups, n).len() ==> found_positions(lookups, n)[a]
                < found_positions(lookups, n)[b],
    decreases n,
{
    if n > 0 {
        lemma_found_positions(lookups, n - 1);
        let rest = found_positions(lookups, n - 1);
        let pos = found_positions(lookups, n);
        if lookups[n - 1] is Some {
            assert forall|a: int| 0 <= a < pos.len() implies 0 <= #[trigger] pos[a] < n
                && lookups[pos[a]] is Some by {
                if a < rest.len() {
                    assert(pos[a] == rest[a]);
                }
            }
            assert forall|a: int, b: int| 0 <= a < b < pos.len() implies pos[a] < pos[b] by {
                assert(pos[a] == rest[a]);
                if b < rest.len() {
                    assert(pos[b] == rest[b]);
                } else {
                    assert(0 <= rest[a] < n - 1);
                }
            }
        } else {
            assert(pos == rest);
        }
    }
}

/// Law: the orphans reported for pairwise distinct hashes have pairwise
/// distinct hashes, each one of those hashes.
pub proof fn lemma_reported_hashes_distinct(
    orphans: Seq<OrphanCommit>,
    hashes: Seq<Seq<char>>,
    lookups: Seq<Option<CommitInfo>>,
)
    requires
        reports_found_commits(orphans, hashes, lookups),
        forall|a: int, b: int| 0 <= a < b < hashes.len() ==> hashes[a] != hashes[b],
    ensures
        forall|a: int, b: int|
            0 <= a < b < orphans.len() ==> orphans[a].commit_hash@ != orphans[b].commit_hash@,
        forall|a: int| 0 <= a < orphans.len() ==> hashes.contains(#[trigger] orphans[a].commit_hash@),
{
    let pos = found_positions(lookups, lookups.len() as int);
    lemma_found_positions(lookups, lookups.len() as int);
    assert forall|a: int, b: int| 0 <= a < b < orphans.len() implies orphans[a].commit_hash@
        != orphans[b].commit_hash@ by {
        assert(reports_commit(orphans[a], hashes[pos[a]], lookups[pos[a]]->0));
        assert(reports_commit(orphans[b], hashes[pos[b]], lookups[pos[b]]->0));
        assert(pos[a] < pos[b]);
    }
    assert forall|a: int| 0 <= a < orphans.len() implies hashes.contains(
        #[trigger] orphans[a].commit_hash@,
    ) by {
        assert(reports_commit(orphans[a], hashes[pos[a]], lookups[pos[a]]->0));
        assert(0 <= pos[a] < hashes.len());
    }
}

/// `o` carries, unchanged, the hash, author, time and summary of `c`.
pub open spec fn carries_commit(o: OrphanCommit, c: CommitInfo) -> bool {
    &&& c.hash@ == o.commit_hash@
    &&& c.author@ == o.author@
    &&& c.timestamp == o.timestamp
    &&& c.summary@ == o.message_summary@
}

/// Some lookup among `lookups` found the commit that `o` carries.
pub open spec fn found_for(o: OrphanCommit, lookups: Seq<Option<CommitInfo>>) -> bool {
    exists|k: int|
        #![trigger lookups[k]]
        0 <= k < lookups.len() && lookups[k] is Some && carries_commit(o, lookups[k]->0)
}

/// Law: every reported orphan carries, unchanged, the author, time and
/// summary of the commit found under its own hash.
pub proof fn lemma_orphans_carry_their_commits(
    orphans: Seq<OrphanCommit>,
    hashes: Seq<Seq<char>>,
    lookups: Seq<Option<CommitInfo>>,
)
    requires
        reports_found_commits(orphans, hashes, lookups),
        looked_up_under(hashes, lookups),
    ensures
        forall|a: int|
            0 <= a < orphans.len() ==> #[trigger] found_for(orphans[a], lookups),
{
    let pos = found_positions(lookups, lookups.len() as int);
    lemma_found_positions(lookups, lookups.len() as int);
    assert forall|a: int| 0 <= a < orphans.len() implies #[trigger] found_for(orphans[a], lookups) by {
        let k = pos[a];
        assert(reports_commit(orphans[a], hashes[k], lookups[k]->0));
        assert(0 <= k < lookups.len() && lookups[k] is Some);
        assert(lookups[k] matches Some(c) ==> c.hash@ == hashes[k]);
        assert(carries_commit(orphans[a], lookups[k]->0));
    }
}

/// The orphan commits for the distinct listed `hashes`, given what looking
/// up each of them found (`None` where no commit was found): one record per
/// commit found, with the listed hash, in the order of `hashes`.
pub fn orphans_from_lookups(hashes: &Vec<String>, lookups: &Vec<Option<CommitInfo>>) -> (res: Vec<
    OrphanCommit,
>)
    requires
        hashes.len() == lookups.len(),
    ensures
        reports_found_commits(res@, string_views(hashes@), lookups@),
{
    let ghost hs = string_views(hashes@);
    let mut res: Vec<OrphanCommit> = Vec::new();
    let mut i: usize = 0;
    while i < lookups.len()
        invariant
            hs == string_views(hashes@),
            hashes.len() == lookups.len(),
            i <= lookups.len(),
            res@.len() == found_positions(lookups@, i as int).len(),
            forall|k: int|
                #![trigger res@[k]]
                0 <= k < res@.len() ==> reports_commit(
                    res@[k],
                    hs[found_positions(lookups@, i as int)[k]],
                    lookups@[found_positions(lookups@, i as int)[k]]->0,
                ),
        decreases lookups.len() - i,
    {
        let ghost before = res@;
        let ghost pos = found_positions(lookups@, i as int);
        match &lookups[i] {
            Some(c) => {
                let orphan = OrphanCommit {
                    commit_hash: hashes[i].clone(),
                    author: c.author.clone(),
                    timestamp: c.timestamp,
                    message_summary: c.summary.clone(),
                };
                res.push(orphan);
                proof {
                    let npos = found_positions(lookups@, i as int + 1);
                    assert(npos == pos.push(i as int));
                    assert forall|k: int|
                        #![trigger res@[k]]
                        0 <= k < res@.len() implies reports_commit(
                        res@[k],
                        hs[npos[k]],
                        lookups@[npos[k]]->0,
                    ) by {
                        if k < before.len() {
                            assert(res@[k] == before[k]);
                            assert(npos[k] == pos[k]);
                        } else {
                            assert(npos[k] == i as int);
                            assert(hs[i as int] == hashes@[i as int]@);
                        }
                    }
                }
            },
            None => {
                proof {
                    assert(found_positions(lookups@, i as int + 1) == pos);
                }
            },
        }
        i = i + 1;
    }
    res
}

/// Looks up `hash` in `repo`: when the hash names a commit there, the
/// hash with what `read_commit` read of that commit (author, time and
/// summary, exactly as read), and the record of that reading; else `None`.
pub fn look_up_commit(repo: &git2::Repository, hash: &String) -> (res: Option<(CommitInfo, CommitRead)>)
    ensures
        res matches Some((c, read)) ==> {
            &&& c.hash@ == hash@
            &&& c.author@ == read.author()
            &&& c.timestamp == read.timestamp()
            &&& c.summary@ == read.summary()
        },
{
    match oid_from_hex(hash.as_str()) {
        Ok(oid) => {
            match find_commit(repo, oid) {
                Ok(commit) => {
                    let (author, timestamp, summary, read) = read_commit(&commit);
                    Some((CommitInfo { hash: hash.clone(), author, timestamp, summary }, read))
                },
                Err(_) => None,
            }
        },
        Err(_) => None,
    }
}

/// The unreachable commits of the repository at `repo_path`, given the
/// combined output of `git fsck --unreachable --no-reflogs` run in it (or
/// the error of running it). The repository is opened first; then each
/// distinct commit hash that the report lists, in the order of the report,
/// is looked up, and the commits found are reported with their hash,
/// author (`Unknown` when not UTF-8), time and summary (empty when there is
/// none); hashes that do not resolve to a commit are passed over. The
/// hashes reported are pairwise distinct, each listed by the report, and
/// forty lower-case hexadecimal digits.
pub fn detect_orphan_commits(repo_path: &str, fsck_report: Result<String, std::io::Error>) -> (res: Result<
    Vec<OrphanCommit>,
    DetectError,
>)
    ensures
        match res {
            Ok(orphans) => {
                &&& fsck_report matches Ok(report) && is_orphan_scan(orphans@, report@)
                    && forall|a: int|
                    0 <= a < orphans@.len() ==> unreachable_commit_hashes(report@).contains(
                        #[trigger] orphans@[a].commit_hash@,
                    )
                &&& forall|a: int, b: int|
                    0 <= a < b < orphans@.len() ==> orphans@[a].commit_hash@
                        != orphans@[b].commit_hash@
                &&& forall|a: int|
                    0 <= a < orphans@.len() ==> is_lower_hex_hash(#[trigger] orphans@[a].commit_hash@)
            },
            Err(DetectError::InvalidThreshold(_)) => false,
            Err(_) => true,
        },
{
    let repo = match open_repository(repo_path) {
        Ok(r) => r,
        Err(e) => {
            return Err(DetectError::Git(e));
        },
    };
    let report = match fsck_report {
        Ok(text) => text,
        Err(e) => {
            return Err(DetectError::Io(e));
        },
    };
    let listed = parse_unreachable_commit_hashes(report.as_str());
    let unique = distinct_hashes(&listed);
    let ghost all = unreachable_commit_hashes(report@);
    proof {
        assert(listed@.map_values(|h: String| h@) =~= string_views(listed@));
    }
    let mut lookups: Vec<Option<CommitInfo>> = Vec::new();
    let mut reads: Vec<Option<CommitRead>> = Vec::new();
    let mut i: usize = 0;
    while i < unique.len()
        invariant
            i <= unique.len(),
            lookups@.len() == i,
            reads@.len() == i,
            forall|k: int|
                0 <= k < i ==> (#[trigger] lookups@[k] matches Some(c) ==> c.hash@ == unique@[k]@),
            forall|k: int|
                0 <= k < i ==> (#[trigger] lookups@[k] matches Some(c) ==> reads@[k] matches Some(r)
                    && c.author@ == r.author() && c.timestamp == r.timestamp() && c.summary@
                    == r.summary()),
        decreases unique.len() - i,
    {
        let ghost before = lookups@;
        let ghost before_reads = reads@;
        match look_up_commit(&repo, &unique[i]) {
            Some((c, read)) => {
                lookups.push(Some(c));
                reads.push(Some(read));
            },
            None => {
                lookups.push(None);
                reads.push(None);
            },
        }
        proof {
            assert forall|k: int|
                0 <= k < i + 1 implies (#[trigger] lookups@[k] matches Some(c) ==> c.hash@
                == unique@[k]@) by {
                if k < i {
                    assert(lookups@[k] == before[k]);
                }
            }
            assert forall|k: int|
                0 <= k < i + 1 implies (#[trigger] lookups@[k] matches Some(c) ==> reads@[k] matches Some(
                r,
            ) && c.author@ == r.author() && c.timestamp == r.timestamp() && c.summary@
                == r.summary()) by {
                if k < i {
                    assert(lookups@[k] == before[k]);
                    assert(reads@[k] == before_reads[k]);
                }
            }
        }
        i = i + 1;
    }
    let orphans = orphans_from_lookups(&unique, &lookups);
    proof {
        let u = string_views(unique@);
        lemma_first_occurrences(all);
        lemma_reported_hashes_distinct(orphans@, u, lookups@);
        assert forall|k: int| 0 <= k < lookups@.len() implies (#[trigger] lookups@[k] matches Some(
            c,
        ) ==> c.hash@ == u[k]) by {
            assert(u[k] == unique@[k]@);
        }
        assert(looked_up_under(u, lookups@));
        assert forall|a: int| 0 <= a < orphans@.len() implies all.contains(
            #[trigger] orphans@[a].commit_hash@,
        ) && is_lower_hex_hash(orphans@[a].commit_hash@) by {
            assert(u.contains(orphans@[a].commit_hash@));
            let k = choose|k: int| 0 <= k < all.len() && all[k] == orphans@[a].commit_hash@;
            assert(listed@.map_values(|h: String| h@)[k] == listed@[k]@);
        }
    }
    Ok(orphans)
}

/// `a`, a line feed, then `b` has the lines of `a` followed by those of `b`.
proof fn lemma_lines_concat(a: Seq<char>, b: Seq<char>)
    ensures
        lines_of(a + seq!['\n'] + b) == lines_of(a) + lines_of(b),
    decreases b.len(),
{
    let s = a + seq!['\n'] + b;
    if b.len() == 0 {
        assert(s.drop_last() =~= a);
        assert(lines_of(s) =~= lines_of(a) + lines_of(b));
    } else {
        let b0 = b.drop_last();
        lemma_lines_concat(a, b0);
        assert(s.drop_last() =~= a + seq!['\n'] + b0);
        assert(s.last() == b.last());
        lemma_lines_nonempty(b0);
        lemma_lines_nonempty(a);
        let la = lines_of(a);
        let lb0 = lines_of(b0);
        if b.last() == '\n' {
            assert(lines_of(s) =~= la + lines_of(b));
        } else {
            assert((la + lb0).last() == lb0.last());
            assert(lines_of(s) =~= la + lines_of(b));
        }
    }
}

/// The hashes of two runs of lines are those of the first run followed by
/// those of the second.
proof fn lemma_hashes_concat(l1: Seq<Seq<char>>, l2: Seq<Seq<char>>)
    ensures
        hashes_of_lines(l1 + l2) == hashes_of_lines(l1) + hashes_of_lines(l2),
    decreases l2.len(),
{
    if l2.len() == 0 {
        assert(l1 + l2 =~= l1);
        assert(hashes_of_lines(l1) + hashes_of_lines(l2) =~= hashes_of_lines(l1));
    } else {
        lemma_hashes_concat(l1, l2.drop_last());
        assert((l1 + l2).drop_last() =~= l1 + l2.drop_last());
        assert((l1 + l2).last() == l2.last());
        assert(hashes_of_lines(l1 + l2) =~= hashes_of_lines(l1) + hashes_of_lines(l2));
    }
}

/// Law: the hashes listed by two reports joined by a line feed are those of
/// the first report followed by those of the second.
pub proof fn lemma_parse_concat(a: Seq<char>, b: Seq<char>)
    ensures
        unreachable_commit_hashes(a + seq!['\n'] + b) == unreachable_commit_hashes(a)
            + unreachable_commit_hashes(b),
{
    lemma_lines_concat(a, b);
    lemma_hashes_concat(lines_of(a), lines_of(b));
}

} // verus!
