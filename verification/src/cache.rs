//! Where a scan is cached, and what goes wrong when it is read or written.
//! Reading and writing the file, and the JSON form, belong to the program
//! around the library.
use vstd::prelude::*;

verus! {

#[verifier::external_type_specification]
#[verifier::external_body]
pub struct ExIoError(std::io::Error);

#[verifier::external_type_specification]
#[verifier::external_body]
pub struct ExJsonError(serde_json::Error);

/// Errors that can occur during cache operations.
#[derive(Debug)]
pub enum CacheError {
    /// The cache file does not exist yet.
    NotFound,
    /// An I/O error occurred while reading or writing the cache file.
    Io(std::io::Error),
    /// The cache file contained invalid JSON.
    Json(serde_json::Error),
}

/// `e.to_string()` for an I/O error (its `Display`). The text comes from the
/// operating system's error description, so nothing is claimed of it.
#[verifier::external_body]
pub fn io_error_text(e: &std::io::Error) -> String {
    e.to_string()
}

/// `e.to_string()` for a `serde_json` error (its `Display`: the message with
/// the line and column). The error is opaque here, so nothing is claimed of
/// the text.
#[verifier::external_body]
pub fn json_error_text(e: &serde_json::Error) -> String {
    e.to_string()
}

/// The name of the cache file.
pub open spec fn cache_file_name() -> Seq<char> {
    seq![
        'g', 'i', 't', '-', 'g', 'h', 'o', 's', 't', 's', '-', 'c', 'a', 'c', 'h', 'e', '.', 'j',
        's', 'o', 'n',
    ]
}

/// `.git`
pub open spec fn git_dir_name() -> Seq<char> {
    seq!['.', 'g', 'i', 't']
}

/// A relative path `part` placed under `base`: a `/` goes between the two
/// unless `base` is empty or already ends with one (as `Path::join` does for
/// a relative part on Unix).
pub open spec fn join_path(base: Seq<char>, part: Seq<char>) -> Seq<char> {
    if base.len() == 0 {
        part
    } else if base.last() == '/' {
        base + part
    } else {
        base + seq!['/'] + part
    }
}

/// `<repo_path>/.git/git-ghosts-cache.json`.
pub open spec fn cache_path_of(repo_path: Seq<char>) -> Seq<char> {
    join_path(join_path(repo_path, git_dir_name()), cache_file_name())
}

fn join_path_text(base: String, part: &str) -> (res: String)
    ensures
        res@ == join_path(base@, part@),
{
    let n = base.unicode_len();
    if n == 0 {
        part.to_owned()
    } else if base.as_str().get_char(n - 1) == '/' {
        base.concat(part)
    } else {
        let mut res = base;
        res.push('/');
        res.append(part);
        res
    }
}

/// The cache file of the repository at `repo_path`:
/// `<repo_path>/.git/git-ghosts-cache.json`.
pub fn cache_path(repo_path: &str) -> (res: String)
    ensures
        res@ == cache_path_of(repo_path@),
{
    let git_dir = join_path_text(repo_path.to_owned(), ".git");
    let res = join_path_text(git_dir, "git-ghosts-cache.json");
    proof {
        reveal_strlit(".git");
        reveal_strlit("git-ghosts-cache.json");
        assert(".git"@ =~= git_dir_name());
        assert("git-ghosts-cache.json"@ =~= cache_file_name());
    }
    res
}

/// `no cache file found`
pub open spec fn not_found_text() -> Seq<char> {
    seq![
        'n', 'o', ' ', 'c', 'a', 'c', 'h', 'e', ' ', 'f', 'i', 'l', 'e', ' ', 'f', 'o', 'u', 'n',
        'd',
    ]
}

/// `I/O error: `
pub open spec fn io_error_prefix() -> Seq<char> {
    seq!['I', '/', 'O', ' ', 'e', 'r', 'r', 'o', 'r', ':', ' ']
}

/// `JSON error: `
pub open spec fn json_error_prefix() -> Seq<char> {
    seq!['J', 'S', 'O', 'N', ' ', 'e', 'r', 'r', 'o', 'r', ':', ' ']
}

/// `No scan cache found. Run git-ghosts scan first.`
pub open spec fn no_cache_text() -> Seq<char> {
    seq![
        'N', 'o', ' ', 's', 'c', 'a', 'n', ' ', 'c', 'a', 'c', 'h', 'e', ' ', 'f', 'o', 'u', 'n',
        'd', '.', ' ', 'R', 'u', 'n', ' ', 'g', 'i', 't', '-', 'g', 'h', 'o', 's', 't', 's', ' ',
        's', 'c', 'a', 'n', ' ', 'f', 'i', 'r', 's', 't', '.',
    ]
}

/// `Failed to read cache: `
pub open spec fn read_failure_prefix() -> Seq<char> {
    seq![
        'F', 'a', 'i', 'l', 'e', 'd', ' ', 't', 'o', ' ', 'r', 'e', 'a', 'd', ' ', 'c', 'a', 'c',
        'h', 'e', ':', ' ',
    ]
}

/// `Failed to parse cache: `
pub open spec fn parse_failure_prefix() -> Seq<char> {
    seq![
        'F', 'a', 'i', 'l', 'e', 'd', ' ', 't', 'o', ' ', 'p', 'a', 'r', 's', 'e', ' ', 'c', 'a',
        'c', 'h', 'e', ':', ' ',
    ]
}

/// `msg` starts with `prefix`.
pub open spec fn starts_with(msg: Seq<char>, prefix: Seq<char>) -> bool {
    msg.len() >= prefix.len() && msg.subrange(0, prefix.len() as int) == prefix
}

/// `msg` is the description of `e`: `no cache file found`, or `I/O error: `
/// or `JSON error: ` followed by the error's own text.
pub open spec fn cache_error_description(e: CacheError, msg: Seq<char>) -> bool {
    match e {
        CacheError::NotFound => msg == not_found_text(),
        CacheError::Io(_) => starts_with(msg, io_error_prefix()),
        CacheError::Json(_) => starts_with(msg, json_error_prefix()),
    }
}

/// `msg` is what the report and clean commands answer when the cache could
/// not be loaded because of `e`: the advice to scan first when there is no
/// cache, else `Failed to read cache: ` or `Failed to parse cache: `
/// followed by the error's own text.
pub open spec fn cache_failure_message(e: CacheError, msg: Seq<char>) -> bool {
    match e {
        CacheError::NotFound => msg == no_cache_text(),
        CacheError::Io(_) => starts_with(msg, read_failure_prefix()),
        CacheError::Json(_) => starts_with(msg, parse_failure_prefix()),
    }
}

fn prefixed(prefix: &str, rest: String) -> (res: String)
    ensures
        res@ == prefix@ + rest@,
{
    let mut res = prefix.to_owned();
    res.append(rest.as_str());
    res
}

impl CacheError {
    /// The description of the error, as the program shows it.
    pub fn message(&self) -> (res: String)
        ensures
            cache_error_description(*self, res@),
    {
        match self {
            CacheError::NotFound => {
                let res = "no cache file found".to_owned();
                proof {
                    reveal_strlit("no cache file found");
                    assert(res@ =~= not_found_text());
                }
                res
            },
            CacheError::Io(e) => {
                let res = prefixed("I/O error: ", io_error_text(e));
                proof {
                    reveal_strlit("I/O error: ");
                    assert(res@.subrange(0, 11) =~= io_error_prefix());
                }
                res
            },
            CacheError::Json(e) => {
                let res = prefixed("JSON error: ", json_error_text(e));
                proof {
                    reveal_strlit("JSON error: ");
                    assert(res@.subrange(0, 12) =~= json_error_prefix());
                }
                res
            },
        }
    }
}

/// The answer of the report and clean commands when the cache could not be
/// loaded because of `e`.
pub fn cache_failure_text(e: &CacheError) -> (res: String)
    ensures
        cache_failure_message(*e, res@),
{
    match e {
        CacheError::NotFound => {
            let res = "No scan cache found. Run git-ghosts scan first.".to_owned();
            proof {
                reveal_strlit("No scan cache found. Run git-ghosts scan first.");
                assert(res@ =~= no_cache_text());
            }
            res
        },
        CacheError::Io(e) => {
            let res = prefixed("Failed to read cache: ", io_error_text(e));
            proof {
                reveal_strlit("Failed to read cache: ");
                assert(res@.subrange(0, 22) =~= read_failure_prefix());
            }
            res
        },
        CacheError::Json(e) => {
            let res = prefixed("Failed to parse cache: ", json_error_text(e));
            proof {
                reveal_strlit("Failed to parse cache: ");
                assert(res@.subrange(0, 23) =~= parse_failure_prefix());
            }
            res
        },
    }
}

} // verus!
