//! Cleaning the log directory: which files count as logs, which of them go
//! when more are kept than allowed, and the disk they take.

use vstd::prelude::*;
use crate::selection::{count_marked, lemma_picks_exactly, pick_oldest, picks_oldest};

verus! {

/// A file found in the log directory: its name, when it was last modified
/// (nanoseconds since the Unix epoch) and its size in bytes.
#[derive(Clone, Debug)]
pub struct LogFileEntry {
    pub name: String,
    pub modified: u64,
    pub size: u64,
}

/// The index of the last dot of `s`, or -1 when it has none.
pub open spec fn last_dot(s: Seq<char>) -> int
    decreases s.len(),
{
    if s.len() == 0 {
        -1
    } else if s.last() == '.' {
        s.len() - 1
    } else {
        last_dot(s.drop_last())
    }
}

/// The extension of a file name, as `Path::extension` reads it: what
/// follows the last dot, unless that dot is the name's first character
/// (or there is none).
pub open spec fn extension_of(name: Seq<char>) -> Option<Seq<char>> {
    let d = last_dot(name);
    if d > 0 {
        Some(name.skip(d + 1))
    } else {
        None
    }
}

/// A log file: its extension is `log` or `gz`.
pub open spec fn is_log_file(name: Seq<char>) -> bool {
    match extension_of(name) {
        Some(e) => e == "log"@ || e == "gz"@,
        None => false,
    }
}

/// Which entries are log files.
pub open spec fn log_marks(files: Seq<LogFileEntry>) -> Seq<bool> {
    Seq::new(files.len(), |i: int| is_log_file(files[i].name@))
}

/// When each entry was last modified.
pub open spec fn modified_keys(files: Seq<LogFileEntry>) -> Seq<u64> {
    Seq::new(files.len(), |i: int| files[i].modified)
}

/// The bytes taken by the log files among `files` that are not marked
/// removed.
pub open spec fn kept_log_bytes(files: Seq<LogFileEntry>, removed: Seq<bool>) -> nat
    decreases files.len(),
{
    if files.len() == 0 {
        0
    } else {
        let i = files.len() - 1;
        kept_log_bytes(files.drop_last(), removed) + if is_log_file(files[i].name@) && !(i < removed.len()
            && removed[i]) {
            files[i].size as nat
        } else {
            0nat
        }
    }
}

/// The last dot of `s` is at `k` when `s[k]` is a dot and none follows.
proof fn lemma_last_dot_at(s: Seq<char>, k: int)
    requires
        0 <= k < s.len(),
        s[k] == '.',
        forall|j: int| k < j < s.len() ==> s[j] != '.',
    ensures
        last_dot(s) == k,
    decreases s.len(),
{
    if k < s.len() - 1 {
        lemma_last_dot_at(s.drop_last(), k);
    }
}

/// A name without a dot has no last dot.
proof fn lemma_no_dot(s: Seq<char>)
    requires
        forall|j: int| 0 <= j < s.len() ==> s[j] != '.',
    ensures
        last_dot(s) == -1,
    decreases s.len(),
{
    if s.len() > 0 {
        lemma_no_dot(s.drop_last());
    }
}

/// The index of the last dot of `s`, or none.
fn find_last_dot(s: &str) -> (r: Option<usize>)
    ensures
        match r {
            Some(k) => last_dot(s@) == k as int && k < s@.len(),
            None => last_dot(s@) == -1,
        },
{
    let n = s.unicode_len();
    let mut i: usize = n;
    while i > 0
        invariant
            i <= n,
            n == s@.len(),
            forall|j: int| i <= j < n ==> s@[j] != '.',
        decreases i,
    {
        if s.get_char(i - 1) == '.' {
            proof {
                lemma_last_dot_at(s@, i - 1);
            }
            return Some(i - 1);
        }
        i = i - 1;
    }
    proof {
        lemma_no_dot(s@);
    }
    None
}

/// Whether the characters of `s` from `start` on are those of `word`.
fn rest_is(s: &str, start: usize, word: &str) -> (r: bool)
    requires
        start <= s@.len(),
    ensures
        r == (s@.skip(start as int) == word@),
{
    let n = s.unicode_len();
    let m = word.unicode_len();
    if n - start != m {
        return false;
    }
    let mut i: usize = 0;
    while i < m
        invariant
            n == s@.len(),
            m == word@.len(),
            start + m == n,
            i <= m,
            forall|j: int| 0 <= j < i ==> s@[start + j] == word@[j],
        decreases m - i,
    {
        if s.get_char(start + i) != word.get_char(i) {
            assert(s@.skip(start as int)[i as int] != word@[i as int]);
            return false;
        }
        i = i + 1;
    }
    assert(s@.skip(start as int) =~= word@);
    true
}

/// Whether a file of this name is a log file: its extension is `log` or `gz`.
pub fn is_log_file_name(name: &str) -> (r: bool)
    ensures
        r == is_log_file(name@),
{
    let n = name.unicode_len();
    match find_last_dot(name) {
        Some(d) => {
            if d == 0 || d >= n {
                return false;
            }
            rest_is(name, d + 1, "log") || rest_is(name, d + 1, "gz")
        },
        None => false,
    }
}

/// The indices of the log files to remove so that no more than `max_files`
/// remain: none while there are no more than that, else exactly the
/// surplus, oldest modification first and, among files modified at the
/// same time, in the order they are listed.
pub fn old_logs_to_remove(files: &Vec<LogFileEntry>, max_files: usize) -> (r: Vec<usize>)
    ensures
        count_marked(log_marks(files@)) <= max_files ==> r@.len() == 0,
        count_marked(log_marks(files@)) > max_files ==> picks_oldest(
            modified_keys(files@),
            log_marks(files@),
            count_marked(log_marks(files@)) - max_files,
            r@.map_values(|i: usize| i as int),
        ),
        count_marked(log_marks(files@)) > max_files ==> r@.len() == count_marked(log_marks(files@)) - max_files,
{
    let mut marks: Vec<bool> = Vec::new();
    let mut keys: Vec<u64> = Vec::new();
    let mut count: usize = 0;
    let mut i: usize = 0;
    while i < files.len()
        invariant
            i <= files@.len(),
            marks@.len() == i,
            keys@.len() == i,
            forall|j: int| 0 <= j < i ==> marks@[j] == is_log_file(files@[j].name@),
            forall|j: int| 0 <= j < i ==> keys@[j] == files@[j].modified,
            count == count_marked(marks@),
            count <= i,
        decreases files@.len() - i,
    {
        let m = is_log_file_name(files[i].name.as_str());
        let ghost before = marks@;
        marks.push(m);
        keys.push(files[i].modified);
        assert(marks@.drop_last() =~= before);
        if m {
            count = count + 1;
        }
        i = i + 1;
    }
    assert(marks@ =~= log_marks(files@));
    assert(keys@ =~= modified_keys(files@));
    if count <= max_files {
        return Vec::new();
    }
    let r = pick_oldest(&keys, &marks, count - max_files);
    proof {
        lemma_picks_exactly(keys@, marks@, (count - max_files) as int, r@.map_values(|i: usize| i as int));
    }
    r
}

/// The bytes the log files among `files` take once those marked in
/// `removed` are gone.
pub fn remaining_log_bytes(files: &Vec<LogFileEntry>, removed: &Vec<bool>) -> (r: u64)
    requires
        kept_log_bytes(files@, removed@) <= u64::MAX,
    ensures
        r == kept_log_bytes(files@, removed@),
{
    let mut total: u64 = 0;
    let mut i: usize = 0;
    while i < files.len()
        invariant
            i <= files@.len(),
            total == kept_log_bytes(files@.take(i as int), removed@),
            kept_log_bytes(files@, removed@) <= u64::MAX,
        decreases files@.len() - i,
    {
        assert(files@.take(i + 1).drop_last() =~= files@.take(i as int));
        proof {
            lemma_kept_prefix(files@, removed@, i + 1);
        }
        let gone = i < removed.len() && removed[i];
        if is_log_file_name(files[i].name.as_str()) && !gone {
            total = total + files[i].size;
        }
        i = i + 1;
    }
    assert(files@.take(files@.len() as int) =~= files@);
    total
}

/// The bytes kept of a prefix never exceed those kept of the whole.
proof fn lemma_kept_prefix(files: Seq<LogFileEntry>, removed: Seq<bool>, k: int)
    requires
        0 <= k <= files.len(),
    ensures
        kept_log_bytes(files.take(k), removed) <= kept_log_bytes(files, removed),
    decreases files.len() - k,
{
    if k < files.len() {
        lemma_kept_prefix(files, removed, k + 1);
        assert(files.take(k + 1).drop_last() =~= files.take(k));
    } else {
        assert(files.take(k) =~= files);
    }
}

} // verus!
