//! Recent-file records: timestamps as plain epoch milliseconds, the
//! case-insensitive type filter, and the most-recent-first ordering. The
//! folder scan and the change watcher live at the edge.

use vstd::prelude::*;

use crate::clock::{parse_rfc3339_millis, rfc3339_millis_of};
use crate::text::lemma_filter_push;

verus! {

/// A file handed in by the edge: path, name, extension, size, and its
/// modification time as RFC 3339 text.
pub struct File {
    pub path: String,
    pub name: String,
    pub extension: String,
    pub size: u64,
    pub modified: String,
}

/// A recently used file: the parsed access instant in epoch milliseconds
/// and the type taken from the extension.
pub struct RecentFile {
    pub name: String,
    pub path: String,
    pub last_accessed: i64,
    pub file_type: String,
}

/// The mathematical value of a recent-file record.
pub struct RecentFileV {
    pub name: Seq<char>,
    pub path: Seq<char>,
    pub last_accessed: i64,
    pub file_type: Seq<char>,
}

impl View for RecentFile {
    type V = RecentFileV;

    open spec fn view(&self) -> RecentFileV {
        RecentFileV {
            name: self.name@,
            path: self.path@,
            last_accessed: self.last_accessed,
            file_type: self.file_type@,
        }
    }
}

impl Clone for RecentFile {
    fn clone(&self) -> (r: Self)
        ensures
            r@ == self@,
    {
        RecentFile {
            name: self.name.clone(),
            path: self.path.clone(),
            last_accessed: self.last_accessed,
            file_type: self.file_type.clone(),
        }
    }
}

/// The values of a recent-file list.
pub open spec fn recent_views(fs: Seq<RecentFile>) -> Seq<RecentFileV> {
    fs.map_values(|f: RecentFile| f@)
}

impl RecentFile {
    /// Build the recent-file record of a file: the access instant is the
    /// parsed modification timestamp, falling back to `now_millis` when
    /// the text does not parse.
    pub fn from_file(file: &File, now_millis: i64) -> (r: RecentFile)
        ensures
            r.name@ == file.name@,
            r.path@ == file.path@,
            r.file_type@ == file.extension@,
            r.last_accessed == match rfc3339_millis_of(file.modified@) {
                Option::Some(t) => t,
                Option::None => now_millis,
            },
    {
        let last_accessed: i64 = match parse_rfc3339_millis(file.modified.as_str()) {
            Some(t) => t,
            None => now_millis,
        };
        RecentFile {
            name: file.name.clone(),
            path: file.path.clone(),
            last_accessed,
            file_type: file.extension.clone(),
        }
    }
}

/// The ASCII-lowercase counterpart of a character; everything outside
/// `A`..`Z` is left alone.
pub open spec fn ascii_lower_char(c: char) -> char {
    if c == 'A' {
        'a'
    } else if c == 'B' {
        'b'
    } else if c == 'C' {
        'c'
    } else if c == 'D' {
        'd'
    } else if c == 'E' {
        'e'
    } else if c == 'F' {
        'f'
    } else if c == 'G' {
        'g'
    } else if c == 'H' {
        'h'
    } else if c == 'I' {
        'i'
    } else if c == 'J' {
        'j'
    } else if c == 'K' {
        'k'
    } else if c == 'L' {
        'l'
    } else if c == 'M' {
        'm'
    } else if c == 'N' {
        'n'
    } else if c == 'O' {
        'o'
    } else if c == 'P' {
        'p'
    } else if c == 'Q' {
        'q'
    } else if c == 'R' {
        'r'
    } else if c == 'S' {
        's'
    } else if c == 'T' {
        't'
    } else if c == 'U' {
        'u'
    } else if c == 'V' {
        'v'
    } else if c == 'W' {
        'w'
    } else if c == 'X' {
        'x'
    } else if c == 'Y' {
        'y'
    } else if c == 'Z' {
        'z'
    } else {
        c
    }
}

/// Lower one character, ASCII-only.
fn ascii_lower(c: char) -> (r: char)
    ensures
        r == ascii_lower_char(c),
{
    match c {
        'A' => 'a',
        'B' => 'b',
        'C' => 'c',
        'D' => 'd',
        'E' => 'e',
        'F' => 'f',
        'G' => 'g',
        'H' => 'h',
        'I' => 'i',
        'J' => 'j',
        'K' => 'k',
        'L' => 'l',
        'M' => 'm',
        'N' => 'n',
        'O' => 'o',
        'P' => 'p',
        'Q' => 'q',
        'R' => 'r',
        'S' => 's',
        'T' => 't',
        'U' => 'u',
        'V' => 'v',
        'W' => 'w',
        'X' => 'x',
        'Y' => 'y',
        'Z' => 'z',
        _ => c,
    }
}

impl RecentFile {
    /// `from_file` against the wall clock: the fallback instant is
    /// whatever the clock answered, so only the parsed case is pinned.
    pub fn from_file_now(file: &File) -> (r: RecentFile)
        ensures
            r.name@ == file.name@,
            r.path@ == file.path@,
            r.file_type@ == file.extension@,
            match rfc3339_millis_of(file.modified@) {
                Option::Some(t) => r.last_accessed == t,
                Option::None => true,
            },
    {
        let now = crate::clock::now_millis();
        RecentFile::from_file(file, now)
    }
}

/// ASCII case-insensitive equality of two character sequences.
pub open spec fn ascii_eq_ignore_case(a: Seq<char>, b: Seq<char>) -> bool {
    a.len() == b.len() && forall|i: int|
        0 <= i < a.len() ==> ascii_lower_char(#[trigger] a[i]) == ascii_lower_char(b[i])
}

/// Compare two strings for equality ignoring ASCII case.
pub fn eq_ignore_ascii_case(a: &str, b: &str) -> (r: bool)
    ensures
        r == ascii_eq_ignore_case(a@, b@),
{
    let alen = a.unicode_len();
    let blen = b.unicode_len();
    if alen != blen {
        return false;
    }
    let mut i: usize = 0;
    while i < alen
        invariant
            0 <= i <= alen,
            alen == a@.len(),
            alen == b@.len(),
            forall|j: int| 0 <= j < i ==> ascii_lower_char(#[trigger] a@[j]) == ascii_lower_char(
                b@[j],
            ),
        decreases alen - i,
    {
        if ascii_lower(a.get_char(i)) != ascii_lower(b.get_char(i)) {
            return false;
        }
        i = i + 1;
    }
    true
}

/// Keep the files whose type reads `file_type`, ignoring ASCII case.
pub fn filter_recent_files_by_type(files: &Vec<RecentFile>, file_type: &str) -> (r: Vec<
    RecentFile,
>)
    ensures
        recent_views(r@) == recent_views(files@).filter(
            |f: RecentFileV| ascii_eq_ignore_case(f.file_type, file_type@),
        ),
{
    let ghost fsv = recent_views(files@);
    let mut out: Vec<RecentFile> = Vec::new();
    let mut i: usize = 0;
    while i < files.len()
        invariant
            0 <= i <= files@.len(),
            fsv == recent_views(files@),
            recent_views(out@) == fsv.subrange(0, i as int).filter(
                |f: RecentFileV| ascii_eq_ignore_case(f.file_type, file_type@),
            ),
        decreases files@.len() - i,
    {
        let ghost out_pre = out@;
        let keep = eq_ignore_ascii_case(files[i].file_type.as_str(), file_type);
        if keep {
            let c = files[i].clone();
            out.push(c);
        }
        proof {
            let p = |f: RecentFileV| ascii_eq_ignore_case(f.file_type, file_type@);
            assert(fsv.subrange(0, i + 1) =~= fsv.subrange(0, i as int).push(fsv[i as int]));
            lemma_filter_push(fsv.subrange(0, i as int), p, fsv[i as int]);
            assert(fsv[i as int] == files@[i as int]@);
            assert(p(fsv[i as int]) == keep);
            if keep {
                assert(recent_views(out@) =~= recent_views(out_pre).push(
                    out@[out_pre.len() as int]@,
                ));
                assert(out@[out_pre.len() as int]@ == fsv[i as int]);
            }
        }
        i = i + 1;
    }
    proof {
        assert(fsv.subrange(0, fsv.len() as int) =~= fsv);
    }
    out
}

/// Most recent first.
pub open spec fn sorted_most_recent_first(fs: Seq<RecentFileV>) -> bool {
    forall|k: int|
        0 <= k && k + 1 < fs.len() ==> (#[trigger] fs[k]).last_accessed >= fs[k + 1].last_accessed
}

/// Order a recent-file list most recent first. The result holds exactly
/// the input's records.
pub fn sort_recent_files(files: &Vec<RecentFile>) -> (r: Vec<RecentFile>)
    ensures
        sorted_most_recent_first(recent_views(r@)),
        recent_views(r@).to_multiset() == recent_views(files@).to_multiset(),
{
    broadcast use vstd::seq_lib::group_to_multiset_ensures;

    let ghost fsv = recent_views(files@);
    let mut out: Vec<RecentFile> = Vec::new();
    let mut i: usize = 0;
    while i < files.len()
        invariant
            0 <= i <= files@.len(),
            fsv == recent_views(files@),
            sorted_most_recent_first(recent_views(out@)),
            recent_views(out@).to_multiset() == fsv.subrange(0, i as int).to_multiset(),
        decreases files@.len() - i,
    {
        broadcast use vstd::seq_lib::group_to_multiset_ensures;

        let item = files[i].clone();
        let mut pos: usize = 0;
        while pos < out.len() && out[pos].last_accessed >= item.last_accessed
            invariant
                0 <= pos <= out@.len(),
                item@ == fsv[i as int],
                0 <= i < fsv.len(),
                sorted_most_recent_first(recent_views(out@)),
                forall|k: int|
                    0 <= k < pos ==> (#[trigger] recent_views(out@)[k]).last_accessed
                        >= item@.last_accessed,
            decreases out@.len() - pos,
        {
            proof {
                assert(recent_views(out@)[pos as int] == out@[pos as int]@);
            }
            pos = pos + 1;
        }
        proof {
            assert(recent_views(out@)[pos as int] == out@[pos as int]@ || pos == out@.len());
            if pos < out@.len() {
                assert(recent_views(out@)[pos as int].last_accessed < item@.last_accessed);
            }
        }
        let ghost out_pre = out@;
        let ghost itemv = item@;
        out.insert(pos, item);
        proof {
            assert(out@ == out_pre.insert(pos as int, item));
            let ov = recent_views(out@);
            let ov_pre = recent_views(out_pre);
            assert(ov.len() == ov_pre.len() + 1);
            assert forall|x: int| 0 <= x < ov.len() implies ov[x] == (if x < pos as int {
                ov_pre[x]
            } else if x == pos as int {
                itemv
            } else {
                ov_pre[x - 1]
            }) by {
                if x < pos as int {
                    assert(out@[x] == out_pre[x]);
                } else if x == pos as int {
                    assert(out@[x]@ == itemv);
                } else {
                    assert(out@[x] == out_pre[x - 1]);
                }
            }
            // ordering is preserved around the insertion point
            assert forall|k: int|
                0 <= k && k + 1 < ov.len() implies (#[trigger] ov[k]).last_accessed >= ov[k
                + 1].last_accessed by {
                if k + 1 < pos as int {
                } else if k + 1 == pos as int {
                    assert(ov[k] == ov_pre[k]);
                    assert(ov[k].last_accessed >= itemv.last_accessed);
                } else if k == pos as int {
                    if k + 1 < ov.len() {
                        assert(ov[k + 1] == ov_pre[k]);
                        if (pos as int) < ov_pre.len() {
                            assert(itemv.last_accessed > ov_pre[pos as int].last_accessed);
                        }
                    }
                } else {
                }
            }
            // the inserted sequence's multiset gains exactly the new record
            assert(ov.remove(pos as int) =~= ov_pre);
            assert(ov.remove(pos as int).to_multiset() =~= ov.to_multiset().remove(
                ov[pos as int],
            ));
            assert(ov[pos as int] == itemv);
            assert(ov.contains(itemv));
            assert(ov.to_multiset().count(itemv) > 0);
            assert(ov.to_multiset() =~= ov_pre.to_multiset().insert(itemv));
            assert(fsv.subrange(0, i + 1) =~= fsv.subrange(0, i as int).push(fsv[i as int]));
            assert(fsv.subrange(0, i + 1).to_multiset() =~= fsv.subrange(
                0,
                i as int,
            ).to_multiset().insert(fsv[i as int]));
        }
        i = i + 1;
    }
    proof {
        assert(fsv.subrange(0, fsv.len() as int) =~= fsv);
    }
    out
}

} // verus!
