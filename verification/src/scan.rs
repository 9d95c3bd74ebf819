//! The scanner: given the entries observed while walking a root, counts
//! and lists the files that the predicate and the size floor accept.

use vstd::prelude::*;
use crate::pattern::{spec_candidate, spec_exclude_source, glob_source, glob_match, path_matches};

verus! {

/// One directory entry as observed by the walker: its path, whether it is
/// a regular file, and its size — `None` when the metadata could not be
/// read, in which case the entry is skipped.
#[derive(Debug)]
pub struct FileEntry {
    pub path: String,
    pub is_file: bool,
    pub size: Option<u64>,
}

/// What one scan pass found: how many files matched, how many bytes they
/// hold (saturating at `u64::MAX`), and the matched paths in traversal
/// order.
#[derive(Debug)]
pub struct ScanResult {
    pub files: u64,
    pub bytes: u64,
    pub matched: Vec<String>,
}

/// Whether a walked entry is a matched file: a regular file of readable
/// size at or above the floor whose path the predicate accepts.
pub open spec fn entry_matches(
    e: FileEntry,
    glob: Seq<char>,
    exclude: Option<Seq<char>>,
    min_size: u64,
) -> bool {
    &&& e.is_file
    &&& match e.size {
        Some(n) => n >= min_size,
        None => false,
    }
    &&& spec_candidate(glob, exclude, e.path@)
}

/// The paths of the matched files, in traversal order.
pub open spec fn spec_matched(
    es: Seq<FileEntry>,
    glob: Seq<char>,
    exclude: Option<Seq<char>>,
    min_size: u64,
) -> Seq<Seq<char>>
    decreases es.len(),
{
    if es.len() == 0 {
        Seq::empty()
    } else {
        spec_matched(es.drop_last(), glob, exclude, min_size) + (if entry_matches(
            es.last(),
            glob,
            exclude,
            min_size,
        ) {
            seq![es.last().path@]
        } else {
            Seq::<Seq<char>>::empty()
        })
    }
}

/// The total size of the matched files.
pub open spec fn spec_matched_bytes(
    es: Seq<FileEntry>,
    glob: Seq<char>,
    exclude: Option<Seq<char>>,
    min_size: u64,
) -> int
    decreases es.len(),
{
    if es.len() == 0 {
        0
    } else {
        spec_matched_bytes(es.drop_last(), glob, exclude, min_size) + (if entry_matches(
            es.last(),
            glob,
            exclude,
            min_size,
        ) {
            es.last().size->0 as int
        } else {
            0
        })
    }
}

/// `x` clamped into `u64`.
pub open spec fn sat64(x: int) -> u64 {
    if x > u64::MAX {
        u64::MAX as u64
    } else if x < 0 {
        0u64
    } else {
        x as u64
    }
}

proof fn lemma_matched_len_le(
    es: Seq<FileEntry>,
    glob: Seq<char>,
    exclude: Option<Seq<char>>,
    min_size: u64,
)
    ensures
        spec_matched(es, glob, exclude, min_size).len() <= es.len(),
    decreases es.len(),
{
    if es.len() > 0 {
        lemma_matched_len_le(es.drop_last(), glob, exclude, min_size);
    }
}

proof fn lemma_matched_bytes_nonneg(
    es: Seq<FileEntry>,
    glob: Seq<char>,
    exclude: Option<Seq<char>>,
    min_size: u64,
)
    ensures
        spec_matched_bytes(es, glob, exclude, min_size) >= 0,
    decreases es.len(),
{
    if es.len() > 0 {
        lemma_matched_bytes_nonneg(es.drop_last(), glob, exclude, min_size);
    }
}

/// Scans the entries of one traversal: every matched file is counted,
/// its size added (saturating at `u64::MAX`), and its path recorded in
/// traversal order.
pub fn scan_entries(
    entries: &Vec<FileEntry>,
    glob: &globset::GlobSet,
    exclude: &Option<globset::GlobSet>,
    min_size: u64,
) -> (r: ScanResult)
    ensures
        r.matched@.map_values(|p: String| p@) == spec_matched(
            entries@,
            glob_source(*glob),
            spec_exclude_source(*exclude),
            min_size,
        ),
        r.files == spec_matched(
            entries@,
            glob_source(*glob),
            spec_exclude_source(*exclude),
            min_size,
        ).len(),
        r.bytes == sat64(
            spec_matched_bytes(
                entries@,
                glob_source(*glob),
                spec_exclude_source(*exclude),
                min_size,
            ),
        ),
{
    let ghost g = glob_source(*glob);
    let ghost x = spec_exclude_source(*exclude);
    let mut files: u64 = 0;
    let mut bytes: u64 = 0;
    let mut matched: Vec<String> = Vec::new();
    let mut i: usize = 0;
    proof {
        assert(entries@.take(0) =~= Seq::<FileEntry>::empty());
    }
    while i < entries.len()
        invariant
            i <= entries@.len(),
            g == glob_source(*glob),
            x == spec_exclude_source(*exclude),
            matched@.map_values(|p: String| p@) == spec_matched(
                entries@.take(i as int),
                g,
                x,
                min_size,
            ),
            files == spec_matched(entries@.take(i as int), g, x, min_size).len(),
            bytes == sat64(spec_matched_bytes(entries@.take(i as int), g, x, min_size)),
        decreases entries@.len() - i,
    {
        let ghost prev = entries@.take(i as int);
        let ghost cur = entries@.take(i + 1);
        proof {
            assert(cur.drop_last() =~= prev);
            assert(cur.last() == entries@[i as int]);
            lemma_matched_bytes_nonneg(prev, g, x, min_size);
            lemma_matched_len_le(prev, g, x, min_size);
        }
        let e = &entries[i];
        let mut hit = false;
        let mut sz: u64 = 0;
        if e.is_file {
            match e.size {
                Some(n) => {
                    if n >= min_size {
                        if path_matches(glob, exclude, e.path.as_str()) {
                            hit = true;
                            sz = n;
                        }
                    }
                },
                None => {},
            }
        }
        proof {
            assert(hit == entry_matches(entries@[i as int], g, x, min_size));
        }
        if hit {
            files = files + 1;
            bytes = if bytes > u64::MAX - sz {
                u64::MAX
            } else {
                bytes + sz
            };
            matched.push(e.path.clone());
            proof {
                assert(matched@.map_values(|p: String| p@) =~= spec_matched(
                    cur,
                    g,
                    x,
                    min_size,
                ));
            }
        } else {
            proof {
                assert(spec_matched(cur, g, x, min_size) =~= spec_matched(prev, g, x, min_size));
            }
        }
        i = i + 1;
    }
    proof {
        assert(entries@.take(entries@.len() as int) =~= entries@);
    }
    ScanResult { files, bytes, matched }
}

/// Merges the results of two traversals: counts are summed (saturating)
/// and the matched lists concatenated, first traversal first.
pub fn merge_scan(a: ScanResult, b: ScanResult) -> (r: ScanResult)
    ensures
        r.files == sat64(a.files + b.files),
        r.bytes == sat64(a.bytes + b.bytes),
        r.matched@ == a.matched@ + b.matched@,
{
    let files = if a.files > u64::MAX - b.files {
        u64::MAX
    } else {
        a.files + b.files
    };
    let bytes = if a.bytes > u64::MAX - b.bytes {
        u64::MAX
    } else {
        a.bytes + b.bytes
    };
    let mut matched = a.matched;
    let mut rest = b.matched;
    matched.append(&mut rest);
    ScanResult { files, bytes, matched }
}

/// Merging per-traversal results is the same as scanning the traversals
/// back to back: matched paths concatenate and byte totals add.
pub proof fn lemma_scan_of_concat(
    es1: Seq<FileEntry>,
    es2: Seq<FileEntry>,
    glob: Seq<char>,
    exclude: Option<Seq<char>>,
    min_size: u64,
)
    ensures
        spec_matched(es1 + es2, glob, exclude, min_size) == spec_matched(
            es1,
            glob,
            exclude,
            min_size,
        ) + spec_matched(es2, glob, exclude, min_size),
        spec_matched_bytes(es1 + es2, glob, exclude, min_size) == spec_matched_bytes(
            es1,
            glob,
            exclude,
            min_size,
        ) + spec_matched_bytes(es2, glob, exclude, min_size),
    decreases es2.len(),
{
    if es2.len() == 0 {
        assert(es1 + es2 =~= es1);
        assert(spec_matched(es2, glob, exclude, min_size) =~= Seq::<Seq<char>>::empty());
        assert(spec_matched(es1, glob, exclude, min_size) + Seq::<Seq<char>>::empty()
            =~= spec_matched(es1, glob, exclude, min_size));
    } else {
        lemma_scan_of_concat(es1, es2.drop_last(), glob, exclude, min_size);
        assert((es1 + es2).drop_last() =~= es1 + es2.drop_last());
        assert((es1 + es2).last() == es2.last());
        assert(spec_matched(es1 + es2, glob, exclude, min_size) =~= spec_matched(
            es1,
            glob,
            exclude,
            min_size,
        ) + spec_matched(es2, glob, exclude, min_size));
    }
}

/// Monotonicity of the size floor: raising the floor never increases the
/// matched file count.
pub proof fn lemma_raising_floor_never_adds_matches(
    es: Seq<FileEntry>,
    glob: Seq<char>,
    exclude: Option<Seq<char>>,
    lower: u64,
    higher: u64,
)
    requires
        lower <= higher,
    ensures
        spec_matched(es, glob, exclude, higher).len() <= spec_matched(
            es,
            glob,
            exclude,
            lower,
        ).len(),
    decreases es.len(),
{
    if es.len() > 0 {
        lemma_raising_floor_never_adds_matches(es.drop_last(), glob, exclude, lower, higher);
    }
}

/// Exclude correctness at the scan level: a path that the exclude pattern
/// matches never appears among the matched files.
pub proof fn lemma_excluded_path_never_matched(
    es: Seq<FileEntry>,
    glob: Seq<char>,
    exclude: Seq<char>,
    min_size: u64,
    path: Seq<char>,
)
    requires
        glob_match(exclude, path),
    ensures
        !spec_matched(es, glob, Some(exclude), min_size).contains(path),
    decreases es.len(),
{
    if es.len() > 0 {
        lemma_excluded_path_never_matched(es.drop_last(), glob, exclude, min_size, path);
        let whole = spec_matched(es, glob, Some(exclude), min_size);
        let front = spec_matched(es.drop_last(), glob, Some(exclude), min_size);
        if whole.contains(path) {
            let k = choose|k: int| 0 <= k < whole.len() && whole[k] == path;
            if k < front.len() {
                assert(front.contains(path));
            } else {
                assert(entry_matches(es.last(), glob, Some(exclude), min_size));
                assert(es.last().path@ == path);
            }
        }
    }
}

} // verus!
