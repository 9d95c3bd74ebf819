//! Root collection: splitting list-file content into path tokens,
//! first-seen deduplication, and validation of the collected root set.

use vstd::prelude::*;
use crate::errors::DeleterError;
use crate::text::{spec_trim, chars_of, trim_bounds_in};

verus! {

/// The characters that separate path tokens in a list file.
pub open spec fn is_sep(c: char) -> bool {
    c == ',' || c == ' ' || c == '\t' || c == '\n'
}

/// Number of leading non-separator characters of `s`.
pub open spec fn token_end(s: Seq<char>) -> int
    decreases s.len(),
{
    if s.len() == 0 || is_sep(s[0]) {
        0
    } else {
        1 + token_end(s.drop_first())
    }
}

proof fn lemma_token_end_bounds(s: Seq<char>)
    ensures
        0 <= token_end(s) <= s.len(),
    decreases s.len(),
{
    if s.len() > 0 && !is_sep(s[0]) {
        lemma_token_end_bounds(s.drop_first());
    }
}

/// The tokens of a list file: maximal separator-free runs, trimmed of
/// surrounding whitespace, with runs that trim to nothing left out.
pub open spec fn clean_tokens(s: Seq<char>) -> Seq<Seq<char>>
    decreases s.len(),
        via clean_tokens_decreases
{
    if s.len() == 0 {
        Seq::empty()
    } else if is_sep(s[0]) {
        clean_tokens(s.drop_first())
    } else {
        let k = token_end(s);
        let t = spec_trim(s.take(k));
        (if t.len() > 0 {
            seq![t]
        } else {
            Seq::<Seq<char>>::empty()
        }) + clean_tokens(s.skip(k))
    }
}

#[via_fn]
proof fn clean_tokens_decreases(s: Seq<char>) {
    if s.len() > 0 && !is_sep(s[0]) {
        lemma_token_end_bounds(s);
        lemma_token_end_bounds(s.drop_first());
        assert(token_end(s) >= 1);
    }
}

/// Appends `t` unless it is already present.
pub open spec fn push_unique(acc: Seq<Seq<char>>, t: Seq<char>) -> Seq<Seq<char>> {
    if acc.contains(t) {
        acc
    } else {
        acc.push(t)
    }
}

/// Removes duplicates, keeping the first occurrence of each element.
pub open spec fn dedup_first_seen(ts: Seq<Seq<char>>) -> Seq<Seq<char>>
    decreases ts.len(),
{
    if ts.len() == 0 {
        Seq::empty()
    } else {
        push_unique(dedup_first_seen(ts.drop_last()), ts.last())
    }
}

/// What parsing list-file content returns: its tokens, deduplicated.
pub open spec fn spec_parse_paths(s: Seq<char>) -> Seq<Seq<char>> {
    dedup_first_seen(clean_tokens(s))
}

proof fn lemma_token_end_at(s: Seq<char>, k: int)
    requires
        0 <= k <= s.len(),
        forall|i: int| 0 <= i < k ==> !is_sep(#[trigger] s[i]),
        k == s.len() || is_sep(s[k]),
    ensures
        token_end(s) == k,
    decreases k,
{
    if k > 0 {
        assert(!is_sep(s[0]));
        lemma_token_end_at(s.drop_first(), k - 1);
    }
}

/// Whether `c` separates tokens.
fn is_sep_char(c: char) -> (r: bool)
    ensures
        r == is_sep(c),
{
    c == ',' || c == ' ' || c == '\t' || c == '\n'
}

/// Whether some string of `v` has the view `s`.
fn contains_string(v: &Vec<String>, s: &String) -> (r: bool)
    ensures
        r == v@.map_values(|p: String| p@).contains(s@),
{
    let ghost views = v@.map_values(|p: String| p@);
    let mut k: usize = 0;
    while k < v.len()
        invariant
            k <= v@.len(),
            views == v@.map_values(|p: String| p@),
            forall|j: int| 0 <= j < k ==> views[j] != s@,
        decreases v@.len() - k,
    {
        if v[k] == *s {
            proof {
                assert(views[k as int] == s@);
            }
            return true;
        }
        k = k + 1;
    }
    proof {
        assert(forall|j: int| 0 <= j < views.len() ==> views[j] != s@);
        if views.contains(s@) {
            let w = choose|j: int| 0 <= j < views.len() && views[j] == s@;
            assert(views[w] != s@);
        }
    }
    false
}

/// Splits list-file content into directory paths.
///
/// Tokens are separated by commas, spaces, tabs or line breaks; each token
/// is trimmed of surrounding whitespace, empty tokens are dropped, and a
/// path that was already seen is dropped too, so the first occurrence sets
/// the order.
pub fn parse_paths_from_content(content: &str) -> (r: Vec<String>)
    ensures
        r@.map_values(|p: String| p@) == spec_parse_paths(content@),
{
    let v = chars_of(content);
    let n = v.len();
    let mut out: Vec<String> = Vec::new();
    let ghost mut done: Seq<Seq<char>> = Seq::empty();
    let mut i: usize = 0;
    proof {
        assert(v@.skip(0) =~= v@);
        assert(done + clean_tokens(v@.skip(0)) =~= clean_tokens(v@));
    }
    while i < n
        invariant
            v@ == content@,
            i <= n == v@.len(),
            out@.map_values(|p: String| p@) == dedup_first_seen(done),
            clean_tokens(v@) == done + clean_tokens(v@.skip(i as int)),
        decreases n - i,
    {
        if is_sep_char(v[i]) {
            proof {
                assert(v@.skip(i as int).drop_first() =~= v@.skip(i + 1));
            }
            i = i + 1;
        } else {
            let start = i;
            let mut j = i + 1;
            while j < n && !is_sep_char(v[j])
                invariant
                    v@ == content@,
                    start < j <= n == v@.len(),
                    forall|x: int| start <= x < j ==> !is_sep(#[trigger] v@[x]),
                decreases n - j,
            {
                j = j + 1;
            }
            let ghost rest = v@.skip(start as int);
            proof {
                assert(forall|x: int| 0 <= x < rest.len() ==> rest[x] == v@[start + x]);
                lemma_token_end_at(rest, j - start);
                assert(rest.take(j - start) =~= v@.subrange(start as int, j as int));
                assert(rest.skip(j - start) =~= v@.skip(j as int));
            }
            let (tlo, thi) = trim_bounds_in(&v, start, j);
            let ghost t = spec_trim(rest.take(j - start));
            proof {
                assert(t == v@.subrange(tlo as int, thi as int));
                assert(clean_tokens(rest) == (if t.len() > 0 {
                    seq![t]
                } else {
                    Seq::<Seq<char>>::empty()
                }) + clean_tokens(v@.skip(j as int)));
            }
            if thi > tlo {
                let tok = content.substring_char(tlo, thi).to_owned();
                proof {
                    assert(tok@ == t);
                }
                let dup = contains_string(&out, &tok);
                if !dup {
                    out.push(tok);
                }
                proof {
                    let ghost prev = done;
                    done = done + seq![t];
                    assert(done.drop_last() =~= prev);
                    assert(dedup_first_seen(done) == push_unique(dedup_first_seen(prev), t));
                    assert(out@.map_values(|p: String| p@) =~= dedup_first_seen(done));
                    assert(done + clean_tokens(v@.skip(j as int)) =~= prev + clean_tokens(rest));
                }
            } else {
                proof {
                    assert(done + clean_tokens(v@.skip(j as int)) =~= done + clean_tokens(rest));
                }
            }
            i = j;
        }
    }
    proof {
        assert(clean_tokens(v@.skip(n as int)) =~= Seq::<Seq<char>>::empty());
        assert(done =~= done + clean_tokens(v@.skip(n as int)));
        assert(out@.map_values(|p: String| p@) == spec_parse_paths(content@));
    }
    out
}

/// One command-line root argument, as observed on disk by the caller:
/// a directory, a readable list file with its content, something else,
/// or a path whose metadata could not be read.
#[derive(Debug)]
pub enum RootInput {
    Directory { path: String },
    ListFile { path: String, content: String },
    Other { path: String },
    Unreadable { path: String, error: String },
}

/// The outcome of expanding the root arguments, at the level of views.
pub enum RootExpansion {
    Roots(Seq<Seq<char>>),
    Unreadable(Seq<char>),
    NotDirectory(Seq<char>),
    Empty,
}

/// Folds `ts` into `acc`, keeping only paths not seen before.
pub open spec fn merge_unique(acc: Seq<Seq<char>>, ts: Seq<Seq<char>>) -> Seq<Seq<char>>
    decreases ts.len(),
{
    if ts.len() == 0 {
        acc
    } else {
        merge_unique(push_unique(acc, ts[0]), ts.drop_first())
    }
}

pub open spec fn expand_acc(inputs: Seq<RootInput>, acc: Seq<Seq<char>>) -> RootExpansion
    decreases inputs.len(),
{
    if inputs.len() == 0 {
        if acc.len() == 0 {
            RootExpansion::Empty
        } else {
            RootExpansion::Roots(acc)
        }
    } else {
        match inputs[0] {
            RootInput::Directory { path } => expand_acc(
                inputs.drop_first(),
                push_unique(acc, path@),
            ),
            RootInput::ListFile { path, content } => expand_acc(
                inputs.drop_first(),
                merge_unique(acc, spec_parse_paths(content@)),
            ),
            RootInput::Other { path } => RootExpansion::NotDirectory(path@),
            RootInput::Unreadable { path, error } => RootExpansion::Unreadable(error@),
        }
    }
}

/// What expanding the root arguments yields: every directory argument and
/// every path named in a list file, deduplicated in first-seen order; or
/// the first argument that is neither, or an empty root set.
pub open spec fn spec_expand_roots(inputs: Seq<RootInput>) -> RootExpansion {
    expand_acc(inputs, Seq::empty())
}

/// Expands the root arguments into the deduplicated root set.
///
/// A directory argument stands for itself; a list-file argument stands for
/// the paths in its content; an argument that is neither is rejected as an
/// invalid job directory, an unreadable one with its I/O error, and an
/// empty expansion is rejected outright.
pub fn expand_roots(inputs: &Vec<RootInput>) -> (r: Result<Vec<String>, DeleterError>)
    ensures
        match spec_expand_roots(inputs@) {
            RootExpansion::Roots(rs) => r is Ok && r->Ok_0@.map_values(|p: String| p@) == rs,
            RootExpansion::Unreadable(m) => r matches Err(DeleterError::Io(e)) && e@ == m,
            RootExpansion::NotDirectory(p) => r matches Err(DeleterError::JobDir(q)) && q@
                == p,
            RootExpansion::Empty => r matches Err(DeleterError::NoValidPaths),
        },
{
    let mut out: Vec<String> = Vec::new();
    let ghost mut acc: Seq<Seq<char>> = Seq::empty();
    let mut i: usize = 0;
    proof {
        assert(inputs@.skip(0) =~= inputs@);
    }
    while i < inputs.len()
        invariant
            i <= inputs@.len(),
            out@.map_values(|p: String| p@) == acc,
            spec_expand_roots(inputs@) == expand_acc(inputs@.skip(i as int), acc),
        decreases inputs@.len() - i,
    {
        proof {
            assert(inputs@.skip(i as int).drop_first() =~= inputs@.skip(i + 1));
            assert(inputs@.skip(i as int)[0] == inputs@[i as int]);
        }
        match &inputs[i] {
            RootInput::Directory { path } => {
                let dup = contains_string(&out, path);
                if !dup {
                    out.push(path.clone());
                }
                proof {
                    acc = push_unique(acc, path@);
                    assert(out@.map_values(|p: String| p@) =~= acc);
                }
            },
            RootInput::ListFile { path: _, content } => {
                let toks = parse_paths_from_content(content.as_str());
                let ghost ptoks = spec_parse_paths(content@);
                let ghost acc0 = acc;
                let mut k: usize = 0;
                proof {
                    assert(ptoks.skip(0) =~= ptoks);
                }
                while k < toks.len()
                    invariant
                        k <= toks@.len(),
                        toks@.map_values(|p: String| p@) == ptoks,
                        out@.map_values(|p: String| p@) == acc,
                        merge_unique(acc, ptoks.skip(k as int)) == merge_unique(acc0, ptoks),
                    decreases toks@.len() - k,
                {
                    proof {
                        assert(ptoks.skip(k as int)[0] == ptoks[k as int]);
                        assert(ptoks.skip(k as int).drop_first() =~= ptoks.skip(k + 1));
                    }
                    let dup = contains_string(&out, &toks[k]);
                    if !dup {
                        out.push(toks[k].clone());
                    }
                    proof {
                        acc = push_unique(acc, ptoks[k as int]);
                        assert(out@.map_values(|p: String| p@) =~= acc);
                    }
                    k = k + 1;
                }
                proof {
                    assert(ptoks.skip(ptoks.len() as int).len() == 0);
                    assert(acc == merge_unique(acc0, ptoks));
                }
            },
            RootInput::Other { path } => {
                return Err(DeleterError::JobDir(path.clone()));
            },
            RootInput::Unreadable { path: _, error } => {
                return Err(DeleterError::Io(error.clone()));
            },
        }
        i = i + 1;
    }
    proof {
        assert(inputs@.skip(inputs@.len() as int).len() == 0);
    }
    if out.len() == 0 {
        return Err(DeleterError::NoValidPaths);
    }
    Ok(out)
}

/// No path occurs twice.
pub open spec fn no_dups(ts: Seq<Seq<char>>) -> bool {
    forall|i: int, j: int| 0 <= i < j < ts.len() ==> ts[i] != ts[j]
}

proof fn lemma_push_unique_no_dups(acc: Seq<Seq<char>>, t: Seq<char>)
    requires
        no_dups(acc),
    ensures
        no_dups(push_unique(acc, t)),
{
    if !acc.contains(t) {
        let r = acc.push(t);
        assert forall|i: int, j: int| 0 <= i < j < r.len() implies r[i] != r[j] by {
            if j == acc.len() {
                assert(r[i] == acc[i]);
                if acc[i] == t {
                    assert(acc.contains(t));
                }
            }
        }
    }
}

proof fn lemma_merge_unique_no_dups(acc: Seq<Seq<char>>, ts: Seq<Seq<char>>)
    requires
        no_dups(acc),
    ensures
        no_dups(merge_unique(acc, ts)),
    decreases ts.len(),
{
    if ts.len() > 0 {
        lemma_push_unique_no_dups(acc, ts[0]);
        lemma_merge_unique_no_dups(push_unique(acc, ts[0]), ts.drop_first());
    }
}

proof fn lemma_expand_acc_no_dups(inputs: Seq<RootInput>, acc: Seq<Seq<char>>)
    requires
        no_dups(acc),
    ensures
        expand_acc(inputs, acc) matches RootExpansion::Roots(rs) ==> no_dups(rs),
    decreases inputs.len(),
{
    if inputs.len() > 0 {
        match inputs[0] {
            RootInput::Directory { path } => {
                lemma_push_unique_no_dups(acc, path@);
                lemma_expand_acc_no_dups(inputs.drop_first(), push_unique(acc, path@));
            },
            RootInput::ListFile { path, content } => {
                lemma_merge_unique_no_dups(acc, spec_parse_paths(content@));
                lemma_expand_acc_no_dups(
                    inputs.drop_first(),
                    merge_unique(acc, spec_parse_paths(content@)),
                );
            },
            RootInput::Other { .. } => {},
            RootInput::Unreadable { .. } => {},
        }
    }
}

/// Dedup invariant: however the same directory is supplied — twice on the
/// command line, or again through a list file — the expanded root set
/// names each path once.
pub proof fn lemma_root_set_deduplicated(inputs: Seq<RootInput>)
    ensures
        spec_expand_roots(inputs) matches RootExpansion::Roots(rs) ==> no_dups(rs),
{
    lemma_expand_acc_no_dups(inputs, Seq::empty());
}

/// What the caller observed when it revisited one collected root.
#[derive(Debug)]
pub enum RootState {
    IsDirectory,
    NotDirectory,
    Unreadable { error: String },
}

/// One collected root together with its observed state.
#[derive(Debug)]
pub struct RootCheck {
    pub path: String,
    pub state: RootState,
}

/// The first root that fails validation, at the level of views.
pub enum RootProblem {
    NotDirectory(Seq<char>),
    Unreadable(Seq<char>),
}

/// The first offending entry of the root checks, if any.
pub open spec fn spec_validate(cs: Seq<RootCheck>) -> Option<RootProblem>
    decreases cs.len(),
{
    if cs.len() == 0 {
        None
    } else {
        match cs[0].state {
            RootState::IsDirectory => spec_validate(cs.drop_first()),
            RootState::NotDirectory => Some(RootProblem::NotDirectory(cs[0].path@)),
            RootState::Unreadable { error } => Some(RootProblem::Unreadable(error@)),
        }
    }
}

/// Confirms that every collected root is a directory.
///
/// The first root that is not a directory is rejected as an invalid job
/// directory; one whose state could not be read is rejected with its I/O
/// error.
pub fn validate_roots(checks: &Vec<RootCheck>) -> (r: Result<(), DeleterError>)
    ensures
        r is Ok <==> spec_validate(checks@) is None,
        spec_validate(checks@) matches Some(RootProblem::NotDirectory(p)) ==> r matches Err(
            DeleterError::JobDir(q),
        ) && q@ == p,
        spec_validate(checks@) matches Some(RootProblem::Unreadable(m)) ==> r matches Err(
            DeleterError::Io(e),
        ) && e@ == m,
{
    let mut i: usize = 0;
    proof {
        assert(checks@.skip(0) =~= checks@);
    }
    while i < checks.len()
        invariant
            i <= checks@.len(),
            spec_validate(checks@) == spec_validate(checks@.skip(i as int)),
        decreases checks@.len() - i,
    {
        proof {
            assert(checks@.skip(i as int).drop_first() =~= checks@.skip(i + 1));
            assert(checks@.skip(i as int)[0] == checks@[i as int]);
        }
        match &checks[i].state {
            RootState::IsDirectory => {},
            RootState::NotDirectory => {
                return Err(DeleterError::JobDir(checks[i].path.clone()));
            },
            RootState::Unreadable { error } => {
                return Err(DeleterError::Io(error.clone()));
            },
        }
        i = i + 1;
    }
    Ok(())
}

} // verus!
