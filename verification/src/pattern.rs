//! The match predicate: a glob pattern that accepts files and an optional
//! exclude pattern that rejects them, compiled through the `globset` crate
//! and kept apart so that the exclude pattern only ever rejects.

use vstd::prelude::*;
use crate::errors::DeleterError;

verus! {

#[verifier::external_type_specification]
#[verifier::external_body]
pub struct ExGlobSet(globset::GlobSet);

/// Whether `pattern` is a well-formed glob; what `globset::Glob::new`
/// accepts depends on the pattern text alone.
pub uninterp spec fn glob_ok(pattern: Seq<char>) -> bool;

/// The pattern text that a compiled glob set was built from.
pub uninterp spec fn glob_source(globs: globset::GlobSet) -> Seq<char>;

/// Whether the glob `pattern` matches `path`; `globset` computes this from
/// the two strings alone.
pub uninterp spec fn glob_match(pattern: Seq<char>, path: Seq<char>) -> bool;

/// Relies on `globset::Glob::new` and `globset::GlobSetBuilder::build`:
/// compiling one pattern succeeds exactly when the pattern parses, and the
/// result matches paths as that pattern.
#[verifier::external_body]
fn compile_glob(pattern: &str) -> (r: Result<globset::GlobSet, String>)
    ensures
        r is Ok <==> glob_ok(pattern@),
        r is Ok ==> glob_source(r->Ok_0) == pattern@,
{
    let glob = globset::Glob::new(pattern).map_err(|e| e.to_string())?;
    let mut builder = globset::GlobSetBuilder::new();
    builder.add(glob);
    builder.build().map_err(|e| e.to_string())
}

/// Relies on `globset::GlobSet::is_match`: whether any pattern of the set
/// matches the path, a function of the patterns and the path alone.
#[verifier::external_body]
fn glob_set_is_match(globs: &globset::GlobSet, path: &str) -> (r: bool)
    ensures
        r == glob_match(glob_source(*globs), path@),
{
    globs.is_match(path)
}

/// The accepting pattern in effect: the given one, or match-everything.
pub open spec fn spec_glob_pattern(glob: Option<&str>) -> Seq<char> {
    match glob {
        Some(p) => p@,
        None => "**"@,
    }
}

/// Compiles the accepting glob pattern (match-everything when absent) and the
/// optional exclude pattern, each into its own matcher.
///
/// The two are deliberately kept apart: a file is a candidate only if it
/// matches the accepting set and does not match the exclude set, so folding
/// both into one set would turn the exclude pattern into a second way to
/// match.  Compilation fails exactly when one of the patterns is
/// malformed.
pub fn build_globset(glob: Option<&str>, exclude: &Option<String>) -> (r: Result<
    (globset::GlobSet, Option<globset::GlobSet>),
    DeleterError,
>)
    ensures
        r is Ok <==> glob_ok(spec_glob_pattern(glob)) && (exclude matches Some(e)
            ==> glob_ok(e@)),
        r is Err ==> r->Err_0 is Glob,
        r is Ok ==> glob_source(r->Ok_0.0) == spec_glob_pattern(glob),
        r is Ok ==> (r->Ok_0.1 is Some <==> exclude is Some),
        r is Ok ==> (exclude matches Some(e) ==> glob_source(r->Ok_0.1->0) == e@),
{
    let pattern: &str = match glob {
        Some(p) => p,
        None => "**",
    };
    let inc = match compile_glob(pattern) {
        Ok(g) => g,
        Err(m) => {
            return Err(DeleterError::Glob(m));
        },
    };
    let exc = match exclude {
        Some(e) => match compile_glob(e.as_str()) {
            Ok(g) => Some(g),
            Err(m) => {
                return Err(DeleterError::Glob(m));
            },
        },
        None => None,
    };
    Ok((inc, exc))
}

/// The pattern texts of an optional compiled exclude set.
pub open spec fn spec_exclude_source(exclude: Option<globset::GlobSet>) -> Option<Seq<char>> {
    match exclude {
        Some(g) => Some(glob_source(g)),
        None => None,
    }
}

/// Whether a path is a candidate: it matches the accepting pattern and does
/// not match the exclude pattern (no exclude pattern rejects nothing).
pub open spec fn spec_candidate(
    glob: Seq<char>,
    exclude: Option<Seq<char>>,
    path: Seq<char>,
) -> bool {
    glob_match(glob, path) && !(match exclude {
        Some(e) => glob_match(e, path),
        None => false,
    })
}

/// Evaluates the predicate on one path: the accepting pattern must match,
/// the exclude pattern must not.
pub fn path_matches(glob: &globset::GlobSet, exclude: &Option<globset::GlobSet>, path: &str) -> (r:
    bool)
    ensures
        r == spec_candidate(glob_source(*glob), spec_exclude_source(*exclude), path@),
{
    if !glob_set_is_match(glob, path) {
        return false;
    }
    match exclude {
        Some(e) => !glob_set_is_match(e, path),
        None => true,
    }
}

/// Exclude correctness: a path that the exclude pattern matches is never a
/// candidate, whatever the accepting pattern says of it.
pub proof fn lemma_excluded_is_never_candidate(
    glob: Seq<char>,
    exclude: Seq<char>,
    path: Seq<char>,
)
    ensures
        glob_match(exclude, path) ==> !spec_candidate(glob, Some(exclude), path),
{
}

} // verus!
