//! Which candidate paths are scanned: exclude patterns, matched with `glob`.

use vstd::prelude::*;

use glob::{Pattern, PatternError};

verus! {

#[verifier::external_type_specification]
#[verifier::external_body]
pub struct ExPatternError(PatternError);

/// Whether `glob` accepts `pattern` as a well-formed shell pattern.
pub uninterp spec fn glob_pattern_valid(pattern: Seq<char>) -> bool;

/// Whether the well-formed shell pattern `pattern` matches `path`.
pub uninterp spec fn glob_matches(pattern: Seq<char>, path: Seq<char>) -> bool;

/// Relies on glob::Pattern::new, which fails exactly on malformed patterns,
/// and on glob::Pattern::matches (default options), whose answer depends on
/// the pattern and the path alone.
#[verifier::external_body]
fn glob_match(pattern: &str, path: &str) -> (r: Result<bool, PatternError>)
    ensures
        r is Ok <==> glob_pattern_valid(pattern@),
        r matches Ok(m) ==> m == glob_matches(pattern@, path@),
{
    match Pattern::new(pattern) {
        Ok(compiled) => Ok(compiled.matches(path)),
        Err(e) => Err(e),
    }
}

/// A selection pattern that could not be compiled.
#[derive(Debug)]
pub enum SelectionError {
    InvalidPattern { pattern: String, error: PatternError },
}

/// Every pattern of `patterns` is well-formed.
pub open spec fn all_valid(patterns: Seq<String>) -> bool {
    forall|j: int| 0 <= j < patterns.len() ==> glob_pattern_valid(#[trigger] patterns[j]@)
}

/// Some pattern of `patterns` matches `path`.
pub open spec fn any_matches(patterns: Seq<String>, path: Seq<char>) -> bool {
    exists|j: int| 0 <= j < patterns.len() && glob_matches(#[trigger] patterns[j]@, path)
}

/// `pattern` is one of the malformed patterns of `patterns`.
pub open spec fn is_malformed_in(patterns: Seq<String>, pattern: Seq<char>) -> bool {
    exists|j: int|
        0 <= j < patterns.len() && !glob_pattern_valid(#[trigger] patterns[j]@) && pattern
            == patterns[j]@
}

/// Compiles every pattern of the list; the first malformed one is an error.
fn check_pattern_list(patterns: &[String]) -> (r: Result<(), SelectionError>)
    ensures
        r is Ok <==> all_valid(patterns@),
        r matches Err(SelectionError::InvalidPattern { pattern, .. }) ==> is_malformed_in(
            patterns@,
            pattern@,
        ),
{
    let mut i: usize = 0;
    while i < patterns.len()
        invariant
            i <= patterns@.len(),
            forall|l: int| 0 <= l < i ==> glob_pattern_valid(#[trigger] patterns@[l]@),
        decreases patterns@.len() - i,
    {
        let pattern = &patterns[i];
        match glob_match(pattern.as_str(), "") {
            Ok(_) => {},
            Err(error) => {
                return Err(SelectionError::InvalidPattern { pattern: pattern.clone(), error });
            },
        }
        i = i + 1;
    }
    Ok(())
}

/// Checks, before any scanning, that every include and exclude pattern is
/// well-formed; a malformed one is reported as an error.
pub fn check_patterns(includes: &[String], excludes: &[String]) -> (r: Result<
    (),
    SelectionError,
>)
    ensures
        r is Ok <==> all_valid(includes@) && all_valid(excludes@),
        r matches Err(SelectionError::InvalidPattern { pattern, .. }) ==> is_malformed_in(
            includes@,
            pattern@,
        ) || is_malformed_in(excludes@, pattern@),
{
    match check_pattern_list(includes) {
        Ok(()) => {},
        Err(e) => {
            return Err(e);
        },
    }
    check_pattern_list(excludes)
}

/// Whether some exclude pattern matches `test_str`. Every pattern is
/// compiled, so a malformed one is an error whatever the path.
pub fn matches_exclude(exclude_patterns: &[String], test_str: &str) -> (r: Result<
    bool,
    SelectionError,
>)
    ensures
        r is Err <==> !all_valid(exclude_patterns@),
        r matches Ok(b) ==> b == any_matches(exclude_patterns@, test_str@),
        r matches Err(SelectionError::InvalidPattern { pattern, .. }) ==> is_malformed_in(
            exclude_patterns@,
            pattern@,
        ),
{
    let mut found = false;
    let mut i: usize = 0;
    while i < exclude_patterns.len()
        invariant
            i <= exclude_patterns@.len(),
            forall|l: int| 0 <= l < i ==> glob_pattern_valid(#[trigger] exclude_patterns@[l]@),
            found == exists|l: int|
                0 <= l < i && glob_matches(#[trigger] exclude_patterns@[l]@, test_str@),
        decreases exclude_patterns@.len() - i,
    {
        let pattern = &exclude_patterns[i];
        match glob_match(pattern.as_str(), test_str) {
            Ok(m) => {
                found = found || m;
            },
            Err(error) => {
                return Err(SelectionError::InvalidPattern { pattern: pattern.clone(), error });
            },
        }
        i = i + 1;
    }
    Ok(found)
}

/// Whether a candidate path is scanned: it must be an ordinary file and no
/// exclude pattern may match its display string, so an exclude pattern always
/// wins over the include pattern that produced the path. A malformed exclude
/// pattern is an error whatever the path.
pub fn is_selected(exclude_patterns: &[String], display_path: &str, is_file: bool) -> (r: Result<
    bool,
    SelectionError,
>)
    ensures
        r is Err <==> !all_valid(exclude_patterns@),
        r matches Ok(b) ==> b == (is_file && !any_matches(exclude_patterns@, display_path@)),
        r matches Err(SelectionError::InvalidPattern { pattern, .. }) ==> is_malformed_in(
            exclude_patterns@,
            pattern@,
        ),
{
    match matches_exclude(exclude_patterns, display_path) {
        Ok(excluded) => Ok(is_file && !excluded),
        Err(e) => Err(e),
    }
}

} // verus!
