//! Matching one protection pattern against one branch name.
//!
//! Patterns are regular expressions in the syntax of the `regex` crate, which
//! does the compiling and the searching. What it answers is named here, not
//! defined: [`pattern_compiles`] and [`leftmost_match_start`] stand for its
//! answers, and everything the library proves about protection is proved for
//! whatever those answers are.

use vstd::prelude::*;

verus! {

/// `regex::Error`, the reason why `regex::Regex::new` rejected a pattern.
/// It is carried through unread.
#[verifier::external_type_specification]
#[verifier::external_body]
pub struct ExRegexError(regex::Error);

/// Whether `regex::Regex::new` accepts `pattern`.
pub uninterp spec fn pattern_compiles(pattern: Seq<char>) -> bool;

/// Where the leftmost match of `pattern` in `haystack` starts, as
/// `regex::Regex::find` reports it for the regex compiled from `pattern`: a
/// byte offset into `haystack`, or `None` when the pattern matches nowhere.
pub uninterp spec fn leftmost_match_start(pattern: Seq<char>, haystack: Seq<char>) -> Option<usize>;

/// What one pattern finds in one name.
#[derive(Clone, Copy, Debug, PartialEq, Eq, Structural)]
pub enum Finding {
    /// The pattern is not a valid regular expression.
    Invalid,
    /// The pattern is valid and matches nowhere in the name.
    Absent,
    /// The pattern matches; its leftmost match starts at this byte offset.
    At(usize),
}

/// The finding for `pattern` in `name`.
pub open spec fn finding_of(pattern: Seq<char>, name: Seq<char>) -> Finding {
    if !pattern_compiles(pattern) {
        Finding::Invalid
    } else {
        match leftmost_match_start(pattern, name) {
            Some(start) => Finding::At(start),
            None => Finding::Absent,
        }
    }
}

/// Compiles `pattern` with `regex::Regex::new` and searches `haystack` with
/// `regex::Regex::find`, keeping of the match only `regex::Match::start`.
///
/// Trusted: the result is `Err` exactly when compilation fails, and otherwise
/// holds the start offset of the leftmost match, if there is one. Both are
/// functions of the two texts alone.
#[verifier::external_body]
fn search(pattern: &str, haystack: &str) -> (found: Result<Option<usize>, regex::Error>)
    ensures
        found is Ok <==> pattern_compiles(pattern@),
        found matches Ok(start) ==> start == leftmost_match_start(pattern@, haystack@),
{
    regex::Regex::new(pattern).map(|re| re.find(haystack).map(|m| m.start()))
}

/// Tries `pattern` on `name`.
pub fn probe(pattern: &str, name: &str) -> (finding: Finding)
    ensures
        finding == finding_of(pattern@, name@),
{
    match search(pattern, name) {
        Err(_) => Finding::Invalid,
        Ok(None) => Finding::Absent,
        Ok(Some(start)) => Finding::At(start),
    }
}

} // verus!
