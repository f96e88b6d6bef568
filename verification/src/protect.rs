//! Which branch names the protection patterns shield from deletion.
//!
//! The patterns are tried in list order. The first one that is invalid or
//! matches anywhere in the name settles the question, and no later pattern is
//! consulted: an invalid pattern is an error, a match that starts at offset 0
//! protects the name, and a match that starts further in leaves it
//! unprotected, even if a later pattern would have matched at the start.

use vstd::prelude::*;
use crate::pattern::{finding_of, leftmost_match_start, pattern_compiles, probe, Finding};

verus! {

/// What a single finding settles about a name.
#[derive(Clone, Copy, Debug, PartialEq, Eq, Structural)]
pub enum Verdict {
    /// The pattern matches at the very start of the name.
    Protected,
    /// The pattern matches, but not at the start.
    Unprotected,
    /// The pattern is not a valid regular expression.
    Malformed,
}

/// A protection pattern that is not a valid regular expression.
#[derive(Clone, Debug, PartialEq, Eq)]
pub struct PatternError {
    /// Position of the pattern in the protection list.
    pub index: usize,
    /// The pattern as configured.
    pub pattern: String,
}

impl PatternError {
    /// What the message of an error about `pattern` says.
    pub open spec fn message_of(pattern: Seq<char>) -> Seq<char> {
        pattern + " cannot be used as a safety prefix because it is not valid regex"@
    }

    /// A message for the operator, which names the offending pattern.
    pub fn message(&self) -> (text: String)
        ensures
            text@ == Self::message_of(self.pattern@),
    {
        self.pattern.clone().concat(
            " cannot be used as a safety prefix because it is not valid regex",
        )
    }
}

/// The verdict that `finding` forces, or `None` where the next pattern has to
/// be tried.
pub open spec fn verdict_of(finding: Finding) -> Option<Verdict> {
    match finding {
        Finding::Absent => None,
        Finding::Invalid => Some(Verdict::Malformed),
        Finding::At(start) => Some(
            if start == 0 {
                Verdict::Protected
            } else {
                Verdict::Unprotected
            },
        ),
    }
}

/// The ruling of the findings at positions `from` and up: that of the first
/// one which forces a verdict. `Err(i)` says that pattern `i` is malformed.
pub open spec fn ruling_from(findings: Seq<Finding>, from: int) -> Result<bool, int>
    decreases findings.len() - from,
{
    if from < 0 || from >= findings.len() {
        Ok(false)
    } else {
        match verdict_of(findings[from]) {
            None => ruling_from(findings, from + 1),
            Some(Verdict::Protected) => Ok(true),
            Some(Verdict::Unprotected) => Ok(false),
            Some(Verdict::Malformed) => Err(from),
        }
    }
}

/// What each of `prefixes` finds in `name`, in list order.
pub open spec fn findings(name: Seq<char>, prefixes: Seq<Seq<char>>) -> Seq<Finding> {
    Seq::new(prefixes.len(), |i: int| finding_of(prefixes[i], name))
}

/// Whether `prefixes` protect `name`; `Err(i)` says that pattern `i` is
/// malformed and was reached.
pub open spec fn protection(name: Seq<char>, prefixes: Seq<Seq<char>>) -> Result<bool, int> {
    ruling_from(findings(name, prefixes), 0)
}

/// The texts of a list of string slices.
pub open spec fn texts(items: Seq<&str>) -> Seq<Seq<char>> {
    items.map_values(|item: &str| item@)
}

/// Pattern `i` is the first to settle anything about `name`, and it matches
/// at the very start.
pub open spec fn anchors_at(name: Seq<char>, prefixes: Seq<Seq<char>>, i: int) -> bool {
    &&& 0 <= i < prefixes.len()
    &&& finding_of(prefixes[i], name) == Finding::At(0)
    &&& forall|j: int| 0 <= j < i ==> finding_of(prefixes[j], name) is Absent
}

/// The protection list that applies where none is configured: the single
/// pattern `vault/`.
pub fn default_safe_prefixes() -> (prefixes: Vec<&'static str>)
    ensures
        texts(prefixes@) == seq!["vault/"@],
{
    let mut prefixes: Vec<&'static str> = Vec::new();
    prefixes.push("vault/");
    prefixes
}

/// Decides what `finding` settles.
pub fn settle(finding: Finding) -> (verdict: Option<Verdict>)
    ensures
        verdict == verdict_of(finding),
{
    match finding {
        Finding::Absent => None,
        Finding::Invalid => Some(Verdict::Malformed),
        Finding::At(start) => if start == 0 {
            Some(Verdict::Protected)
        } else {
            Some(Verdict::Unprotected)
        },
    }
}

/// Decides whether `safety_prefixes` protect `branch_name`.
///
/// Fails only where an invalid pattern is reached, and then names it.
pub fn is_protected_branch(branch_name: &str, safety_prefixes: &Vec<&str>) -> (result: Result<
    bool,
    PatternError,
>)
    ensures
        match protection(branch_name@, texts(safety_prefixes@)) {
            Ok(protected) => result == Ok::<bool, PatternError>(protected),
            Err(i) => result matches Err(e) && e.index == i && i < safety_prefixes@.len()
                && e.pattern@ == safety_prefixes@[i]@,
        },
{
    let ghost all = findings(branch_name@, texts(safety_prefixes@));
    let count: usize = safety_prefixes.len();
    let mut i: usize = 0;
    while i < count
        invariant
            count == safety_prefixes@.len(),
            i <= count,
            all == findings(branch_name@, texts(safety_prefixes@)),
            forall|j: int| 0 <= j < i ==> all[j] is Absent,
        decreases count - i,
    {
        let prefix: &str = safety_prefixes[i];
        proof {
            lemma_skip_absent(all, i as int);
        }
        match settle(probe(prefix, branch_name)) {
            None => {},
            Some(Verdict::Protected) => {
                return Ok(true);
            },
            Some(Verdict::Unprotected) => {
                return Ok(false);
            },
            Some(Verdict::Malformed) => {
                return Err(PatternError { index: i, pattern: prefix.to_owned() });
            },
        }
        i += 1;
    }
    proof {
        lemma_skip_absent(all, count as int);
    }
    Ok(false)
}

/// Findings that force no verdict can be skipped.
proof fn lemma_skip_absent(findings: Seq<Finding>, upto: int)
    requires
        0 <= upto <= findings.len(),
        forall|j: int| 0 <= j < upto ==> findings[j] is Absent,
    ensures
        ruling_from(findings, 0) == ruling_from(findings, upto),
    decreases upto,
{
    if upto > 0 {
        lemma_skip_absent(findings, upto - 1);
    }
}

/// Where the ruling from `from` on is not "unprotected", a finding at or
/// after `from` forced it, with only absent findings in between.
proof fn lemma_decisive_position(findings: Seq<Finding>, from: int) -> (i: int)
    requires
        0 <= from,
        ruling_from(findings, from) != Ok::<bool, int>(false),
    ensures
        from <= i < findings.len(),
        forall|j: int| from <= j < i ==> findings[j] is Absent,
        !(findings[i] is Absent),
        ruling_from(findings, from) == ruling_from(findings, i),
    decreases findings.len() - from,
{
    if findings[from] is Absent {
        lemma_decisive_position(findings, from + 1)
    } else {
        from
    }
}

/// The first pattern that is invalid or matches anywhere decides alone: the
/// name is protected if that match starts at offset 0, unprotected if it
/// starts later, and the pattern is reported if it is invalid.
pub proof fn lemma_first_match_decides(name: Seq<char>, prefixes: Seq<Seq<char>>, i: int)
    requires
        0 <= i < prefixes.len(),
        forall|j: int| 0 <= j < i ==> finding_of(prefixes[j], name) is Absent,
        !(finding_of(prefixes[i], name) is Absent),
    ensures
        protection(name, prefixes) == match finding_of(prefixes[i], name) {
            Finding::At(start) => Ok::<bool, int>(start == 0),
            _ => Err::<bool, int>(i),
        },
{
    lemma_skip_absent(findings(name, prefixes), i);
}

/// Patterns listed after the deciding one are never consulted: two lists that
/// agree up to and including it rule alike, whatever follows.
pub proof fn lemma_later_patterns_ignored(
    name: Seq<char>,
    prefixes: Seq<Seq<char>>,
    other: Seq<Seq<char>>,
    i: int,
)
    requires
        0 <= i < prefixes.len(),
        i < other.len(),
        forall|j: int| 0 <= j <= i ==> other[j] == prefixes[j],
        forall|j: int| 0 <= j < i ==> finding_of(prefixes[j], name) is Absent,
        !(finding_of(prefixes[i], name) is Absent),
    ensures
        protection(name, other) == protection(name, prefixes),
{
    lemma_first_match_decides(name, prefixes, i);
    lemma_first_match_decides(name, other, i);
}

/// A name in which no pattern matches anywhere is unprotected.
pub proof fn lemma_no_match_unprotected(name: Seq<char>, prefixes: Seq<Seq<char>>)
    requires
        forall|j: int| 0 <= j < prefixes.len() ==> finding_of(prefixes[j], name) is Absent,
    ensures
        protection(name, prefixes) == Ok::<bool, int>(false),
{
    lemma_skip_absent(findings(name, prefixes), prefixes.len() as int);
}

/// A name is protected exactly when some pattern's leftmost match starts at
/// offset 0 and every pattern before it is valid and matches nowhere.
pub proof fn lemma_protected_iff_anchored(name: Seq<char>, prefixes: Seq<Seq<char>>)
    ensures
        protection(name, prefixes) == Ok::<bool, int>(true) <==> exists|i: int|
            anchors_at(name, prefixes, i),
{
    if protection(name, prefixes) == Ok::<bool, int>(true) {
        let all = findings(name, prefixes);
        let i = lemma_decisive_position(all, 0);
        assert forall|j: int| 0 <= j < i implies finding_of(prefixes[j], name) is Absent by {
            assert(all[j] == finding_of(prefixes[j], name));
        }
        assert(anchors_at(name, prefixes, i));
    }
    if exists|i: int| anchors_at(name, prefixes, i) {
        let i = choose|i: int| anchors_at(name, prefixes, i);
        lemma_first_match_decides(name, prefixes, i);
    }
}

/// A pattern reported as malformed stands in the list, is invalid, and every
/// pattern before it is valid and matches nowhere in the name.
pub proof fn lemma_malformed_was_reached(name: Seq<char>, prefixes: Seq<Seq<char>>, i: int)
    requires
        protection(name, prefixes) == Err::<bool, int>(i),
    ensures
        0 <= i < prefixes.len(),
        !pattern_compiles(prefixes[i]),
        forall|j: int| 0 <= j < i ==> finding_of(prefixes[j], name) is Absent,
{
    let all = findings(name, prefixes);
    let at = lemma_decisive_position(all, 0);
    assert forall|j: int| 0 <= j < at implies finding_of(prefixes[j], name) is Absent by {
        assert(all[j] == finding_of(prefixes[j], name));
    }
}

/// With a single pattern, the name is protected exactly when the pattern's
/// leftmost match starts at offset 0; a match further in does not protect.
pub proof fn lemma_single_pattern(name: Seq<char>, pattern: Seq<char>)
    ensures
        protection(name, seq![pattern]) == if !pattern_compiles(pattern) {
            Err::<bool, int>(0)
        } else {
            Ok::<bool, int>(leftmost_match_start(pattern, name) == Some(0usize))
        },
{
    let prefixes = seq![pattern];
    if finding_of(pattern, name) is Absent {
        lemma_no_match_unprotected(name, prefixes);
    } else {
        lemma_first_match_decides(name, prefixes, 0);
    }
}

} // verus!
