//! Choosing the deletion candidates among the local branches.
//!
//! Every branch is screened in enumeration order: its name must be readable,
//! it must be an orphan, and no protection pattern may shield it. The first
//! branch that cannot be screened aborts the collection.

use vstd::prelude::*;
use crate::branch::{is_orphan, Branch, BranchName};
use crate::protect::{is_protected_branch, protection, texts, PatternError};

verus! {

/// What the repository answered when asked for its local branches.
#[derive(Clone, Debug, PartialEq, Eq)]
pub enum Listing {
    /// The branches could not be enumerated.
    Unavailable,
    /// The local branches, in enumeration order.
    Branches(Vec<Branch>),
}

/// An orphan branch that no pattern protects: it may be deleted once the
/// operator agrees.
#[derive(Clone, Debug, PartialEq, Eq)]
pub struct Candidate {
    /// Position of the branch in the listing.
    pub index: usize,
    /// Name of the branch.
    pub name: String,
}

/// Why a branch has no usable name.
#[derive(Clone, Copy, Debug, PartialEq, Eq, Structural)]
pub enum NameFault {
    /// The name is not valid UTF-8.
    NotUtf8,
    /// The name could not be read.
    Unreadable,
}

/// Why a collection was aborted.
#[derive(Clone, Debug, PartialEq, Eq)]
pub enum CollectError {
    /// The local branches could not be enumerated.
    Enumeration,
    /// The branch at `index` has no usable name.
    BranchName { index: usize, fault: NameFault },
    /// Screening the branch at `index` reached an invalid protection pattern.
    Pattern { index: usize, name: String, error: PatternError },
}

/// A candidate, as a mathematical value.
pub struct CandidateView {
    pub index: int,
    pub name: Seq<char>,
}

/// A collection failure, as a mathematical value.
pub enum Failure {
    Enumeration,
    BranchName { index: int, fault: NameFault },
    Pattern { index: int, name: Seq<char>, pattern_index: int, pattern: Seq<char> },
}

impl View for Candidate {
    type V = CandidateView;

    open spec fn view(&self) -> CandidateView {
        CandidateView { index: self.index as int, name: self.name@ }
    }
}

impl View for CollectError {
    type V = Failure;

    open spec fn view(&self) -> Failure {
        match *self {
            CollectError::Enumeration => Failure::Enumeration,
            CollectError::BranchName { index, fault } => Failure::BranchName {
                index: index as int,
                fault,
            },
            CollectError::Pattern { index, name, error } => Failure::Pattern {
                index: index as int,
                name: name@,
                pattern_index: error.index as int,
                pattern: error.pattern@,
            },
        }
    }
}

impl CollectError {
    /// What the message of an error with the view `failure` says.
    pub open spec fn message_of(failure: Failure) -> Seq<char> {
        match failure {
            Failure::Enumeration => "Failed to get local branches"@,
            Failure::BranchName { fault: NameFault::Unreadable, .. } => {
                "Failed to get name for a branch"@
            },
            Failure::BranchName { fault: NameFault::NotUtf8, .. } => {
                "Branch name is not valid UTF-8"@
            },
            Failure::Pattern { name, pattern, .. } => "failed to check if "@ + name
                + " is a protected branch: "@ + PatternError::message_of(pattern),
        }
    }

    /// A message for the operator, which names the step that failed and,
    /// where there is one, the branch and the pattern.
    pub fn message(&self) -> (text: String)
        ensures
            text@ == Self::message_of(self@),
    {
        match self {
            CollectError::Enumeration => String::from_str("Failed to get local branches"),
            CollectError::BranchName { fault: NameFault::Unreadable, .. } => String::from_str(
                "Failed to get name for a branch",
            ),
            CollectError::BranchName { fault: NameFault::NotUtf8, .. } => String::from_str(
                "Branch name is not valid UTF-8",
            ),
            CollectError::Pattern { name, error, .. } => {
                let cause = error.message();
                String::from_str("failed to check if ").concat(name.as_str()).concat(
                    " is a protected branch: ",
                ).concat(cause.as_str())
            },
        }
    }
}

/// The views of a list of candidates.
pub open spec fn views(candidates: Seq<Candidate>) -> Seq<CandidateView> {
    candidates.map_values(|candidate: Candidate| candidate@)
}

/// The view of what a collection returned.
pub open spec fn outcome_view(outcome: Result<Vec<Candidate>, CollectError>) -> Result<
    Seq<CandidateView>,
    Failure,
> {
    match outcome {
        Ok(candidates) => Ok(views(candidates@)),
        Err(error) => Err(error@),
    }
}

/// What screening the branch at `index` yields: a candidate, nothing (the
/// branch stays), or the failure that aborts the collection.
pub open spec fn screening(branch: Branch, index: int, prefixes: Seq<Seq<char>>) -> Result<
    Option<CandidateView>,
    Failure,
> {
    match branch.name {
        BranchName::NotUtf8 => Err(Failure::BranchName { index, fault: NameFault::NotUtf8 }),
        BranchName::Unreadable => Err(
            Failure::BranchName { index, fault: NameFault::Unreadable },
        ),
        BranchName::Valid(name) => {
            if branch.upstream is Present {
                Ok(None)
            } else {
                match protection(name@, prefixes) {
                    Err(k) => Err(
                        Failure::Pattern {
                            index,
                            name: name@,
                            pattern_index: k,
                            pattern: prefixes[k],
                        },
                    ),
                    Ok(true) => Ok(None),
                    Ok(false) => Ok(Some(CandidateView { index, name: name@ })),
                }
            }
        },
    }
}

/// What collecting over the first `upto` branches yields: the candidates
/// among them in enumeration order, or the failure of the first branch that
/// could not be screened.
pub open spec fn collected(branches: Seq<Branch>, prefixes: Seq<Seq<char>>, upto: int) -> Result<
    Seq<CandidateView>,
    Failure,
>
    decreases upto,
{
    if upto <= 0 {
        Ok(Seq::empty())
    } else {
        match collected(branches, prefixes, upto - 1) {
            Err(failure) => Err(failure),
            Ok(kept) => match screening(branches[upto - 1], upto - 1, prefixes) {
                Err(failure) => Err(failure),
                Ok(None) => Ok(kept),
                Ok(Some(candidate)) => Ok(kept.push(candidate)),
            },
        }
    }
}

/// What collecting over all of `branches` yields.
pub open spec fn candidates_of(branches: Seq<Branch>, prefixes: Seq<Seq<char>>) -> Result<
    Seq<CandidateView>,
    Failure,
> {
    collected(branches, prefixes, branches.len() as int)
}

/// What collecting over a listing yields.
pub open spec fn collection(listing: Listing, prefixes: Seq<Seq<char>>) -> Result<
    Seq<CandidateView>,
    Failure,
> {
    match listing {
        Listing::Unavailable => Err(Failure::Enumeration),
        Listing::Branches(branches) => candidates_of(branches@, prefixes),
    }
}

/// The branch at `index` has a readable name, is an orphan, and no pattern
/// protects it.
pub open spec fn qualifies(branches: Seq<Branch>, prefixes: Seq<Seq<char>>, index: int) -> bool {
    &&& 0 <= index < branches.len()
    &&& branches[index].name matches BranchName::Valid(name)
    &&& !(branches[index].upstream is Present)
    &&& protection(name@, prefixes) == Ok::<bool, int>(false)
}

/// The branch at `index` cannot be screened.
pub open spec fn fails(branches: Seq<Branch>, prefixes: Seq<Seq<char>>, index: int) -> bool {
    &&& 0 <= index < branches.len()
    &&& screening(branches[index], index, prefixes) is Err
}

/// Screens the branch that stands at `index` in the listing.
pub fn screen(branch: &Branch, index: usize, prefixes: &Vec<&str>) -> (result: Result<
    Option<Candidate>,
    CollectError,
>)
    ensures
        match screening(*branch, index as int, texts(prefixes@)) {
            Ok(None) => result matches Ok(None),
            Ok(Some(candidate)) => result matches Ok(Some(kept)) && kept@ == candidate,
            Err(failure) => result matches Err(error) && error@ == failure,
        },
{
    match &branch.name {
        BranchName::NotUtf8 => Err(CollectError::BranchName { index, fault: NameFault::NotUtf8 }),
        BranchName::Unreadable => Err(
            CollectError::BranchName { index, fault: NameFault::Unreadable },
        ),
        BranchName::Valid(name) => {
            if !is_orphan(branch) {
                return Ok(None);
            }
            match is_protected_branch(name.as_str(), prefixes) {
                Err(error) => {
                    Err(CollectError::Pattern { index, name: name.clone(), error })
                },
                Ok(true) => Ok(None),
                Ok(false) => Ok(Some(Candidate { index, name: name.clone() })),
            }
        },
    }
}

/// Collects the deletion candidates of a listing, in enumeration order.
pub fn collect(listing: &Listing, prefixes: &Vec<&str>) -> (result: Result<
    Vec<Candidate>,
    CollectError,
>)
    ensures
        outcome_view(result) == collection(*listing, texts(prefixes@)),
        result matches Ok(kept) ==> collection(*listing, texts(prefixes@)) matches Ok(expected)
            && kept@.len() == expected.len() && forall|k: int|
            0 <= k < kept@.len() ==> (#[trigger] kept@[k])@ == expected[k],
{
    match listing {
        Listing::Unavailable => Err(CollectError::Enumeration),
        Listing::Branches(branches) => {
            let mut kept: Vec<Candidate> = Vec::new();
            let count: usize = branches.len();
            let mut i: usize = 0;
            assert(views(kept@) =~= Seq::empty());
            while i < count
                invariant
                    count == branches@.len(),
                    i <= count,
                    collection(*listing, texts(prefixes@)) == collected(
                        branches@,
                        texts(prefixes@),
                        count as int,
                    ),
                    collected(branches@, texts(prefixes@), i as int) == Ok::<
                        Seq<CandidateView>,
                        Failure,
                    >(views(kept@)),
                decreases count - i,
            {
                match screen(&branches[i], i, prefixes) {
                    Err(error) => {
                        proof {
                            lemma_failure_is_final(
                                branches@,
                                texts(prefixes@),
                                i + 1,
                                count as int,
                            );
                        }
                        return Err(error);
                    },
                    Ok(None) => {},
                    Ok(Some(candidate)) => {
                        let ghost before = kept@;
                        kept.push(candidate);
                        assert(views(kept@) =~= views(before).push(candidate@));
                    },
                }
                i += 1;
            }
            Ok(kept)
        },
    }
}

/// Once a branch has failed, the branches after it are not screened.
proof fn lemma_failure_is_final(
    branches: Seq<Branch>,
    prefixes: Seq<Seq<char>>,
    failed: int,
    upto: int,
)
    requires
        failed <= upto,
        collected(branches, prefixes, failed) is Err,
    ensures
        collected(branches, prefixes, upto) == collected(branches, prefixes, failed),
    decreases upto - failed,
{
    if failed < upto {
        lemma_failure_is_final(branches, prefixes, failed, upto - 1);
    }
}

/// What holds of the candidates kept over the first `upto` branches.
proof fn lemma_collected_ok(branches: Seq<Branch>, prefixes: Seq<Seq<char>>, upto: int)
    requires
        0 <= upto <= branches.len(),
        collected(branches, prefixes, upto) is Ok,
    ensures
        forall|i: int| 0 <= i < upto ==> !#[trigger] fails(branches, prefixes, i),
        forall|k: int|
            0 <= k < collected(branches, prefixes, upto)->Ok_0.len() ==> {
                let candidate = #[trigger] collected(branches, prefixes, upto)->Ok_0[k];
                &&& 0 <= candidate.index < upto
                &&& screening(branches[candidate.index], candidate.index, prefixes) == Ok::<
                    Option<CandidateView>,
                    Failure,
                >(Some(candidate))
            },
        forall|a: int, b: int|
            0 <= a < b < collected(branches, prefixes, upto)->Ok_0.len() ==> (
            #[trigger] collected(branches, prefixes, upto)->Ok_0[a]).index < (
            #[trigger] collected(branches, prefixes, upto)->Ok_0[b]).index,
        forall|i: int|
            0 <= i < upto && #[trigger] qualifies(branches, prefixes, i) ==> exists|k: int|
                0 <= k < collected(branches, prefixes, upto)->Ok_0.len() && (
                #[trigger] collected(branches, prefixes, upto)->Ok_0[k]).index == i,
    decreases upto,
{
    if upto > 0 {
        let last = upto - 1;
        lemma_collected_ok(branches, prefixes, last);
        let before = collected(branches, prefixes, last)->Ok_0;
        let kept = collected(branches, prefixes, upto)->Ok_0;
        assert forall|i: int| 0 <= i < upto && #[trigger] qualifies(branches, prefixes, i)
            implies exists|k: int| 0 <= k < kept.len() && (#[trigger] kept[k]).index == i by {
            if i < last {
                let k = choose|k: int| 0 <= k < before.len() && (#[trigger] before[k]).index == i;
                assert(kept[k] == before[k]);
            } else {
                assert(kept[kept.len() - 1].index == i);
            }
        }
    }
}

/// Where collecting over the first `upto` branches fails, the failure is that
/// of the first branch that cannot be screened.
proof fn lemma_collected_err(branches: Seq<Branch>, prefixes: Seq<Seq<char>>, upto: int) -> (at:
    int)
    requires
        0 <= upto <= branches.len(),
        collected(branches, prefixes, upto) is Err,
    ensures
        0 <= at < upto,
        forall|j: int| 0 <= j < at ==> !#[trigger] fails(branches, prefixes, j),
        screening(branches[at], at, prefixes) == Err::<Option<CandidateView>, Failure>(
            collected(branches, prefixes, upto)->Err_0,
        ),
    decreases upto,
{
    if collected(branches, prefixes, upto - 1) is Err {
        lemma_collected_err(branches, prefixes, upto - 1)
    } else {
        lemma_collected_ok(branches, prefixes, upto - 1);
        upto - 1
    }
}

/// Collecting again over the same listing with the same patterns yields the
/// same candidates in the same order, or the same failure.
pub proof fn lemma_collect_repeatable(
    listing: Listing,
    prefixes: Seq<Seq<char>>,
    first: Result<Vec<Candidate>, CollectError>,
    second: Result<Vec<Candidate>, CollectError>,
)
    requires
        outcome_view(first) == collection(listing, prefixes),
        outcome_view(second) == collection(listing, prefixes),
    ensures
        outcome_view(first) == outcome_view(second),
{
}

/// Every candidate is a branch of the listing that has a readable name, is
/// an orphan and is unprotected, and carries that branch's position and name.
pub proof fn lemma_candidates_qualify(branches: Seq<Branch>, prefixes: Seq<Seq<char>>, k: int)
    requires
        candidates_of(branches, prefixes) is Ok,
        0 <= k < candidates_of(branches, prefixes)->Ok_0.len(),
    ensures
        qualifies(branches, prefixes, candidates_of(branches, prefixes)->Ok_0[k].index),
        branches[candidates_of(branches, prefixes)->Ok_0[k].index].name matches BranchName::Valid(
            name,
        ) && name@ == candidates_of(branches, prefixes)->Ok_0[k].name,
{
    lemma_collected_ok(branches, prefixes, branches.len() as int);
}

/// No branch is passed over: where the collection succeeds, every branch that
/// qualifies is among the candidates.
pub proof fn lemma_qualifying_branch_is_candidate(
    branches: Seq<Branch>,
    prefixes: Seq<Seq<char>>,
    index: int,
) -> (k: int)
    requires
        candidates_of(branches, prefixes) is Ok,
        qualifies(branches, prefixes, index),
    ensures
        0 <= k < candidates_of(branches, prefixes)->Ok_0.len(),
        candidates_of(branches, prefixes)->Ok_0[k].index == index,
{
    lemma_collected_ok(branches, prefixes, branches.len() as int);
    let kept = candidates_of(branches, prefixes)->Ok_0;
    choose|k: int| 0 <= k < kept.len() && (#[trigger] kept[k]).index == index
}

/// Candidates come out in enumeration order, each branch at most once.
pub proof fn lemma_candidates_keep_order(
    branches: Seq<Branch>,
    prefixes: Seq<Seq<char>>,
    a: int,
    b: int,
)
    requires
        candidates_of(branches, prefixes) is Ok,
        0 <= a < b < candidates_of(branches, prefixes)->Ok_0.len(),
    ensures
        candidates_of(branches, prefixes)->Ok_0[a].index < candidates_of(
            branches,
            prefixes,
        )->Ok_0[b].index,
{
    lemma_collected_ok(branches, prefixes, branches.len() as int);
}

/// A collection fails exactly when some branch cannot be screened, and it
/// then reports the first such branch.
pub proof fn lemma_first_failure_aborts(branches: Seq<Branch>, prefixes: Seq<Seq<char>>)
    ensures
        candidates_of(branches, prefixes) is Err <==> exists|i: int|
            fails(branches, prefixes, i),
        candidates_of(branches, prefixes) matches Err(failure) ==> exists|i: int|
            {
                &&& #[trigger] fails(branches, prefixes, i)
                &&& screening(branches[i], i, prefixes) == Err::<Option<CandidateView>, Failure>(
                    failure,
                )
                &&& forall|j: int| 0 <= j < i ==> !#[trigger] fails(branches, prefixes, j)
            },
{
    let count = branches.len() as int;
    if candidates_of(branches, prefixes) is Err {
        let at = lemma_collected_err(branches, prefixes, count);
        assert(fails(branches, prefixes, at));
    } else {
        lemma_collected_ok(branches, prefixes, count);
    }
}

} // verus!
