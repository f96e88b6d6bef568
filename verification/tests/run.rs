use branch_prune::branch::{Branch, BranchName, Upstream};
use branch_prune::collect::{collect, Candidate, Listing};
use branch_prune::run::{DeletionError, Run, RunConfig, Step};

fn config(dry_run: bool, auto_yes: bool) -> RunConfig {
    RunConfig { repository_path: ".".to_string(), dry_run, auto_yes, verbose: false }
}

#[test]
fn dry_run_with_auto_yes_deletes_nothing() {
    let run = Run::begin(&config(true, true), 3);
    assert_eq!(run.pending(), Step::Done);
}

#[test]
fn second_of_three_deletions_fails() {
    let run = Run::begin(&config(false, true), 3);
    assert_eq!(run.pending(), Step::Delete(0));
    let run = run.deleted(true);
    assert_eq!(run.pending(), Step::Delete(1));
    let run = run.deleted(false);
    assert_eq!(run.pending(), Step::Failed(DeletionError { index: 1 }));
    // The third candidate is never asked for, whatever is reported.
    let run = run.deleted(true);
    assert_eq!(run.pending(), Step::Failed(DeletionError { index: 1 }));
    let run = run.answer("y");
    assert_eq!(run.pending(), Step::Failed(DeletionError { index: 1 }));
}

#[test]
fn all_candidates_are_deleted_in_order() {
    let mut run = Run::begin(&config(false, true), 4);
    for index in 0..4 {
        assert_eq!(run.pending(), Step::Delete(index));
        run = run.deleted(true);
    }
    assert_eq!(run.pending(), Step::Done);
    assert_eq!(run.deleted(true).pending(), Step::Done);
}

#[test]
fn without_auto_yes_the_operator_is_asked() {
    assert_eq!(Run::begin(&config(false, false), 2).pending(), Step::Prompt);
    assert_eq!(Run::begin(&config(true, false), 2).pending(), Step::Prompt);
    assert_eq!(Run::begin(&config(false, false), 0).pending(), Step::Prompt);
}

#[test]
fn with_auto_yes_the_operator_is_not_asked() {
    assert_eq!(Run::begin(&config(false, true), 2).pending(), Step::Delete(0));
    assert_eq!(Run::begin(&config(false, true), 0).pending(), Step::Done);
}

#[test]
fn approval_starts_the_deletions() {
    for input in ["y", " Y\n", "\n"] {
        let run = Run::begin(&config(false, false), 2).answer(input);
        assert_eq!(run.pending(), Step::Delete(0), "{:?}", input);
    }
}

#[test]
fn refusal_ends_the_run_with_success() {
    for input in ["n", "no", ""] {
        let run = Run::begin(&config(false, false), 2).answer(input);
        assert_eq!(run.pending(), Step::Done, "{:?}", input);
        assert_eq!(run.deleted(true).pending(), Step::Done);
    }
}

#[test]
fn approval_of_a_dry_run_deletes_nothing() {
    let run = Run::begin(&config(true, false), 5).answer("y");
    assert_eq!(run.pending(), Step::Done);
}

#[test]
fn approval_without_candidates_ends_the_run() {
    let run = Run::begin(&config(false, false), 0).answer("y");
    assert_eq!(run.pending(), Step::Done);
}

#[test]
fn reports_that_were_not_asked_for_are_ignored() {
    let run = Run::begin(&config(false, false), 2).deleted(false);
    assert_eq!(run.pending(), Step::Prompt);
    let run = run.answer("y").answer("n");
    assert_eq!(run.pending(), Step::Delete(0));
}

#[test]
fn failure_of_the_first_deletion_is_reported() {
    let run = Run::begin(&config(false, true), 1).deleted(false);
    assert_eq!(run.pending(), Step::Failed(DeletionError { index: 0 }));
}

#[test]
fn a_single_candidate_is_deleted_once() {
    let run = Run::begin(&config(false, true), 1).deleted(true);
    assert_eq!(run.pending(), Step::Done);
}

#[test]
fn a_dry_run_still_yields_its_candidates() {
    let listing = Listing::Branches(vec![
        Branch { name: BranchName::Valid("main".to_string()), upstream: Upstream::Present },
        Branch { name: BranchName::Valid("temp".to_string()), upstream: Upstream::NoUpstream },
    ]);
    let candidates = collect(&listing, &vec!["vault/"]).unwrap();
    assert_eq!(candidates, vec![Candidate { index: 1, name: "temp".to_string() }]);
    let run = Run::begin(&config(true, true), candidates.len());
    assert_eq!(run.pending(), Step::Done);
}

#[test]
fn the_operator_is_asked_once() {
    let run = Run::begin(&config(false, false), 2);
    assert_eq!(run.pending(), Step::Prompt);
    let mut run = run.answer("maybe");
    for _ in 0..3 {
        assert_eq!(run.pending(), Step::Done);
        run = run.answer("y").deleted(true);
    }
}
