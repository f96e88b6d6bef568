//! The course of a run once the candidates are known: confirmation, then
//! deletion.
//!
//! A [`Run`] never asks the operator or deletes anything itself. It names the
//! next step, the caller performs it and reports back, and the run names the
//! step after that. A dry run or a declined confirmation ends the run without
//! a deletion; a deletion that fails ends it with an error and leaves the
//! remaining candidates untouched.

use vstd::prelude::*;
use crate::confirm::{affirmative, confirm};

verus! {

/// The settings of a run. They do not change while it lasts.
#[derive(Clone, Debug, PartialEq, Eq)]
pub struct RunConfig {
    /// Where the repository lies.
    pub repository_path: String,
    /// Report the candidates, delete nothing.
    pub dry_run: bool,
    /// Take the operator's approval for granted.
    pub auto_yes: bool,
    /// Emit diagnostics; no decision depends on it.
    pub verbose: bool,
}

/// The deletion of a candidate failed.
#[derive(Clone, Copy, Debug, PartialEq, Eq, Structural)]
pub struct DeletionError {
    /// Position of the candidate in the candidate list.
    pub index: usize,
}

/// What a run asks of its caller next.
#[derive(Clone, Copy, Debug, PartialEq, Eq, Structural)]
pub enum Step {
    /// Show the prompt, read one line and hand it to [`Run::answer`].
    Prompt,
    /// Delete the candidate at this position and report to [`Run::deleted`].
    Delete(usize),
    /// The run is over and has succeeded.
    Done,
    /// The run is over: this deletion failed.
    Failed(DeletionError),
}

/// What a caller reports to a run.
pub enum Event {
    /// The operator answered; the flag says whether the answer approves.
    Reply(bool),
    /// The pending deletion was tried; the flag says whether it succeeded.
    Deleted(bool),
}

/// A run, as a mathematical value.
pub struct RunView {
    pub dry_run: bool,
    pub total: usize,
    pub pending: Step,
}

/// The first step of an approved run over `total` candidates.
pub open spec fn approved_step(dry_run: bool, total: usize) -> Step {
    if dry_run || total == 0 {
        Step::Done
    } else {
        Step::Delete(0)
    }
}

impl RunView {
    /// The run at its start.
    pub open spec fn start(dry_run: bool, auto_yes: bool, total: usize) -> RunView {
        RunView {
            dry_run,
            total,
            pending: if auto_yes {
                approved_step(dry_run, total)
            } else {
                Step::Prompt
            },
        }
    }

    /// The run after the operator's answer. An answer that was not asked for
    /// changes nothing.
    pub open spec fn reply(self, approved: bool) -> RunView {
        match self.pending {
            Step::Prompt => RunView {
                pending: if approved {
                    approved_step(self.dry_run, self.total)
                } else {
                    Step::Done
                },
                ..self
            },
            _ => self,
        }
    }

    /// The run after the pending deletion was tried. A report that was not
    /// asked for changes nothing.
    pub open spec fn deleted(self, success: bool) -> RunView {
        match self.pending {
            Step::Delete(index) => RunView {
                pending: if !success {
                    Step::Failed(DeletionError { index })
                } else if index + 1 < self.total {
                    Step::Delete((index + 1) as usize)
                } else {
                    Step::Done
                },
                ..self
            },
            _ => self,
        }
    }

    /// The run after one event.
    pub open spec fn on(self, event: Event) -> RunView {
        match event {
            Event::Reply(approved) => self.reply(approved),
            Event::Deleted(success) => self.deleted(success),
        }
    }

    /// The run after a sequence of events.
    pub open spec fn after(self, events: Seq<Event>) -> RunView
        decreases events.len(),
    {
        if events.len() == 0 {
            self
        } else {
            self.after(events.drop_last()).on(events.last())
        }
    }

    /// A deletion is only ever pending, or failed, for a candidate of a run
    /// that is not dry.
    pub open spec fn well_formed(self) -> bool {
        match self.pending {
            Step::Delete(index) => index < self.total && !self.dry_run,
            Step::Failed(error) => error.index < self.total && !self.dry_run,
            _ => true,
        }
    }

    /// The run is over.
    pub open spec fn finished(self) -> bool {
        self.pending is Done || self.pending is Failed
    }
}

/// `count` deletions in a row that all succeeded.
pub open spec fn successes(count: nat) -> Seq<Event> {
    Seq::new(count, |i: int| Event::Deleted(true))
}

/// The progress of one run.
#[derive(Debug)]
pub struct Run {
    dry_run: bool,
    total: usize,
    pending: Step,
}

impl View for Run {
    type V = RunView;

    closed spec fn view(&self) -> RunView {
        RunView { dry_run: self.dry_run, total: self.total, pending: self.pending }
    }
}

impl Run {
    #[verifier::type_invariant]
    spec fn sound(self) -> bool {
        self@.well_formed()
    }

    fn approved(dry_run: bool, total: usize) -> (step: Step)
        ensures
            step == approved_step(dry_run, total),
    {
        if dry_run || total == 0 {
            Step::Done
        } else {
            Step::Delete(0)
        }
    }

    /// Starts a run over `total` candidates.
    pub fn begin(config: &RunConfig, total: usize) -> (run: Run)
        ensures
            run@ == RunView::start(config.dry_run, config.auto_yes, total),
            run@.well_formed(),
    {
        let pending = if config.auto_yes {
            Run::approved(config.dry_run, total)
        } else {
            Step::Prompt
        };
        Run { dry_run: config.dry_run, total, pending }
    }

    /// The step that the run is waiting for.
    pub fn pending(&self) -> (step: Step)
        ensures
            step == self@.pending,
            self@.well_formed(),
    {
        proof {
            use_type_invariant(self);
        }
        self.pending
    }

    /// Takes the operator's raw answer to the prompt.
    pub fn answer(self, input: &str) -> (next: Run)
        ensures
            next@ == self@.reply(affirmative(input@)),
            next@.well_formed(),
    {
        proof {
            use_type_invariant(&self);
        }
        match self.pending {
            Step::Prompt => {
                let pending = if confirm(false, input) {
                    Run::approved(self.dry_run, self.total)
                } else {
                    Step::Done
                };
                Run { dry_run: self.dry_run, total: self.total, pending }
            },
            _ => self,
        }
    }

    /// Takes the outcome of the pending deletion.
    pub fn deleted(self, success: bool) -> (next: Run)
        ensures
            next@ == self@.deleted(success),
            next@.well_formed(),
    {
        proof {
            use_type_invariant(&self);
        }
        match self.pending {
            Step::Delete(index) => {
                let pending = if !success {
                    Step::Failed(DeletionError { index })
                } else if index + 1 < self.total {
                    Step::Delete(index + 1)
                } else {
                    Step::Done
                };
                Run { dry_run: self.dry_run, total: self.total, pending }
            },
            _ => self,
        }
    }
}

/// Events can be taken in one go or in two parts.
proof fn lemma_after_concat(run: RunView, first: Seq<Event>, second: Seq<Event>)
    ensures
        run.after(first + second) == run.after(first).after(second),
    decreases second.len(),
{
    if second.len() > 0 {
        lemma_after_concat(run, first, second.drop_last());
        assert((first + second).drop_last() =~= first + second.drop_last());
    }
}

/// No event leads a well-formed run astray.
pub proof fn lemma_well_formed_is_kept(run: RunView, events: Seq<Event>)
    requires
        run.well_formed(),
    ensures
        run.after(events).well_formed(),
        run.after(events).dry_run == run.dry_run,
        run.after(events).total == run.total,
    decreases events.len(),
{
    if events.len() > 0 {
        lemma_well_formed_is_kept(run, events.drop_last());
    }
}

/// A run that is over stays as it is, whatever is reported to it.
pub proof fn lemma_finished_run_stays(run: RunView, events: Seq<Event>)
    requires
        run.finished(),
    ensures
        run.after(events) == run,
    decreases events.len(),
{
    if events.len() > 0 {
        lemma_finished_run_stays(run, events.drop_last());
    }
}

/// Approval granted beforehand counts as an approving answer that nobody
/// had to be asked for: the run starts where an approved one goes on.
pub proof fn lemma_auto_yes_is_an_approval(dry_run: bool, total: usize)
    ensures
        RunView::start(dry_run, true, total) == RunView::start(dry_run, false, total).reply(true),
        !(RunView::start(dry_run, true, total).pending is Prompt),
{
}

/// The operator is asked at most once: after an answer, whatever it was, no
/// event brings the prompt back.
pub proof fn lemma_asked_at_most_once(run: RunView, approved: bool, events: Seq<Event>)
    ensures
        !(run.reply(approved).after(events).pending is Prompt),
    decreases events.len(),
{
    if events.len() > 0 {
        lemma_asked_at_most_once(run, approved, events.drop_last());
    }
}

/// A dry run never asks for a deletion and never fails, whatever the number
/// of candidates and whatever is reported to it; once approved, by the
/// operator or beforehand, it is over and has succeeded.
pub proof fn lemma_dry_run_deletes_nothing(auto_yes: bool, total: usize, events: Seq<Event>)
    ensures
        ({
            let run = RunView::start(true, auto_yes, total).after(events);
            run.pending is Prompt || run.pending is Done
        }),
        approved_step(true, total) == Step::Done,
        RunView::start(true, true, total).pending == Step::Done,
        RunView::start(true, false, total).reply(true).pending == Step::Done,
    decreases events.len(),
{
    if events.len() > 0 {
        lemma_dry_run_deletes_nothing(auto_yes, total, events.drop_last());
        lemma_well_formed_is_kept(RunView::start(true, auto_yes, total), events.drop_last());
    }
}

/// A run whose operator declines is over at once, with success and without
/// a deletion, and stays so.
pub proof fn lemma_declined_run_deletes_nothing(
    dry_run: bool,
    total: usize,
    events: Seq<Event>,
)
    ensures
        RunView::start(dry_run, false, total).pending == Step::Prompt,
        RunView::start(dry_run, false, total).reply(false).after(events).pending == Step::Done,
{
    lemma_finished_run_stays(RunView::start(dry_run, false, total).reply(false), events);
}

/// An approved run that is not dry deletes the candidates one by one in list
/// order: after `count` successful deletions the next candidate is due, or
/// the run is over with success if none is left.
pub proof fn lemma_deletions_in_order(dry_run: bool, total: usize, count: nat)
    requires
        count <= total,
    ensures
        RunView::start(dry_run, true, total).after(successes(count)).pending == if dry_run
            || count == total {
            Step::Done
        } else {
            Step::Delete(count as usize)
        },
    decreases count,
{
    if count > 0 {
        let shorter = (count - 1) as nat;
        lemma_deletions_in_order(dry_run, total, shorter);
        lemma_well_formed_is_kept(RunView::start(dry_run, true, total), successes(shorter));
        assert(successes(count).drop_last() =~= successes(shorter));
    }
}

/// The first deletion that fails ends the run with an error that names it:
/// the candidates before it were deleted, and none after it is ever asked
/// for, whatever is reported later.
pub proof fn lemma_failed_deletion_aborts(total: usize, failed: nat, later: Seq<Event>)
    requires
        failed < total,
    ensures
        RunView::start(false, true, total).after(
            successes(failed).push(Event::Deleted(false)) + later,
        ).pending == Step::Failed(DeletionError { index: failed as usize }),
{
    let run = RunView::start(false, true, total);
    let tried = successes(failed).push(Event::Deleted(false));
    lemma_deletions_in_order(false, total, failed);
    assert(tried.drop_last() =~= successes(failed));
    lemma_after_concat(run, tried, later);
    lemma_finished_run_stays(run.after(tried), later);
}

} // verus!
