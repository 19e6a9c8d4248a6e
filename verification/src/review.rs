//! "Review, then confirm" workflows: a retry of failed transfers is reviewed in a worker, and
//! confirming reviews it again and runs it only when nothing changed in between; a prepared
//! recipe runs only with the parameters it was prepared for. Closing drops what is pending.
use vstd::prelude::*;

verus! {

/// What the worker of a review answered.
#[derive(Clone, Copy, Debug, PartialEq, Eq)]
pub enum ReviewOutcome {
    /// No answer yet.
    Pending,
    /// A review; `same` tells whether it equals the review the user confirmed (meaningful
    /// only for the review made on confirmation).
    Reviewed { same: bool },
    /// The review failed (or the worker is gone).
    Failed,
}

/// What the retry dialog must do after an event.
#[derive(Clone, Copy, Debug, PartialEq, Eq)]
pub enum RetryStep {
    /// Nothing to do.
    Nothing,
    /// Start a worker that reviews the files.
    StartReview,
    /// Start a worker that reviews the files again, to confirm.
    StartRevalidation,
    /// Keep the review and show it; the user may confirm.
    ShowReview,
    /// Run the reviewed plan, and close the dialog.
    Execute,
    /// Something changed since the review: drop it and say so.
    ReportChanged,
    /// The review failed: drop it and say so.
    ReportFailure,
}

/// The retry dialog's state.
#[derive(Clone, Copy, Debug, PartialEq, Eq)]
pub struct RetryFlow {
    pub open: bool,
    /// A review is held (the user may confirm it).
    pub reviewed: bool,
    /// A worker is running.
    pub busy: bool,
    /// The running worker reviews again to confirm.
    pub confirming: bool,
}

/// The closed dialog.
pub open spec fn closed_flow() -> RetryFlow {
    RetryFlow { open: false, reviewed: false, busy: false, confirming: false }
}

impl RetryFlow {
    /// The closed dialog.
    pub fn new() -> (r: Self)
        ensures
            r == closed_flow(),
    {
        RetryFlow { open: false, reviewed: false, busy: false, confirming: false }
    }

    /// A review is held and no worker runs: the user may confirm.
    pub open spec fn is_ready(&self) -> bool {
        self.reviewed && !self.busy
    }

    /// Opens the dialog on failed files (unless another modal is open): a review starts.
    pub fn open(&mut self, other_modal_open: bool) -> (step: RetryStep)
        ensures
            other_modal_open ==> step == RetryStep::Nothing && *final(self) == *old(self),
            !other_modal_open ==> step == RetryStep::StartReview && *final(self) == (RetryFlow {
                open: true,
                reviewed: false,
                busy: true,
                confirming: false,
            }),
    {
        if other_modal_open {
            return RetryStep::Nothing;
        }
        *self = RetryFlow { open: true, reviewed: false, busy: true, confirming: false };
        RetryStep::StartReview
    }

    /// The user confirms: with a review ready in the open dialog, the files are reviewed again
    /// before anything runs.
    pub fn confirm(&mut self) -> (step: RetryStep)
        ensures
            old(self).open && old(self).is_ready() ==> step == RetryStep::StartRevalidation
                && *final(self) == (RetryFlow { busy: true, confirming: true, ..*old(self) }),
            !(old(self).open && old(self).is_ready()) ==> step == RetryStep::Nothing && *final(self)
                == *old(self),
    {
        if !self.open || !(self.reviewed && !self.busy) {
            return RetryStep::Nothing;
        }
        self.busy = true;
        self.confirming = true;
        RetryStep::StartRevalidation
    }

    /// What the running worker answered. A review made to confirm runs the plan only when it
    /// equals the confirmed one; otherwise the review is dropped.
    pub fn worker_answer(&mut self, outcome: ReviewOutcome) -> (step: RetryStep)
        ensures
            (*final(self), step) == after_answer(*old(self), outcome),
    {
        if !self.busy {
            return RetryStep::Nothing;
        }
        match outcome {
            ReviewOutcome::Pending => RetryStep::Nothing,
            ReviewOutcome::Reviewed { same } => {
                if self.confirming {
                    if same {
                        *self = RetryFlow { open: false, reviewed: false, busy: false, confirming: false };
                        RetryStep::Execute
                    } else {
                        self.reviewed = false;
                        self.busy = false;
                        self.confirming = false;
                        RetryStep::ReportChanged
                    }
                } else {
                    self.reviewed = true;
                    self.busy = false;
                    self.confirming = false;
                    RetryStep::ShowReview
                }
            },
            ReviewOutcome::Failed => {
                self.reviewed = false;
                self.busy = false;
                self.confirming = false;
                RetryStep::ReportFailure
            },
        }
    }

    /// Closes the dialog: whatever is pending is dropped, and a late answer is never taken.
    pub fn close(&mut self)
        ensures
            *final(self) == closed_flow(),
    {
        *self = RetryFlow { open: false, reviewed: false, busy: false, confirming: false };
    }
}

/// The retry dialog after `outcome` (see `RetryFlow::worker_answer`).
pub open spec fn after_answer(f: RetryFlow, outcome: ReviewOutcome) -> (RetryFlow, RetryStep) {
    if !f.busy {
        (f, RetryStep::Nothing)
    } else {
        match outcome {
            ReviewOutcome::Pending => (f, RetryStep::Nothing),
            ReviewOutcome::Reviewed { same } => if f.confirming {
                if same {
                    (closed_flow(), RetryStep::Execute)
                } else {
                    (RetryFlow { reviewed: false, busy: false, confirming: false, ..f }, RetryStep::ReportChanged)
                }
            } else {
                (RetryFlow { reviewed: true, busy: false, confirming: false, ..f }, RetryStep::ShowReview)
            },
            ReviewOutcome::Failed => (
                RetryFlow { reviewed: false, busy: false, confirming: false, ..f },
                RetryStep::ReportFailure,
            ),
        }
    }
}

/// Nothing runs without a confirmation that found nothing changed: a run comes only from the
/// review made on confirming, when it equals the confirmed review; and after closing, no answer
/// ever runs anything.
pub proof fn lemma_runs_only_when_confirmed_unchanged(f: RetryFlow, outcome: ReviewOutcome)
    ensures
        after_answer(f, outcome).1 == RetryStep::Execute ==> f.busy && f.confirming
            && outcome == (ReviewOutcome::Reviewed { same: true }),
        after_answer(closed_flow(), outcome).1 == RetryStep::Nothing,
{
}

/// What running a prepared recipe does.
#[derive(Clone, Copy, Debug, PartialEq, Eq)]
pub enum RecipeRun {
    /// Refused for now: a worker runs, or the operations queue is busy.
    Refuse,
    /// Nothing was prepared.
    NothingPrepared,
    /// The recipe or its parameters changed since it was prepared: the preparation is dropped.
    Invalidate,
    /// Hand the prepared plan to the delivery engine.
    Run,
}

/// What running the prepared recipe does: it never runs while a worker is busy or a queued
/// operation runs, and never with a recipe or parameters other than those it was prepared for.
pub fn recipe_run(busy: bool, queue_busy: bool, prepared: bool, still_matches: bool) -> (r: RecipeRun)
    ensures
        r == (if busy || queue_busy {
            RecipeRun::Refuse
        } else if !prepared {
            RecipeRun::NothingPrepared
        } else if !still_matches {
            RecipeRun::Invalidate
        } else {
            RecipeRun::Run
        }),
{
    if busy || queue_busy {
        RecipeRun::Refuse
    } else if !prepared {
        RecipeRun::NothingPrepared
    } else if !still_matches {
        RecipeRun::Invalidate
    } else {
        RecipeRun::Run
    }
}

/// Editing the recipe keeps its preparation only when nothing changed (and never while a worker
/// is busy, when the edit is ignored).
pub fn keeps_preparation(busy: bool, changed: bool, prepared: bool) -> (r: bool)
    ensures
        r == (prepared && (busy || !changed)),
{
    prepared && (busy || !changed)
}

} // verus!
