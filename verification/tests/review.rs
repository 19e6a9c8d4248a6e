use workspace_ctrl::review::{
    keeps_preparation, recipe_run, RecipeRun, RetryFlow, RetryStep, ReviewOutcome,
};

#[test]
fn confirmation_revalidates_and_cancel_never_executes() {
    let mut f = RetryFlow::new();
    assert_eq!(f.open(false), RetryStep::StartReview);
    assert_eq!(f.confirm(), RetryStep::Nothing, "nothing to confirm before the review");
    assert_eq!(f.worker_answer(ReviewOutcome::Reviewed { same: false }), RetryStep::ShowReview);
    assert!(f.reviewed && !f.busy);
    // The source changed in between: confirming reviews again and finds a difference.
    assert_eq!(f.confirm(), RetryStep::StartRevalidation);
    assert_eq!(f.worker_answer(ReviewOutcome::Reviewed { same: false }), RetryStep::ReportChanged);
    assert!(!f.reviewed);
    // Closing while a review runs: the late answer runs nothing.
    let mut f = RetryFlow::new();
    f.open(false);
    f.close();
    assert_eq!(f.worker_answer(ReviewOutcome::Reviewed { same: true }), RetryStep::Nothing);
}

#[test]
fn confirmed_retry_uses_exact_path_and_keeps_other_files() {
    let mut f = RetryFlow::new();
    f.open(false);
    f.worker_answer(ReviewOutcome::Reviewed { same: false });
    f.confirm();
    assert_eq!(f.worker_answer(ReviewOutcome::Reviewed { same: true }), RetryStep::Execute);
    assert!(!f.open, "running closes the dialog");
}

#[test]
fn retry_failures_and_modals() {
    let mut f = RetryFlow::new();
    assert_eq!(f.open(true), RetryStep::Nothing);
    assert!(!f.open);
    f.open(false);
    assert_eq!(f.worker_answer(ReviewOutcome::Pending), RetryStep::Nothing);
    assert!(f.busy);
    assert_eq!(f.worker_answer(ReviewOutcome::Failed), RetryStep::ReportFailure);
    assert!(!f.busy && !f.reviewed);
}

#[test]
fn execution_rechecks_the_frozen_parameters_even_without_widget_invalidation() {
    assert_eq!(recipe_run(false, false, true, false), RecipeRun::Invalidate);
    assert_eq!(recipe_run(false, false, true, true), RecipeRun::Run);
    assert_eq!(recipe_run(true, false, true, true), RecipeRun::Refuse);
    assert_eq!(recipe_run(false, true, true, true), RecipeRun::Refuse);
    assert_eq!(recipe_run(false, false, false, true), RecipeRun::NothingPrepared);
}

#[test]
fn changing_recipe_or_parameters_requires_a_new_review() {
    assert!(!keeps_preparation(false, true, true));
    assert!(keeps_preparation(false, false, true));
    assert!(keeps_preparation(true, true, true), "edits are ignored while a worker runs");
    assert!(!keeps_preparation(false, false, false));
}
