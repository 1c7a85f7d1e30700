//! The step summary of a task: how many steps it has, how many are done, how many still
//! lack a confirmation, and the first step that is still open.

use vstd::prelude::*;

use crate::model::{StepStatus, TaskStepSummary};

verus! {

/// Which steps a count of the summary takes in.
pub enum StepCount {
    Completed,
    Open,
    OpenWithoutCriteria,
    OpenWithoutTests,
}

/// Whether `step` is one that `which` counts.
pub open spec fn counted(which: StepCount, step: StepStatus) -> bool {
    match which {
        StepCount::Completed => step.completed,
        StepCount::Open => !step.completed,
        StepCount::OpenWithoutCriteria => !step.completed && !step.criteria_confirmed,
        StepCount::OpenWithoutTests => !step.completed && !step.tests_confirmed,
    }
}

/// How many of `steps` the count `which` takes in.
pub open spec fn count_of(steps: Seq<StepStatus>, which: StepCount) -> nat
    decreases steps.len(),
{
    if steps.len() == 0 {
        0
    } else {
        count_of(steps.drop_last(), which) + if counted(which, steps.last()) {
            1nat
        } else {
            0nat
        }
    }
}

/// The index of the first open step among `steps`, when one is open.
pub open spec fn first_open_index(steps: Seq<StepStatus>) -> Option<int> {
    if exists|i: int| 0 <= i < steps.len() && !(#[trigger] steps[i]).completed {
        Some(
            choose|i: int|
                0 <= i < steps.len() && !(#[trigger] steps[i]).completed && forall|j: int|
                    0 <= j < i ==> (#[trigger] steps[j]).completed,
        )
    } else {
        None
    }
}

/// A step's status as plain values: id, path, title, and its three flags.
pub open spec fn status_view(s: StepStatus) -> (Seq<char>, Seq<char>, Seq<char>, bool, bool, bool) {
    (s.step_id@, s.path@, s.title@, s.criteria_confirmed, s.tests_confirmed, s.completed)
}

fn copy_status(s: &StepStatus) -> (r: StepStatus)
    ensures
        status_view(r) == status_view(*s),
{
    StepStatus {
        step_id: s.step_id.clone(),
        path: s.path.clone(),
        title: s.title.clone(),
        criteria_confirmed: s.criteria_confirmed,
        tests_confirmed: s.tests_confirmed,
        completed: s.completed,
    }
}

proof fn lemma_count_bounded(steps: Seq<StepStatus>, which: StepCount)
    ensures
        count_of(steps, which) <= steps.len(),
    decreases steps.len(),
{
    if steps.len() > 0 {
        lemma_count_bounded(steps.drop_last(), which);
    }
}

/// Every step of a task is either completed or open: the two counts of the summary add up
/// to the number of steps.
pub proof fn lemma_open_and_completed_partition(steps: Seq<StepStatus>)
    ensures
        count_of(steps, StepCount::Completed) + count_of(steps, StepCount::Open) == steps.len(),
    decreases steps.len(),
{
    if steps.len() > 0 {
        lemma_open_and_completed_partition(steps.drop_last());
    }
}

/// A step that lacks its criteria confirmation, or its tests confirmation, is counted only
/// while it is open: neither count exceeds the open count.
pub proof fn lemma_missing_within_open(steps: Seq<StepStatus>)
    ensures
        count_of(steps, StepCount::OpenWithoutCriteria) <= count_of(steps, StepCount::Open),
        count_of(steps, StepCount::OpenWithoutTests) <= count_of(steps, StepCount::Open),
    decreases steps.len(),
{
    if steps.len() > 0 {
        lemma_missing_within_open(steps.drop_last());
    }
}

/// Counting the steps that `which` takes in is counting the steps that satisfy `p`, when `p`
/// picks the same steps.
proof fn lemma_count_is_filter(steps: Seq<StepStatus>, which: StepCount, p: spec_fn(StepStatus) -> bool)
    requires
        forall|s: StepStatus| #[trigger] counted(which, s) == p(s),
    ensures
        count_of(steps, which) == steps.filter(p).len(),
    decreases steps.len(),
{
    reveal(Seq::filter);
    if steps.len() > 0 {
        lemma_count_is_filter(steps.drop_last(), which, p);
    }
}

/// What each count of the summary counts, step by step: the completed steps; the open ones;
/// the open ones whose criteria are not confirmed (whatever their tests); and the open ones
/// whose tests are not confirmed (whatever their criteria).
pub proof fn lemma_counts_by_fields(steps: Seq<StepStatus>)
    ensures
        count_of(steps, StepCount::Completed) == steps.filter(|s: StepStatus| s.completed).len(),
        count_of(steps, StepCount::Open) == steps.filter(|s: StepStatus| !s.completed).len(),
        count_of(steps, StepCount::OpenWithoutCriteria) == steps.filter(
            |s: StepStatus| !s.completed && !s.criteria_confirmed,
        ).len(),
        count_of(steps, StepCount::OpenWithoutTests) == steps.filter(
            |s: StepStatus| !s.completed && !s.tests_confirmed,
        ).len(),
{
    lemma_count_is_filter(steps, StepCount::Completed, |s: StepStatus| s.completed);
    lemma_count_is_filter(steps, StepCount::Open, |s: StepStatus| !s.completed);
    lemma_count_is_filter(steps, StepCount::OpenWithoutCriteria, |s: StepStatus| !s.completed && !s.criteria_confirmed);
    lemma_count_is_filter(steps, StepCount::OpenWithoutTests, |s: StepStatus| !s.completed && !s.tests_confirmed);
}

/// Confirming a step's criteria never changes how many steps miss their tests, and
/// confirming its tests never changes how many miss their criteria: two task states whose
/// steps agree on completion and on tests have the same missing-tests count.
pub proof fn lemma_missing_tests_ignores_criteria(a: Seq<StepStatus>, b: Seq<StepStatus>)
    requires
        a.len() == b.len(),
        forall|i: int| 0 <= i < a.len() ==> (#[trigger] a[i]).completed == b[i].completed && a[i].tests_confirmed
            == b[i].tests_confirmed,
    ensures
        count_of(a, StepCount::OpenWithoutTests) == count_of(b, StepCount::OpenWithoutTests),
    decreases a.len(),
{
    if a.len() > 0 {
        assert(a.last() == a[a.len() - 1] && b.last() == b[b.len() - 1]);
        lemma_missing_tests_ignores_criteria(a.drop_last(), b.drop_last());
    }
}

/// Likewise for the missing-criteria count, which depends on completion and criteria only.
pub proof fn lemma_missing_criteria_ignores_tests(a: Seq<StepStatus>, b: Seq<StepStatus>)
    requires
        a.len() == b.len(),
        forall|i: int| 0 <= i < a.len() ==> (#[trigger] a[i]).completed == b[i].completed && a[i].criteria_confirmed
            == b[i].criteria_confirmed,
    ensures
        count_of(a, StepCount::OpenWithoutCriteria) == count_of(b, StepCount::OpenWithoutCriteria),
    decreases a.len(),
{
    if a.len() > 0 {
        assert(a.last() == a[a.len() - 1] && b.last() == b[b.len() - 1]);
        lemma_missing_criteria_ignores_tests(a.drop_last(), b.drop_last());
    }
}

fn is_counted(which: &StepCount, step: &StepStatus) -> (r: bool)
    ensures
        r == counted(*which, *step),
{
    match which {
        StepCount::Completed => step.completed,
        StepCount::Open => !step.completed,
        StepCount::OpenWithoutCriteria => !step.completed && !step.criteria_confirmed,
        StepCount::OpenWithoutTests => !step.completed && !step.tests_confirmed,
    }
}

fn count_steps(steps: &[StepStatus], which: StepCount) -> (n: i64)
    requires
        steps@.len() <= i64::MAX,
    ensures
        n == count_of(steps@, which),
{
    let mut n: i64 = 0;
    let mut i: usize = 0;
    while i < steps.len()
        invariant
            i <= steps@.len(),
            steps@.len() <= i64::MAX,
            n == count_of(steps@.take(i as int), which),
        decreases steps@.len() - i,
    {
        proof {
            assert(steps@.take(i as int + 1).drop_last() =~= steps@.take(i as int));
            lemma_count_bounded(steps@.take(i as int), which);
        }
        if is_counted(&which, &steps[i]) {
            n = n + 1;
        }
        i = i + 1;
    }
    proof {
        assert(steps@.take(i as int) =~= steps@);
    }
    n
}

/// The summary of a task's steps, given in the order in which they were created (each with
/// its path in the task).
pub fn summarize_steps(steps: &[StepStatus]) -> (r: TaskStepSummary)
    requires
        steps@.len() <= i64::MAX,
    ensures
        r.total_steps == steps@.len(),
        r.completed_steps == count_of(steps@, StepCount::Completed),
        r.open_steps == count_of(steps@, StepCount::Open),
        r.missing_criteria == count_of(steps@, StepCount::OpenWithoutCriteria),
        r.missing_tests == count_of(steps@, StepCount::OpenWithoutTests),
        r.completed_steps == steps@.filter(|s: StepStatus| s.completed).len(),
        r.open_steps == steps@.filter(|s: StepStatus| !s.completed).len(),
        r.missing_criteria == steps@.filter(|s: StepStatus| !s.completed && !s.criteria_confirmed).len(),
        r.missing_tests == steps@.filter(|s: StepStatus| !s.completed && !s.tests_confirmed).len(),
        match first_open_index(steps@) {
            Some(i) => r.first_open is Some && status_view(r.first_open->0) == status_view(steps@[i]),
            None => r.first_open.is_none(),
        },
{
    proof {
        lemma_counts_by_fields(steps@);
    }
    let completed_steps = count_steps(steps, StepCount::Completed);
    let open_steps = count_steps(steps, StepCount::Open);
    let missing_criteria = count_steps(steps, StepCount::OpenWithoutCriteria);
    let missing_tests = count_steps(steps, StepCount::OpenWithoutTests);
    let mut i: usize = 0;
    while i < steps.len()
        invariant_except_break
            forall|j: int| 0 <= j < i ==> (#[trigger] steps@[j]).completed,
        invariant
            i <= steps@.len(),
        ensures
            forall|j: int| 0 <= j < i ==> (#[trigger] steps@[j]).completed,
            i == steps@.len() || !steps@[i as int].completed,
        decreases steps@.len() - i,
    {
        if !steps[i].completed {
            break;
        }
        i = i + 1;
    }
    let first_open = if i < steps.len() {
        Some(copy_status(&steps[i]))
    } else {
        None
    };
    proof {
        if i < steps@.len() {
            assert(!steps@[i as int].completed);
            let k = first_open_index(steps@)->0;
            assert(0 <= k < steps@.len() && !steps@[k].completed && forall|j: int|
                0 <= j < k ==> (#[trigger] steps@[j]).completed);
            if k < i {
                assert(steps@[k].completed);
            }
            if k > i {
                assert(steps@[i as int].completed);
            }
        }
    }
    TaskStepSummary {
        total_steps: steps.len() as i64,
        completed_steps,
        open_steps,
        missing_criteria,
        missing_tests,
        first_open,
    }
}

} // verus!
