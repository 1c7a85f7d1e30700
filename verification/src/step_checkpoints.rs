//! The checkpoints of a task step: its success criteria and tests are each confirmed or not,
//! and a step is marked done only when both are. Defining, verifying, closing and marking a
//! step done move it between these states; the statements that store a step run around
//! these decisions.

use vstd::prelude::*;

use crate::error::StoreError;

verus! {

/// The checkpoint state of a step.
#[derive(Clone, Copy, Debug, PartialEq, Eq, Structural)]
pub struct StepCheckpoints {
    pub completed: bool,
    pub criteria_confirmed: bool,
    pub tests_confirmed: bool,
}

/// A step's checkpoints as stored: flags held as integers, where zero means unset.
pub fn checkpoints_from_row(completed: i64, criteria_confirmed: i64, tests_confirmed: i64) -> (r:
    StepCheckpoints)
    ensures
        r.completed == (completed != 0),
        r.criteria_confirmed == (criteria_confirmed != 0),
        r.tests_confirmed == (tests_confirmed != 0),
{
    StepCheckpoints {
        completed: completed != 0,
        criteria_confirmed: criteria_confirmed != 0,
        tests_confirmed: tests_confirmed != 0,
    }
}

/// The names of the parts a definition replaces, in the order they are written: title,
/// success criteria, tests, blockers.
pub open spec fn defined_fields_spec(title: bool, criteria: bool, tests: bool, blockers: bool) -> Seq<
    Seq<char>,
> {
    (if title {
        seq!["title"@]
    } else {
        Seq::empty()
    }) + (if criteria {
        seq!["success_criteria"@]
    } else {
        Seq::empty()
    }) + (if tests {
        seq!["tests"@]
    } else {
        Seq::empty()
    }) + (if blockers {
        seq!["blockers"@]
    } else {
        Seq::empty()
    })
}

pub open spec fn str_views(v: Seq<&'static str>) -> Seq<Seq<char>> {
    v.map_values(|s: &'static str| s@)
}

/// Which parts a step definition replaces, given which ones it carries; a definition that
/// carries nothing is refused.
pub fn step_define_fields(title: bool, criteria: bool, tests: bool, blockers: bool) -> (r: Result<
    Vec<&'static str>,
    StoreError,
>)
    ensures
        !(title || criteria || tests || blockers) <==> r is Err,
        r matches Err(e) ==> (e matches StoreError::InvalidInput(m) && m@ == "no fields to define"@),
        r matches Ok(v) ==> str_views(v@) == defined_fields_spec(title, criteria, tests, blockers),
{
    if !title && !criteria && !tests && !blockers {
        return Err(StoreError::InvalidInput("no fields to define"));
    }
    let mut v: Vec<&'static str> = Vec::new();
    if title {
        v.push("title");
    }
    let ghost a = str_views(v@);
    if criteria {
        v.push("success_criteria");
    }
    let ghost b = str_views(v@);
    if tests {
        v.push("tests");
    }
    let ghost c = str_views(v@);
    if blockers {
        v.push("blockers");
    }
    proof {
        let t: Seq<Seq<char>> = if title {
            seq!["title"@]
        } else {
            Seq::empty()
        };
        assert(a =~= t);
        assert(b =~= t + (if criteria {
            seq!["success_criteria"@]
        } else {
            Seq::<Seq<char>>::empty()
        }));
        assert(str_views(v@) =~= defined_fields_spec(title, criteria, tests, blockers));
    }
    Ok(v)
}

/// What a definition does to the checkpoints: new success criteria must be confirmed again,
/// and so must new tests; the rest stays.
pub open spec fn define_spec(cp: StepCheckpoints, criteria: bool, tests: bool) -> StepCheckpoints {
    StepCheckpoints {
        completed: cp.completed,
        criteria_confirmed: cp.criteria_confirmed && !criteria,
        tests_confirmed: cp.tests_confirmed && !tests,
    }
}

pub fn apply_define(cp: StepCheckpoints, criteria: bool, tests: bool) -> (r: StepCheckpoints)
    ensures
        r == define_spec(cp, criteria, tests),
{
    StepCheckpoints {
        completed: cp.completed,
        criteria_confirmed: cp.criteria_confirmed && !criteria,
        tests_confirmed: cp.tests_confirmed && !tests,
    }
}

/// A verification must carry at least one checkpoint.
pub fn check_verify_request(criteria: Option<bool>, tests: Option<bool>) -> (r: Result<(), StoreError>)
    ensures
        r is Ok <==> (criteria is Some || tests is Some),
        r matches Err(e) ==> (e matches StoreError::InvalidInput(m) && m@ == "no checkpoints to verify"@),
{
    if criteria.is_none() && tests.is_none() {
        return Err(StoreError::InvalidInput("no checkpoints to verify"));
    }
    Ok(())
}

/// What a verification does to the checkpoints: each one it carries is set to its value.
pub open spec fn verify_spec(cp: StepCheckpoints, criteria: Option<bool>, tests: Option<bool>) -> StepCheckpoints {
    StepCheckpoints {
        completed: cp.completed,
        criteria_confirmed: match criteria {
            Some(v) => v,
            None => cp.criteria_confirmed,
        },
        tests_confirmed: match tests {
            Some(v) => v,
            None => cp.tests_confirmed,
        },
    }
}

pub fn apply_verify(cp: StepCheckpoints, criteria: Option<bool>, tests: Option<bool>) -> (r:
    StepCheckpoints)
    ensures
        r == verify_spec(cp, criteria, tests),
{
    StepCheckpoints {
        completed: cp.completed,
        criteria_confirmed: match criteria {
            Some(v) => v,
            None => cp.criteria_confirmed,
        },
        tests_confirmed: match tests {
            Some(v) => v,
            None => cp.tests_confirmed,
        },
    }
}

/// Why a step operation is refused.
pub enum StepRefusal {
    NoCheckpoints,
    NotFound,
    AlreadyCompleted,
    NotConfirmed { criteria: bool, tests: bool },
}

/// Marking the stored step `row` done: a missing step, a completed one, and one with an
/// unconfirmed checkpoint are refused; otherwise the step is completed and nothing else
/// changes.
pub open spec fn done_spec(row: Option<StepCheckpoints>) -> Result<StepCheckpoints, StepRefusal> {
    match row {
        None => Err(StepRefusal::NotFound),
        Some(cp) => if cp.completed {
            Err(StepRefusal::AlreadyCompleted)
        } else if !cp.criteria_confirmed || !cp.tests_confirmed {
            Err(
                StepRefusal::NotConfirmed {
                    criteria: !cp.criteria_confirmed,
                    tests: !cp.tests_confirmed,
                },
            )
        } else {
            Ok(StepCheckpoints { completed: true, ..cp })
        },
    }
}

/// Closing the stored step `row` with the checkpoints `criteria` and `tests`: the request
/// must carry one, the step must exist and not be completed; then the checkpoints are set
/// and the step is marked done (on a refusal nothing is kept).
pub open spec fn close_spec(criteria: Option<bool>, tests: Option<bool>, row: Option<StepCheckpoints>) -> Result<
    StepCheckpoints,
    StepRefusal,
> {
    if criteria is None && tests is None {
        Err(StepRefusal::NoCheckpoints)
    } else {
        match row {
            None => Err(StepRefusal::NotFound),
            Some(cp) => if cp.completed {
                Err(StepRefusal::AlreadyCompleted)
            } else {
                done_spec(Some(verify_spec(cp, criteria, tests)))
            },
        }
    }
}

/// The result `r` is the outcome `s`, each refusal reported as its error.
pub open spec fn step_result_matches(
    r: Result<StepCheckpoints, StoreError>,
    s: Result<StepCheckpoints, StepRefusal>,
) -> bool {
    match s {
        Ok(cp) => r == Ok::<StepCheckpoints, StoreError>(cp),
        Err(StepRefusal::NoCheckpoints) => r matches Err(StoreError::InvalidInput(m)) && m@
            == "no checkpoints to verify"@,
        Err(StepRefusal::NotFound) => r matches Err(StoreError::StepNotFound),
        Err(StepRefusal::AlreadyCompleted) => r matches Err(StoreError::InvalidInput(m)) && m@
            == "step already completed"@,
        Err(StepRefusal::NotConfirmed { criteria, tests }) => r matches Err(
            StoreError::CheckpointsNotConfirmed { criteria: c, tests: t },
        ) && c == criteria && t == tests,
    }
}

/// Decides marking the stored step `row` (`None` when there is no such step) done.
pub fn step_done_decision(row: Option<StepCheckpoints>) -> (r: Result<StepCheckpoints, StoreError>)
    ensures
        step_result_matches(r, done_spec(row)),
{
    let cp = match row {
        None => {
            return Err(StoreError::StepNotFound);
        },
        Some(cp) => cp,
    };
    if cp.completed {
        return Err(StoreError::InvalidInput("step already completed"));
    }
    if !cp.criteria_confirmed || !cp.tests_confirmed {
        return Err(
            StoreError::CheckpointsNotConfirmed {
                criteria: !cp.criteria_confirmed,
                tests: !cp.tests_confirmed,
            },
        );
    }
    Ok(StepCheckpoints { completed: true, ..cp })
}

/// Decides closing the stored step `row` with the checkpoints `criteria` and `tests`.
pub fn step_close_decision(criteria: Option<bool>, tests: Option<bool>, row: Option<StepCheckpoints>) -> (r:
    Result<StepCheckpoints, StoreError>)
    ensures
        step_result_matches(r, close_spec(criteria, tests, row)),
{
    check_verify_request(criteria, tests)?;
    let cp = match row {
        None => {
            return Err(StoreError::StepNotFound);
        },
        Some(cp) => cp,
    };
    if cp.completed {
        return Err(StoreError::InvalidInput("step already completed"));
    }
    step_done_decision(Some(apply_verify(cp, criteria, tests)))
}

/// A step is marked done only when it exists, is not yet completed and has both its
/// checkpoints confirmed; it is then completed with both confirmed.
pub proof fn lemma_done_needs_both_confirmations(row: Option<StepCheckpoints>)
    ensures
        done_spec(row) is Ok <==> (row matches Some(cp) && !cp.completed && cp.criteria_confirmed
            && cp.tests_confirmed),
        done_spec(row) matches Ok(after) ==> after.completed && after.criteria_confirmed
            && after.tests_confirmed,
{
}

/// Closing a step is verifying it and then marking it done, in one go: for a step that is
/// not yet completed, closing with some checkpoints has the outcome that marking it done has
/// after a verification with the same checkpoints.
pub proof fn lemma_close_is_verify_then_done(criteria: Option<bool>, tests: Option<bool>, cp: StepCheckpoints)
    requires
        criteria is Some || tests is Some,
        !cp.completed,
    ensures
        close_spec(criteria, tests, Some(cp)) == done_spec(Some(verify_spec(cp, criteria, tests))),
{
}

/// New success criteria, or new tests, must be confirmed again before the step can be done:
/// right after such a definition, marking the step done is refused and names the checkpoint
/// to confirm.
pub proof fn lemma_redefined_checks_need_confirming(cp: StepCheckpoints, criteria: bool, tests: bool)
    requires
        criteria || tests,
        !cp.completed,
    ensures
        done_spec(Some(define_spec(cp, criteria, tests))) matches Err(
            StepRefusal::NotConfirmed { criteria: c, tests: t },
        ) && (criteria ==> c) && (tests ==> t),
{
}

/// A note on a step must have some text.
pub fn check_step_note(note: &str) -> (r: Result<(), StoreError>)
    ensures
        r is Ok <==> crate::text::trim_seq(note@).len() > 0,
        r is Err ==> (r matches Err(StoreError::InvalidInput(m)) && m@ == "note must not be empty"@),
{
    if crate::text::trim_str(note).len() == 0 {
        return Err(StoreError::InvalidInput("note must not be empty"));
    }
    Ok(())
}

/// How a request names a step.
#[derive(Debug)]
pub enum StepSelector {
    /// By its id (the path is then looked up).
    ById(String),
    /// By its path.
    ByPath(String),
}

/// A step is named by its id, else by its path; a request must name it one way or the
/// other.
pub fn step_selector(step_id: Option<&str>, path: Option<&str>) -> (r: Result<StepSelector, StoreError>)
    ensures
        match (step_id, path) {
            (Some(id), _) => r matches Ok(StepSelector::ById(x)) && x@ == id@,
            (None, Some(p)) => r matches Ok(StepSelector::ByPath(x)) && x@ == p@,
            (None, None) => r matches Err(StoreError::InvalidInput(m)) && m@
                == "step selector is required"@,
        },
{
    match (step_id, path) {
        (Some(id), _) => Ok(StepSelector::ById(crate::text::string_of(crate::text::chars_of(id).as_slice()))),
        (None, Some(p)) => Ok(StepSelector::ByPath(crate::text::string_of(crate::text::chars_of(p).as_slice()))),
        (None, None) => Err(StoreError::InvalidInput("step selector is required")),
    }
}

} // verus!
