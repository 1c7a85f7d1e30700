//! Plans and tasks: the ids they are created under, and what an edit changes.

use vstd::prelude::*;

use crate::error::StoreError;
use crate::graph::opt_view;
use crate::num::{dec_int_padded, i64_to_dec_padded};
use crate::text::{append_chars, append_str, string_of};

verus! {

broadcast use vstd::string::group_string_axioms;

/// Whether an entity is a plan or a task.
#[derive(Clone, Copy, Debug, PartialEq, Eq, Structural)]
pub enum TaskKind {
    Plan,
    Task,
}

impl TaskKind {
    pub fn as_str(self) -> (r: &'static str)
        ensures
            r@ == match self {
                TaskKind::Plan => "plan"@,
                TaskKind::Task => "task"@,
            },
    {
        match self {
            TaskKind::Plan => "plan",
            TaskKind::Task => "task",
        }
    }
}

/// The counter that numbers entities of a kind.
pub fn entity_counter(kind: TaskKind) -> (r: &'static str)
    ensures
        r@ == match kind {
            TaskKind::Plan => "plan_seq"@,
            TaskKind::Task => "task_seq"@,
        },
{
    match kind {
        TaskKind::Plan => "plan_seq",
        TaskKind::Task => "task_seq",
    }
}

/// The id of the entity numbered `seq`: `PLAN-` or `TASK-` and at least three digits.
pub open spec fn entity_id_spec(kind: TaskKind, seq: i64) -> Seq<char> {
    (match kind {
        TaskKind::Plan => "PLAN-"@,
        TaskKind::Task => "TASK-"@,
    }) + dec_int_padded(seq as int, 3)
}

pub fn entity_id(kind: TaskKind, seq: i64) -> (r: String)
    ensures
        r@ == entity_id_spec(kind, seq),
{
    let mut out: Vec<char> = Vec::new();
    match kind {
        TaskKind::Plan => append_str(&mut out, "PLAN-"),
        TaskKind::Task => append_str(&mut out, "TASK-"),
    }
    let digits = i64_to_dec_padded(seq, 3);
    append_chars(&mut out, digits.as_slice());
    string_of(out.as_slice())
}

/// A task is created under a plan; a plan stands alone.
pub fn check_create_parent(kind: TaskKind, parent_plan_id: Option<String>) -> (r: Result<
    Option<String>,
    StoreError,
>)
    ensures
        kind == TaskKind::Plan ==> r == Ok::<Option<String>, StoreError>(None),
        kind == TaskKind::Task ==> match parent_plan_id {
            Some(p) => r == Ok::<Option<String>, StoreError>(Some(p)),
            None => (r matches Err(StoreError::InvalidInput(m)) && m@
                == "parent is required for kind=task"@),
        },
{
    match kind {
        TaskKind::Plan => Ok(None),
        TaskKind::Task => match parent_plan_id {
            Some(p) => Ok(Some(p)),
            None => Err(StoreError::InvalidInput("parent is required for kind=task")),
        },
    }
}

/// A task as an edit finds it.
#[derive(Clone, Debug)]
pub struct TaskFields {
    pub revision: i64,
    pub title: String,
    pub description: Option<String>,
}

/// A plan as an edit finds it.
#[derive(Clone, Debug)]
pub struct PlanFields {
    pub revision: i64,
    pub title: String,
    pub contract: Option<String>,
    pub contract_json: Option<String>,
}

/// The refusal of an edit on a stored entity: a missing one, or one at another revision than
/// the caller expected.
pub open spec fn edit_refusal(found: Option<i64>, expected_revision: Option<i64>) -> Option<StoreError> {
    match found {
        None => Some(StoreError::UnknownId),
        Some(revision) => match expected_revision {
            Some(e) => if e != revision {
                Some(StoreError::RevisionMismatch { expected: e, actual: revision })
            } else {
                None
            },
            None => None,
        },
    }
}

fn check_edit_target(found: Option<i64>, expected_revision: Option<i64>) -> (r: Result<i64, StoreError>)
    ensures
        match edit_refusal(found, expected_revision) {
            Some(e) => r == Err::<i64, StoreError>(e),
            None => r == Ok::<i64, StoreError>(found->Some_0),
        },
{
    let revision = match found {
        None => {
            return Err(StoreError::UnknownId);
        },
        Some(v) => v,
    };
    match expected_revision {
        Some(e) => {
            if e != revision {
                return Err(StoreError::RevisionMismatch { expected: e, actual: revision });
            }
        },
        None => {},
    }
    Ok(revision)
}

/// Edits a task: at least one field must be given; each given field replaces the stored one
/// and the rest stay; the revision moves one up. `current` is the stored task (`None` when
/// there is none) and `expected_revision` the revision the caller saw, if it says.
pub fn edit_task_fields(
    current: Option<TaskFields>,
    expected_revision: Option<i64>,
    title: Option<String>,
    description: Option<Option<String>>,
) -> (r: Result<TaskFields, StoreError>)
    requires
        current matches Some(c) ==> c.revision < i64::MAX,
    ensures
        title is None && description is None ==> (r matches Err(StoreError::InvalidInput(m)) && m@
            == "no fields to edit"@),
        title is Some || description is Some ==> match edit_refusal(
            match current {
                Some(c) => Some(c.revision),
                None => None,
            },
            expected_revision,
        ) {
            Some(e) => r == Err::<TaskFields, StoreError>(e),
            None => r matches Ok(t) && {
                let c = current->Some_0;
                &&& t.revision == c.revision + 1
                &&& t.title@ == match title {
                    Some(v) => v@,
                    None => c.title@,
                }
                &&& opt_view(t.description) == match description {
                    Some(d) => opt_view(d),
                    None => opt_view(c.description),
                }
            },
        },
{
    if title.is_none() && description.is_none() {
        return Err(StoreError::InvalidInput("no fields to edit"));
    }
    let found = match &current {
        Some(c) => Some(c.revision),
        None => None,
    };
    let revision = check_edit_target(found, expected_revision)?;
    let c = match current {
        Some(c) => c,
        None => {
            return Err(StoreError::UnknownId);
        },
    };
    Ok(
        TaskFields {
            revision: revision + 1,
            title: match title {
                Some(v) => v,
                None => c.title,
            },
            description: match description {
                Some(d) => d,
                None => c.description,
            },
        },
    )
}

/// Edits a plan: at least one field must be given; each given field replaces the stored one
/// and the rest stay; the revision moves one up.
pub fn edit_plan_fields(
    current: Option<PlanFields>,
    expected_revision: Option<i64>,
    title: Option<String>,
    contract: Option<Option<String>>,
    contract_json: Option<Option<String>>,
) -> (r: Result<PlanFields, StoreError>)
    requires
        current matches Some(c) ==> c.revision < i64::MAX,
    ensures
        title is None && contract is None && contract_json is None ==> (r matches Err(
            StoreError::InvalidInput(m),
        ) && m@ == "no fields to edit"@),
        title is Some || contract is Some || contract_json is Some ==> match edit_refusal(
            match current {
                Some(c) => Some(c.revision),
                None => None,
            },
            expected_revision,
        ) {
            Some(e) => r == Err::<PlanFields, StoreError>(e),
            None => r matches Ok(p) && {
                let c = current->Some_0;
                &&& p.revision == c.revision + 1
                &&& p.title@ == match title {
                    Some(v) => v@,
                    None => c.title@,
                }
                &&& opt_view(p.contract) == match contract {
                    Some(d) => opt_view(d),
                    None => opt_view(c.contract),
                }
                &&& opt_view(p.contract_json) == match contract_json {
                    Some(d) => opt_view(d),
                    None => opt_view(c.contract_json),
                }
            },
        },
{
    if title.is_none() && contract.is_none() && contract_json.is_none() {
        return Err(StoreError::InvalidInput("no fields to edit"));
    }
    let found = match &current {
        Some(c) => Some(c.revision),
        None => None,
    };
    let revision = check_edit_target(found, expected_revision)?;
    let c = match current {
        Some(c) => c,
        None => {
            return Err(StoreError::UnknownId);
        },
    };
    Ok(
        PlanFields {
            revision: revision + 1,
            title: match title {
                Some(v) => v,
                None => c.title,
            },
            contract: match contract {
                Some(d) => d,
                None => c.contract,
            },
            contract_json: match contract_json {
                Some(d) => d,
                None => c.contract_json,
            },
        },
    )
}

/// Edits are checked against the revision their writer saw: once an edit has moved an
/// entity from revision `r` to `r + 1`, an edit that still expects `r` is refused with a
/// revision mismatch naming both, while one that expects `r + 1` (or expects nothing) goes
/// through.
pub proof fn lemma_stale_edit_refused(r: i64)
    requires
        r < i64::MAX,
    ensures
        edit_refusal(Some((r + 1) as i64), Some(r)) == Some(
            StoreError::RevisionMismatch { expected: r, actual: (r + 1) as i64 },
        ),
        edit_refusal(Some((r + 1) as i64), Some((r + 1) as i64)) is None,
        edit_refusal(Some((r + 1) as i64), None) is None,
{
}

} // verus!
