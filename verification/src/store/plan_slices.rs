//! Plan slices: their ids and the checks on a slice before it is stored or its status set.

use vstd::prelude::*;

use super::error::StoreError;
use super::fields::normalize_non_empty;
use crate::steps::{hex_upper_padded, push_hex_upper};
use crate::text::{append_str, string_of, trim_seq};

verus! {

broadcast use vstd::string::group_string_axioms;

/// The id of the slice numbered `seq`: `SLC-` and eight upper-case hex digits.
pub open spec fn slice_id_spec(seq: i64) -> Seq<char> {
    "SLC-"@ + hex_upper_padded((seq as u64) as nat, 8)
}

pub fn plan_slice_id(seq: i64) -> (r: String)
    ensures
        r@ == slice_id_spec(seq),
{
    let mut out: Vec<char> = Vec::new();
    append_str(&mut out, "SLC-");
    push_hex_upper(&mut out, seq as u64, 8);
    string_of(out.as_slice())
}

/// A slice of a plan, as a caller writes it.
#[derive(Clone, Debug)]
pub struct PlanSliceInsertRequest {
    pub plan_id: String,
    pub slice_id: String,
    pub slice_task_id: String,
    pub title: String,
    pub objective: String,
    pub status: String,
    pub budgets_json: Option<String>,
}

/// A checked slice: its texts trimmed.
#[derive(Clone, Debug)]
pub struct PlanSliceDraft {
    pub plan_id: String,
    pub slice_id: String,
    pub slice_task_id: String,
    pub title: String,
    pub objective: String,
    pub status: String,
    pub budgets_json: Option<String>,
}

/// The first blank field of a slice, in the order they are checked: its error.
pub open spec fn slice_insert_error(r: PlanSliceInsertRequest) -> Option<Seq<char>> {
    if trim_seq(r.plan_id@).len() == 0 {
        Some("plan_id must not be empty"@)
    } else if trim_seq(r.slice_id@).len() == 0 {
        Some("slice_id must not be empty"@)
    } else if trim_seq(r.slice_task_id@).len() == 0 {
        Some("slice_task_id must not be empty"@)
    } else if trim_seq(r.title@).len() == 0 {
        Some("title must not be empty"@)
    } else if trim_seq(r.objective@).len() == 0 {
        Some("objective must not be empty"@)
    } else if trim_seq(r.status@).len() == 0 {
        Some("status must not be empty"@)
    } else {
        None
    }
}

/// Checks a slice before it is stored: every text must be non-blank, and is trimmed.
pub fn check_plan_slice_insert(request: PlanSliceInsertRequest) -> (r: Result<PlanSliceDraft, StoreError>)
    ensures
        match slice_insert_error(request) {
            Some(m) => r matches Err(StoreError::InvalidInput(x)) && x@ == m,
            None => r matches Ok(d) && {
                &&& d.plan_id@ == trim_seq(request.plan_id@)
                &&& d.slice_id@ == trim_seq(request.slice_id@)
                &&& d.slice_task_id@ == trim_seq(request.slice_task_id@)
                &&& d.title@ == trim_seq(request.title@)
                &&& d.objective@ == trim_seq(request.objective@)
                &&& d.status@ == trim_seq(request.status@)
                &&& d.budgets_json == request.budgets_json
            },
        },
{
    let plan_id = normalize_non_empty(request.plan_id.as_str(), "plan_id must not be empty")?;
    let slice_id = normalize_non_empty(request.slice_id.as_str(), "slice_id must not be empty")?;
    let slice_task_id = normalize_non_empty(
        request.slice_task_id.as_str(),
        "slice_task_id must not be empty",
    )?;
    let title = normalize_non_empty(request.title.as_str(), "title must not be empty")?;
    let objective = normalize_non_empty(request.objective.as_str(), "objective must not be empty")?;
    let status = normalize_non_empty(request.status.as_str(), "status must not be empty")?;
    Ok(
        PlanSliceDraft {
            plan_id,
            slice_id,
            slice_task_id,
            title,
            objective,
            status,
            budgets_json: request.budgets_json,
        },
    )
}

/// A new slice needs its plan and its task to exist.
pub fn check_slice_parents(plan_exists: bool, task_exists: bool) -> (r: Result<(), StoreError>)
    ensures
        r is Ok <==> plan_exists && task_exists,
        r is Err ==> r matches Err(StoreError::UnknownId),
{
    if !plan_exists || !task_exists {
        return Err(StoreError::UnknownId);
    }
    Ok(())
}

/// A status change of a slice: plan, slice and status trimmed and non-blank, checked in
/// that order.
pub fn check_slice_status_update(plan_id: &str, slice_id: &str, status: &str) -> (r: Result<
    (String, String, String),
    StoreError,
>)
    ensures
        trim_seq(plan_id@).len() == 0 ==> (r matches Err(StoreError::InvalidInput(m)) && m@
            == "plan_id must not be empty"@),
        trim_seq(plan_id@).len() > 0 && trim_seq(slice_id@).len() == 0 ==> (r matches Err(
            StoreError::InvalidInput(m),
        ) && m@ == "slice_id must not be empty"@),
        trim_seq(plan_id@).len() > 0 && trim_seq(slice_id@).len() > 0 && trim_seq(status@).len()
            == 0 ==> (r matches Err(StoreError::InvalidInput(m)) && m@ == "status must not be empty"@),
        trim_seq(plan_id@).len() > 0 && trim_seq(slice_id@).len() > 0 && trim_seq(status@).len()
            > 0 ==> (r matches Ok((p, s, t)) && p@ == trim_seq(plan_id@) && s@ == trim_seq(
            slice_id@,
        ) && t@ == trim_seq(status@)),
{
    let p = normalize_non_empty(plan_id, "plan_id must not be empty")?;
    let s = normalize_non_empty(slice_id, "slice_id must not be empty")?;
    let t = normalize_non_empty(status, "status must not be empty")?;
    Ok((p, s, t))
}

} // verus!
