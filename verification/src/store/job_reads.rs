//! Reading jobs: the filters of a job listing and the page of a job's event tail.

use vstd::prelude::*;

use super::anchors::{anchor_id_spec, normalize_anchor_id};
use super::error::StoreError;
use super::jobs::{job_id_spec, job_status_spec, normalize_job_id, normalize_job_status, JobEventRow};
use super::radar::JobRow;
use crate::graph::opt_view;
use crate::text::{string_of, trim_seq, trim_str};

verus! {

broadcast use vstd::string::group_string_axioms;

/// The most jobs a listing returns, and the most events a tail returns.
pub const MAX_LIST_LIMIT: usize = 200;

/// A listing of jobs, each filter optional (a blank one is no filter).
#[derive(Clone, Debug)]
pub struct JobsListRequest {
    pub status: Option<String>,
    pub task_id: Option<String>,
    pub anchor_id: Option<String>,
    pub limit: usize,
}

/// The filters of a listing as the store applies them.
#[derive(Clone, Debug)]
pub struct JobsListFilter {
    pub status: Option<String>,
    pub task_id: Option<String>,
    pub anchor_id: Option<String>,
    pub limit: usize,
}

/// A page of the listing, newest update first.
#[derive(Debug)]
pub struct JobsListResult {
    pub jobs: Vec<JobRow>,
    pub has_more: bool,
}

/// `o` when it holds something other than blanks.
pub open spec fn nonblank(o: Option<String>) -> Option<Seq<char>> {
    match o {
        Some(s) => if trim_seq(s@).len() > 0 {
            Some(s@)
        } else {
            None
        },
        None => None,
    }
}

/// `x` held within `lo..=hi`.
pub open spec fn clamped(x: int, lo: int, hi: int) -> int {
    if x < lo {
        lo
    } else if x > hi {
        hi
    } else {
        x
    }
}

/// The filters of a listing as plain values: status, task, anchor, limit.
pub open spec fn filter_view(f: JobsListFilter) -> (
    Option<Seq<char>>,
    Option<Seq<char>>,
    Option<Seq<char>>,
    int,
) {
    (opt_view(f.status), opt_view(f.task_id), opt_view(f.anchor_id), f.limit as int)
}

/// What a listing request comes to: its status is normalized (an unknown one is refused),
/// its task id trimmed, its anchor id normalized (a malformed one is refused, after the
/// status), and its limit held within 1..=200.
pub open spec fn jobs_list_spec(req: JobsListRequest) -> Result<
    (Option<Seq<char>>, Option<Seq<char>>, Option<Seq<char>>, int),
    Seq<char>,
> {
    let status = match nonblank(req.status) {
        Some(raw) => match job_status_spec(raw) {
            Ok(s) => Ok(Some(s)),
            Err(m) => Err(m),
        },
        None => Ok(None),
    };
    let anchor = match nonblank(req.anchor_id) {
        Some(raw) => match anchor_id_spec(raw) {
            Ok(a) => Ok(Some(a)),
            Err(m) => Err(m),
        },
        None => Ok(None),
    };
    let task = match nonblank(req.task_id) {
        Some(raw) => Some(trim_seq(raw)),
        None => None,
    };
    match (status, anchor) {
        (Err(m), _) => Err(m),
        (Ok(_), Err(m)) => Err(m),
        (Ok(s), Ok(a)) => Ok((s, task, a, clamped(req.limit as int, 1, MAX_LIST_LIMIT as int))),
    }
}

fn nonblank_str(o: &Option<String>) -> (r: Option<&str>)
    ensures
        match r {
            Some(s) => nonblank(*o) == Some(s@),
            None => nonblank(*o) is None,
        },
{
    match o {
        Some(s) => {
            if trim_str(s.as_str()).len() > 0 {
                Some(s.as_str())
            } else {
                None
            }
        },
        None => None,
    }
}

/// The filters of a job listing, or the refusal of its status or anchor id.
pub fn plan_jobs_list(request: &JobsListRequest) -> (r: Result<JobsListFilter, StoreError>)
    ensures
        match (r, jobs_list_spec(*request)) {
            (Ok(f), Ok(v)) => filter_view(f) == v,
            (Err(StoreError::InvalidInput(m)), Err(w)) => m@ == w,
            _ => false,
        },
{
    let limit = if request.limit < 1 {
        1
    } else if request.limit > MAX_LIST_LIMIT {
        MAX_LIST_LIMIT
    } else {
        request.limit
    };
    let status = match nonblank_str(&request.status) {
        Some(raw) => Some(normalize_job_status(raw)?),
        None => None,
    };
    let task_id = match nonblank_str(&request.task_id) {
        Some(raw) => Some(string_of(trim_str(raw).as_slice())),
        None => None,
    };
    let anchor_id = match nonblank_str(&request.anchor_id) {
        Some(raw) => Some(normalize_anchor_id(raw)?),
        None => None,
    };
    Ok(JobsListFilter { status, task_id, anchor_id, limit })
}

/// The page cut from jobs read one more than the limit at most: the first `limit`, and
/// whether more were there.
pub fn jobs_list_page(jobs: Vec<JobRow>, limit: usize) -> (r: JobsListResult)
    ensures
        r.has_more == (jobs@.len() > limit),
        r.jobs@ == if r.has_more {
            jobs@.take(limit as int)
        } else {
            jobs@
        },
{
    let mut jobs = jobs;
    let has_more = jobs.len() > limit;
    if has_more {
        jobs.truncate(limit);
    }
    JobsListResult { jobs, has_more }
}

/// The tail of a job's events after a sequence number.
#[derive(Clone, Debug)]
pub struct JobEventsTailRequest {
    pub id: String,
    pub after_seq: i64,
    pub limit: usize,
}

/// A tail as the store reads it: the normalized job id, the sequence number it reads after,
/// and at most how many events.
#[derive(Clone, Debug)]
pub struct JobEventsTailPlan {
    pub id: String,
    pub after_seq: i64,
    pub limit: usize,
}

/// A page of a job's events, oldest first.
#[derive(Debug)]
pub struct JobEventsTailResult {
    pub job_id: String,
    pub after_seq: i64,
    pub next_after_seq: i64,
    pub events: Vec<JobEventRow>,
    pub has_more: bool,
}

/// A tail names a well-formed job id and a sequence number that is not negative; its limit
/// is held within 1..=200.
pub fn plan_events_tail(request: &JobEventsTailRequest) -> (r: Result<JobEventsTailPlan, StoreError>)
    ensures
        job_id_spec(request.id@) matches Err(m) ==> (r matches Err(StoreError::InvalidInput(x))
            && x@ == m),
        job_id_spec(request.id@) is Ok && request.after_seq < 0 ==> (r matches Err(
            StoreError::InvalidInput(x),
        ) && x@ == "after_seq must be >= 0"@),
        job_id_spec(request.id@) matches Ok(id) ==> (request.after_seq >= 0 ==> (r matches Ok(p)
            && p.id@ == id && p.after_seq == request.after_seq && p.limit == clamped(
            request.limit as int,
            1,
            MAX_LIST_LIMIT as int,
        ))),
{
    let id = normalize_job_id(request.id.as_str())?;
    if request.after_seq < 0 {
        return Err(StoreError::InvalidInput("after_seq must be >= 0"));
    }
    let limit = if request.limit < 1 {
        1
    } else if request.limit > MAX_LIST_LIMIT {
        MAX_LIST_LIMIT
    } else {
        request.limit
    };
    Ok(JobEventsTailPlan { id, after_seq: request.after_seq, limit })
}

/// The page of a tail, from events read oldest first, one more than the limit at most: the
/// first `limit`, whether more were there, and the sequence number the next tail reads after
/// (that of the last event kept, or the one this tail read after when none was).
pub fn events_tail_page(plan: JobEventsTailPlan, events: Vec<JobEventRow>) -> (r: JobEventsTailResult)
    ensures
        r.job_id@ == plan.id@,
        r.after_seq == plan.after_seq,
        r.has_more == (events@.len() > plan.limit),
        r.events@ == if r.has_more {
            events@.take(plan.limit as int)
        } else {
            events@
        },
        r.next_after_seq == if r.events@.len() > 0 {
            r.events@.last().seq
        } else {
            plan.after_seq
        },
{
    let mut events = events;
    let has_more = events.len() > plan.limit;
    if has_more {
        events.truncate(plan.limit);
    }
    let next_after_seq = if events.len() > 0 {
        events[events.len() - 1].seq
    } else {
        plan.after_seq
    };
    JobEventsTailResult {
        job_id: plan.id,
        after_seq: plan.after_seq,
        next_after_seq,
        events,
        has_more,
    }
}

} // verus!
