//! The job lifecycle: which requests a job accepts in which state, and what each accepted
//! request changes. A job is QUEUED, then RUNNING under a runner's lease, then DONE, FAILED
//! or CANCELED; only a requeue takes a finished job back to QUEUED. The statements that read
//! and write the `jobs` table run around these decisions.

use vstd::prelude::*;

use super::anchors::string_list_spec;
use super::error::StoreError;
use super::fields::bounded_trimmed_spec;
use super::jobs::{
    job_id_spec, job_status_spec, job_summary_spec, normalize_event_kind, normalize_event_message,
    normalize_event_refs, normalize_job_id, normalize_job_runner_id, normalize_job_status,
    normalize_job_summary, normalize_job_title, normalize_job_prompt, normalize_job_kind,
    normalize_job_priority, job_priority_spec, MAX_JOB_TITLE_LEN, MAX_JOB_PROMPT_LEN,
    MAX_JOB_KIND_LEN, MAX_EVENT_KIND_LEN, MAX_EVENT_MESSAGE_LEN, MAX_EVENT_REFS,
    MAX_EVENT_REFS_ITEM_LEN, MAX_JOB_RUNNER_LEN,
};
use super::fields::clipped_trimmed_spec;
use super::anchors::{anchor_id_spec, normalize_anchor_id};
use super::radar::JobRow;
use super::jobs::JobEventRow;
use crate::num::{dec_int_padded, i64_to_dec_padded};
use crate::graph::opt_view;
use super::anchors::serde_quoted;
use crate::text::{
    append_chars, append_str, chars_eq_str, chars_of, lex_lt, string_of, strs, take_chars, trim_seq,
    trim_str,
};

verus! {

broadcast use vstd::string::group_string_axioms;

/// The shortest lease a claim grants, in milliseconds.
pub const MIN_JOB_CLAIM_TTL_MS: u64 = 1_000;

/// The longest lease a claim grants, in milliseconds.
pub const MAX_JOB_CLAIM_TTL_MS: u64 = 300_000;

/// Why the lifecycle refuses a request.
#[derive(Debug)]
pub enum JobError {
    InvalidInput(&'static str),
    UnknownId,
    RevisionMismatch { expected: i64, actual: i64 },
    JobNotClaimable { job_id: String, status: String },
    JobNotRunning { job_id: String, status: String },
    JobClaimMismatch {
        job_id: String,
        expected_runner_id: Option<String>,
        actual_runner_id: String,
        expected_revision: i64,
        actual_revision: i64,
    },
    JobAlreadyTerminal { job_id: String, status: String },
    JobNotCancelable { job_id: String, status: String },
    JobNotRequeueable { job_id: String, status: String },
    JobNotMessageable { job_id: String, status: String },
}

/// A refusal with its texts as character sequences.
pub enum JobErrorView {
    InvalidInput(Seq<char>),
    UnknownId,
    RevisionMismatch { expected: i64, actual: i64 },
    JobNotClaimable { job_id: Seq<char>, status: Seq<char> },
    JobNotRunning { job_id: Seq<char>, status: Seq<char> },
    JobClaimMismatch {
        job_id: Seq<char>,
        expected_runner_id: Option<Seq<char>>,
        actual_runner_id: Seq<char>,
        expected_revision: i64,
        actual_revision: i64,
    },
    JobAlreadyTerminal { job_id: Seq<char>, status: Seq<char> },
    JobNotCancelable { job_id: Seq<char>, status: Seq<char> },
    JobNotRequeueable { job_id: Seq<char>, status: Seq<char> },
    JobNotMessageable { job_id: Seq<char>, status: Seq<char> },
}

impl View for JobError {
    type V = JobErrorView;

    open spec fn view(&self) -> JobErrorView {
        match *self {
            JobError::InvalidInput(m) => JobErrorView::InvalidInput(m@),
            JobError::UnknownId => JobErrorView::UnknownId,
            JobError::RevisionMismatch { expected, actual } => JobErrorView::RevisionMismatch {
                expected,
                actual,
            },
            JobError::JobNotClaimable { job_id, status } => JobErrorView::JobNotClaimable {
                job_id: job_id@,
                status: status@,
            },
            JobError::JobNotRunning { job_id, status } => JobErrorView::JobNotRunning {
                job_id: job_id@,
                status: status@,
            },
            JobError::JobClaimMismatch {
                job_id,
                expected_runner_id,
                actual_runner_id,
                expected_revision,
                actual_revision,
            } => JobErrorView::JobClaimMismatch {
                job_id: job_id@,
                expected_runner_id: opt_view(expected_runner_id),
                actual_runner_id: actual_runner_id@,
                expected_revision,
                actual_revision,
            },
            JobError::JobAlreadyTerminal { job_id, status } => JobErrorView::JobAlreadyTerminal {
                job_id: job_id@,
                status: status@,
            },
            JobError::JobNotCancelable { job_id, status } => JobErrorView::JobNotCancelable {
                job_id: job_id@,
                status: status@,
            },
            JobError::JobNotRequeueable { job_id, status } => JobErrorView::JobNotRequeueable {
                job_id: job_id@,
                status: status@,
            },
            JobError::JobNotMessageable { job_id, status } => JobErrorView::JobNotMessageable {
                job_id: job_id@,
                status: status@,
            },
        }
    }
}

/// What the lifecycle reads of a stored job: its revision, status, runner and lease expiry.
#[derive(Clone, Debug)]
pub struct JobLease {
    pub revision: i64,
    pub status: String,
    pub runner: Option<String>,
    pub claim_expires_at_ms: Option<i64>,
}

pub struct JobLeaseView {
    pub revision: i64,
    pub status: Seq<char>,
    pub runner: Option<Seq<char>>,
    pub claim_expires_at_ms: Option<i64>,
}

impl View for JobLease {
    type V = JobLeaseView;

    open spec fn view(&self) -> JobLeaseView {
        JobLeaseView {
            revision: self.revision,
            status: self.status@,
            runner: opt_view(self.runner),
            claim_expires_at_ms: self.claim_expires_at_ms,
        }
    }
}

pub open spec fn opt_lease(o: Option<JobLease>) -> Option<JobLeaseView> {
    match o {
        None => None,
        Some(l) => Some(l@),
    }
}

/// A finished job: DONE, FAILED or CANCELED.
pub open spec fn is_terminal(status: Seq<char>) -> bool {
    status == "DONE"@ || status == "FAILED"@ || status == "CANCELED"@
}

/// A job that is waiting or being worked on.
pub open spec fn is_open(status: Seq<char>) -> bool {
    status == "QUEUED"@ || status == "RUNNING"@
}

pub fn status_is(status: &String, name: &str) -> (r: bool)
    ensures
        r == (status@ == name@),
{
    let v = chars_of(status.as_str());
    chars_eq_str(v.as_slice(), name)
}

pub fn status_is_terminal(status: &String) -> (r: bool)
    ensures
        r == is_terminal(status@),
{
    status_is(status, "DONE") || status_is(status, "FAILED") || status_is(status, "CANCELED")
}

/// A normalization result carried over to the lifecycle's own error.
pub open spec fn lifted(s: Result<Seq<char>, Seq<char>>) -> Result<Seq<char>, JobErrorView> {
    match s {
        Ok(v) => Ok(v),
        Err(m) => Err(JobErrorView::InvalidInput(m)),
    }
}

fn lift(r: Result<String, StoreError>) -> (out: Result<String, JobError>)
    requires
        r is Ok || r matches Err(StoreError::InvalidInput(_)),
    ensures
        match (r, out) {
            (Ok(a), Ok(b)) => a@ == b@,
            (Err(StoreError::InvalidInput(m)), Err(JobError::InvalidInput(n))) => m@ == n@,
            _ => false,
        },
{
    match r {
        Ok(v) => Ok(v),
        Err(StoreError::InvalidInput(m)) => Err(JobError::InvalidInput(m)),
        Err(_) => Err(JobError::UnknownId),
    }
}

/// A text result as a view.
pub open spec fn res_view(r: Result<String, JobError>) -> Result<Seq<char>, JobErrorView> {
    match r {
        Ok(v) => Ok(v@),
        Err(e) => Err(e@),
    }
}

pub open spec fn job_runner_spec(raw: Seq<char>) -> Result<Seq<char>, Seq<char>> {
    bounded_trimmed_spec(
        raw,
        MAX_JOB_RUNNER_LEN as nat,
        "runner_id must not be empty"@,
        "runner_id is too long"@,
    )
}

pub open spec fn event_refs_spec(refs: Seq<Seq<char>>) -> Result<Seq<Seq<char>>, Seq<char>> {
    if refs.len() > MAX_EVENT_REFS {
        Err("job_event.refs exceeds max items"@)
    } else {
        string_list_spec(refs, MAX_EVENT_REFS_ITEM_LEN as nat, "job_event.refs item too long"@)
    }
}

fn job_id_of(raw: &str) -> (r: Result<String, JobError>)
    ensures
        res_view(r) == lifted(job_id_spec(raw@)),
{
    lift(normalize_job_id(raw))
}

fn runner_id_of(raw: &str) -> (r: Result<String, JobError>)
    ensures
        res_view(r) == lifted(job_runner_spec(raw@)),
{
    lift(normalize_job_runner_id(raw))
}

fn refs_of(refs: Vec<String>) -> (r: Result<Vec<String>, JobError>)
    ensures
        match (r, event_refs_spec(strs(refs@))) {
            (Ok(v), Ok(w)) => strs(v@) == w,
            (Err(e), Err(m)) => e@ == JobErrorView::InvalidInput(m),
            _ => false,
        },
{
    match normalize_event_refs(refs) {
        Ok(v) => Ok(v),
        Err(StoreError::InvalidInput(m)) => Err(JobError::InvalidInput(m)),
        Err(_) => Err(JobError::UnknownId),
    }
}

// ---------------------------------------------------------------------------------------
// Leases

/// The lease length a claim asks for, held between one second and five minutes.
pub open spec fn claim_ttl_spec(ttl_ms: u64) -> u64 {
    if ttl_ms < MIN_JOB_CLAIM_TTL_MS {
        MIN_JOB_CLAIM_TTL_MS
    } else if ttl_ms > MAX_JOB_CLAIM_TTL_MS {
        MAX_JOB_CLAIM_TTL_MS
    } else {
        ttl_ms
    }
}

pub fn clamp_claim_ttl(ttl_ms: u64) -> (r: u64)
    ensures
        r == claim_ttl_spec(ttl_ms),
{
    if ttl_ms < MIN_JOB_CLAIM_TTL_MS {
        MIN_JOB_CLAIM_TTL_MS
    } else if ttl_ms > MAX_JOB_CLAIM_TTL_MS {
        MAX_JOB_CLAIM_TTL_MS
    } else {
        ttl_ms
    }
}

/// When a lease of `ttl_ms` taken at `now_ms` runs out, saturating at the ends of `i64`.
pub open spec fn lease_expiry_spec(now_ms: i64, ttl_ms: u64) -> i64 {
    let t: int = if ttl_ms > i64::MAX {
        i64::MAX as int
    } else {
        ttl_ms as int
    };
    if now_ms + t > i64::MAX {
        i64::MAX
    } else {
        (now_ms + t) as i64
    }
}

pub fn lease_expiry(now_ms: i64, ttl_ms: u64) -> (r: i64)
    ensures
        r == lease_expiry_spec(now_ms, ttl_ms),
{
    let t: i64 = if ttl_ms > i64::MAX as u64 {
        i64::MAX
    } else {
        ttl_ms as i64
    };
    if now_ms > 0 && t > i64::MAX - now_ms {
        i64::MAX
    } else {
        now_ms + t
    }
}

/// A lease that has run out by `now_ms`; a missing expiry counts as long past.
pub open spec fn lease_expired(expires: Option<i64>, now_ms: i64) -> bool {
    match expires {
        None => 0 <= now_ms,
        Some(e) => e <= now_ms,
    }
}

// ---------------------------------------------------------------------------------------
// Claim

/// A runner asks for a job: a QUEUED one, or (with `allow_stale`) a RUNNING one whose lease
/// has run out.
#[derive(Clone, Debug)]
pub struct JobClaimRequest {
    pub id: String,
    pub runner_id: String,
    pub lease_ttl_ms: u64,
    pub allow_stale: bool,
}

#[derive(Clone, Copy, Debug, PartialEq, Eq, Structural)]
pub enum ClaimKind {
    Claimed,
    Reclaimed,
}

/// An accepted claim: the job turns RUNNING under `runner_id` with revision `next_revision`
/// and a lease to `claim_expires_at_ms`, provided it still has `revision`.
#[derive(Debug)]
pub struct JobClaimPlan {
    pub job_id: String,
    pub runner_id: String,
    pub kind: ClaimKind,
    pub revision: i64,
    pub next_revision: i64,
    pub claim_expires_at_ms: i64,
    pub previous_runner_id: Option<String>,
}

pub struct JobClaimPlanView {
    pub job_id: Seq<char>,
    pub runner_id: Seq<char>,
    pub kind: ClaimKind,
    pub revision: i64,
    pub next_revision: i64,
    pub claim_expires_at_ms: i64,
    pub previous_runner_id: Option<Seq<char>>,
}

impl View for JobClaimPlan {
    type V = JobClaimPlanView;

    open spec fn view(&self) -> JobClaimPlanView {
        JobClaimPlanView {
            job_id: self.job_id@,
            runner_id: self.runner_id@,
            kind: self.kind,
            revision: self.revision,
            next_revision: self.next_revision,
            claim_expires_at_ms: self.claim_expires_at_ms,
            previous_runner_id: opt_view(self.previous_runner_id),
        }
    }
}

/// The trimmed text, when some is left.
pub open spec fn trimmed_present(o: Option<Seq<char>>) -> Option<Seq<char>> {
    match o {
        None => None,
        Some(s) => if trim_seq(s).len() == 0 {
            None
        } else {
            Some(trim_seq(s))
        },
    }
}

pub open spec fn claim_plan_view(
    job_id: Seq<char>,
    runner_id: Seq<char>,
    kind: ClaimKind,
    current: JobLeaseView,
    expires: i64,
) -> JobClaimPlanView {
    JobClaimPlanView {
        job_id,
        runner_id,
        kind,
        revision: current.revision,
        next_revision: (current.revision + 1) as i64,
        claim_expires_at_ms: expires,
        previous_runner_id: if kind == ClaimKind::Reclaimed {
            trimmed_present(current.runner)
        } else {
            None
        },
    }
}

/// What a claim at `now_ms` does to a job in state `current`.
pub open spec fn claim_spec(
    id: Seq<char>,
    runner: Seq<char>,
    lease_ttl_ms: u64,
    allow_stale: bool,
    now_ms: i64,
    current: Option<JobLeaseView>,
) -> Result<JobClaimPlanView, JobErrorView> {
    let expires = lease_expiry_spec(now_ms, claim_ttl_spec(lease_ttl_ms));
    match job_id_spec(id) {
        Err(m) => Err(JobErrorView::InvalidInput(m)),
        Ok(jid) => match job_runner_spec(runner) {
            Err(m) => Err(JobErrorView::InvalidInput(m)),
            Ok(rid) => match current {
                None => Err(JobErrorView::UnknownId),
                Some(c) => if c.status == "QUEUED"@ {
                    Ok(claim_plan_view(jid, rid, ClaimKind::Claimed, c, expires))
                } else if allow_stale && c.status == "RUNNING"@ && lease_expired(
                    c.claim_expires_at_ms,
                    now_ms,
                ) {
                    Ok(claim_plan_view(jid, rid, ClaimKind::Reclaimed, c, expires))
                } else {
                    Err(JobErrorView::JobNotClaimable { job_id: jid, status: c.status })
                },
            },
        },
    }
}

pub open spec fn claim_result_view(r: Result<JobClaimPlan, JobError>) -> Result<
    JobClaimPlanView,
    JobErrorView,
> {
    match r {
        Ok(p) => Ok(p@),
        Err(e) => Err(e@),
    }
}

/// The stored revision is below `i64::MAX`, so that the next one exists.
pub open spec fn revision_can_advance(current: Option<JobLease>) -> bool {
    current matches Some(c) ==> c.revision < i64::MAX
}

fn trimmed_present_of(o: &Option<String>) -> (r: Option<String>)
    ensures
        opt_view(r) == trimmed_present(opt_view(*o)),
{
    match o {
        None => None,
        Some(s) => {
            let t = trim_str(s.as_str());
            if t.len() == 0 {
                None
            } else {
                Some(string_of(t.as_slice()))
            }
        },
    }
}

/// Decides a claim at `now_ms` on the job as it is stored (`current`, `None` when there is
/// no such job).
pub fn plan_job_claim(request: &JobClaimRequest, now_ms: i64, current: Option<JobLease>) -> (r:
    Result<JobClaimPlan, JobError>)
    requires
        revision_can_advance(current),
    ensures
        claim_result_view(r) == claim_spec(
            request.id@,
            request.runner_id@,
            request.lease_ttl_ms,
            request.allow_stale,
            now_ms,
            opt_lease(current),
        ),
{
    let job_id = job_id_of(request.id.as_str())?;
    let runner_id = runner_id_of(request.runner_id.as_str())?;
    let expires = lease_expiry(now_ms, clamp_claim_ttl(request.lease_ttl_ms));
    let c = match current {
        None => {
            return Err(JobError::UnknownId);
        },
        Some(c) => c,
    };
    let kind = if status_is(&c.status, "QUEUED") {
        ClaimKind::Claimed
    } else {
        let expired = match c.claim_expires_at_ms {
            None => 0 <= now_ms,
            Some(e) => e <= now_ms,
        };
        if request.allow_stale && status_is(&c.status, "RUNNING") && expired {
            ClaimKind::Reclaimed
        } else {
            return Err(JobError::JobNotClaimable { job_id, status: c.status });
        }
    };
    let previous_runner_id = if kind == ClaimKind::Reclaimed {
        trimmed_present_of(&c.runner)
    } else {
        None
    };
    Ok(JobClaimPlan {
        job_id,
        runner_id,
        kind,
        revision: c.revision,
        next_revision: c.revision + 1,
        claim_expires_at_ms: expires,
        previous_runner_id,
    })
}

/// The kind (and message) of the event a claim writes.
pub fn claim_event_kind(kind: ClaimKind) -> (r: &'static str)
    ensures
        r@ == (if kind == ClaimKind::Claimed {
            "claimed"@
        } else {
            "reclaimed"@
        }),
{
    match kind {
        ClaimKind::Claimed => "claimed",
        ClaimKind::Reclaimed => "reclaimed",
    }
}

/// The keys come in strictly increasing order (the order of `serde_json`'s map).
pub open spec fn keys_strictly_sorted(fields: Seq<(Seq<char>, Seq<char>)>) -> bool {
    forall|i: int, j: int| 0 <= i < j < fields.len() ==> lex_lt(#[trigger] fields[i].0, #[trigger] fields[j].0)
}

/// The members of a JSON object, `"key":"value"`, separated by commas.
pub open spec fn serde_members(fields: Seq<(Seq<char>, Seq<char>)>) -> Seq<char>
    decreases fields.len(),
{
    if fields.len() == 0 {
        Seq::empty()
    } else {
        let last = serde_quoted(fields.last().0) + seq![':'] + serde_quoted(fields.last().1);
        if fields.len() == 1 {
            last
        } else {
            serde_members(fields.drop_last()) + seq![','] + last
        }
    }
}

/// The compact JSON text `serde_json` writes for an object of string fields whose keys are
/// already in its map's order.
pub open spec fn serde_string_object_text(fields: Seq<(Seq<char>, Seq<char>)>) -> Seq<char> {
    seq!['{'] + serde_members(fields) + seq!['}']
}

pub open spec fn field_views(fields: Seq<(&'static str, String)>) -> Seq<(Seq<char>, Seq<char>)> {
    fields.map_values(|f: (&'static str, String)| (f.0@, f.1@))
}

/// `serde_json::Value::Object` of string values, written with `to_string`: with keys given in
/// increasing order, the map keeps that order, and each key and value is written as a JSON
/// string literal.
#[verifier::external_body]
fn json_string_object(fields: &[(&'static str, String)]) -> (r: String)
    requires
        keys_strictly_sorted(field_views(fields@)),
    ensures
        r@ == serde_string_object_text(field_views(fields@)),
{
    let map: serde_json::Map<String, serde_json::Value> = fields
        .iter()
        .map(|(k, v)| (k.to_string(), serde_json::Value::String(v.clone())))
        .collect();
    serde_json::Value::Object(map).to_string()
}

/// The fields of a reclaim's event metadata: the runner whose lease ran out, when known,
/// and the reason.
pub open spec fn reclaim_fields(previous_runner_id: Option<Seq<char>>) -> Seq<(Seq<char>, Seq<char>)> {
    match previous_runner_id {
        Some(p) => seq![("previous_runner_id"@, p), ("reason"@, "ttl_expired"@)],
        None => seq![("reason"@, "ttl_expired"@)],
    }
}

/// The metadata of the event a claim writes: none for a fresh claim, and for a reclaim the
/// previous runner and the reason.
pub fn claim_event_meta_json(plan: &JobClaimPlan) -> (r: Option<String>)
    ensures
        plan.kind == ClaimKind::Claimed ==> r is None,
        plan.kind == ClaimKind::Reclaimed ==> (r matches Some(t) && t@ == serde_string_object_text(
            reclaim_fields(opt_view(plan.previous_runner_id)),
        )),
{
    if plan.kind == ClaimKind::Claimed {
        return None;
    }
    let mut fields: Vec<(&'static str, String)> = Vec::new();
    match &plan.previous_runner_id {
        Some(p) => fields.push(("previous_runner_id", p.clone())),
        None => {},
    }
    fields.push(("reason", string_of(chars_of("ttl_expired").as_slice())));
    proof {
        assert(field_views(fields@) =~= reclaim_fields(opt_view(plan.previous_runner_id)));
        reveal_strlit("previous_runner_id");
        reveal_strlit("reason");
        assert("previous_runner_id"@[0] == 'p' && "reason"@[0] == 'r');
        assert(lex_lt("previous_runner_id"@, "reason"@));
    }
    Some(json_string_object(fields.as_slice()))
}

// ---------------------------------------------------------------------------------------
// Report and complete: requests of the runner that holds the lease

pub open spec fn event_kind_spec(raw: Seq<char>) -> Result<Seq<char>, Seq<char>> {
    bounded_trimmed_spec(
        raw,
        MAX_EVENT_KIND_LEN as nat,
        "job_event.kind must not be empty"@,
        "job_event.kind is too long"@,
    )
}

pub open spec fn event_message_spec(raw: Seq<char>) -> Result<Seq<char>, Seq<char>> {
    clipped_trimmed_spec(raw, MAX_EVENT_MESSAGE_LEN as nat, "job_event.message must not be empty"@)
}

/// The lease check of a runner's request: the job must be RUNNING, under this runner, at the
/// revision the runner was given when it claimed it.
pub open spec fn lease_refusal(
    job_id: Seq<char>,
    runner_id: Seq<char>,
    claim_revision: i64,
    c: JobLeaseView,
) -> Option<JobErrorView> {
    if c.status != "RUNNING"@ {
        Some(JobErrorView::JobNotRunning { job_id, status: c.status })
    } else if c.runner != Some(runner_id) || c.revision != claim_revision {
        Some(
            JobErrorView::JobClaimMismatch {
                job_id,
                expected_runner_id: c.runner,
                actual_runner_id: runner_id,
                expected_revision: c.revision,
                actual_revision: claim_revision,
            },
        )
    } else {
        None
    }
}

fn check_lease(job_id: &String, runner_id: &String, claim_revision: i64, c: JobLease) -> (r: Result<
    (),
    JobError,
>)
    ensures
        match (r, lease_refusal(job_id@, runner_id@, claim_revision, c@)) {
            (Ok(()), None) => true,
            (Err(e), Some(v)) => e@ == v,
            _ => false,
        },
{
    if !status_is(&c.status, "RUNNING") {
        return Err(JobError::JobNotRunning { job_id: job_id.clone(), status: c.status });
    }
    let same_runner = match &c.runner {
        Some(r) => status_is(r, runner_id.as_str()),
        None => false,
    };
    if !same_runner || c.revision != claim_revision {
        return Err(
            JobError::JobClaimMismatch {
                job_id: job_id.clone(),
                expected_runner_id: c.runner,
                actual_runner_id: runner_id.clone(),
                expected_revision: c.revision,
                actual_revision: claim_revision,
            },
        );
    }
    Ok(())
}

/// A runner's progress report; it also renews the lease.
#[derive(Debug)]
pub struct JobReportRequest {
    pub id: String,
    pub runner_id: String,
    pub claim_revision: i64,
    pub lease_ttl_ms: u64,
    pub kind: String,
    pub message: String,
    pub percent: Option<i64>,
    pub refs: Vec<String>,
    pub meta_json: Option<String>,
}

/// An accepted report: the lease is renewed to `claim_expires_at_ms` (the revision stays) and
/// the event is written.
#[derive(Debug)]
pub struct JobReportPlan {
    pub job_id: String,
    pub runner_id: String,
    pub claim_revision: i64,
    pub claim_expires_at_ms: i64,
    pub kind: String,
    pub message: String,
    pub percent: Option<i64>,
    pub refs: Vec<String>,
    pub meta_json: Option<String>,
}

pub struct JobReportPlanView {
    pub job_id: Seq<char>,
    pub runner_id: Seq<char>,
    pub claim_revision: i64,
    pub claim_expires_at_ms: i64,
    pub kind: Seq<char>,
    pub message: Seq<char>,
    pub percent: Option<i64>,
    pub refs: Seq<Seq<char>>,
    pub meta_json: Option<Seq<char>>,
}

impl View for JobReportPlan {
    type V = JobReportPlanView;

    open spec fn view(&self) -> JobReportPlanView {
        JobReportPlanView {
            job_id: self.job_id@,
            runner_id: self.runner_id@,
            claim_revision: self.claim_revision,
            claim_expires_at_ms: self.claim_expires_at_ms,
            kind: self.kind@,
            message: self.message@,
            percent: self.percent,
            refs: strs(self.refs@),
            meta_json: opt_view(self.meta_json),
        }
    }
}

/// What a report at `now_ms` does to a job in state `current`.
pub open spec fn report_spec(
    req: JobReportRequest,
    now_ms: i64,
    current: Option<JobLeaseView>,
) -> Result<JobReportPlanView, JobErrorView> {
    match job_id_spec(req.id@) {
        Err(m) => Err(JobErrorView::InvalidInput(m)),
        Ok(jid) => match job_runner_spec(req.runner_id@) {
            Err(m) => Err(JobErrorView::InvalidInput(m)),
            Ok(rid) => if req.claim_revision < 0 {
                Err(JobErrorView::InvalidInput("claim_revision must be >= 0"@))
            } else {
                match event_kind_spec(req.kind@) {
                    Err(m) => Err(JobErrorView::InvalidInput(m)),
                    Ok(kind) => match event_message_spec(req.message@) {
                        Err(m) => Err(JobErrorView::InvalidInput(m)),
                        Ok(message) => match event_refs_spec(strs(req.refs@)) {
                            Err(m) => Err(JobErrorView::InvalidInput(m)),
                            Ok(refs) => match current {
                                None => Err(JobErrorView::UnknownId),
                                Some(c) => match lease_refusal(jid, rid, req.claim_revision, c) {
                                    Some(e) => Err(e),
                                    None => Ok(
                                        JobReportPlanView {
                                            job_id: jid,
                                            runner_id: rid,
                                            claim_revision: req.claim_revision,
                                            claim_expires_at_ms: lease_expiry_spec(
                                                now_ms,
                                                claim_ttl_spec(req.lease_ttl_ms),
                                            ),
                                            kind,
                                            message,
                                            percent: req.percent,
                                            refs,
                                            meta_json: opt_view(req.meta_json),
                                        },
                                    ),
                                },
                            },
                        },
                    },
                }
            },
        },
    }
}

pub open spec fn report_result_view(r: Result<JobReportPlan, JobError>) -> Result<
    JobReportPlanView,
    JobErrorView,
> {
    match r {
        Ok(p) => Ok(p@),
        Err(e) => Err(e@),
    }
}

/// Decides a progress report at `now_ms` on the job as it is stored.
pub fn plan_job_report(request: JobReportRequest, now_ms: i64, current: Option<JobLease>) -> (r:
    Result<JobReportPlan, JobError>)
    ensures
        report_result_view(r) == report_spec(request, now_ms, opt_lease(current)),
{
    let job_id = job_id_of(request.id.as_str())?;
    let runner_id = runner_id_of(request.runner_id.as_str())?;
    if request.claim_revision < 0 {
        return Err(JobError::InvalidInput("claim_revision must be >= 0"));
    }
    let expires = lease_expiry(now_ms, clamp_claim_ttl(request.lease_ttl_ms));
    let kind = lift(normalize_event_kind(request.kind.as_str()))?;
    let message = lift(normalize_event_message(request.message.as_str()))?;
    let refs = refs_of(request.refs)?;
    let c = match current {
        None => {
            return Err(JobError::UnknownId);
        },
        Some(c) => c,
    };
    check_lease(&job_id, &runner_id, request.claim_revision, c)?;
    Ok(
        JobReportPlan {
            job_id,
            runner_id,
            claim_revision: request.claim_revision,
            claim_expires_at_ms: expires,
            kind,
            message,
            percent: request.percent,
            refs,
            meta_json: request.meta_json,
        },
    )
}

/// A runner's final word on a job: DONE, FAILED or CANCELED.
#[derive(Debug)]
pub struct JobCompleteRequest {
    pub id: String,
    pub runner_id: String,
    pub claim_revision: i64,
    pub status: String,
    pub summary: Option<String>,
    pub refs: Vec<String>,
    pub meta_json: Option<String>,
}

/// An accepted completion: the job takes `status` and `next_revision`, keeps `summary`,
/// drops its lease, and the event `event_kind` / `event_message` is written.
#[derive(Debug)]
pub struct JobCompletePlan {
    pub job_id: String,
    pub runner_id: String,
    pub claim_revision: i64,
    pub next_revision: i64,
    pub status: String,
    pub summary: Option<String>,
    pub refs: Vec<String>,
    pub meta_json: Option<String>,
    pub event_kind: &'static str,
    pub event_message: &'static str,
}

pub struct JobCompletePlanView {
    pub job_id: Seq<char>,
    pub runner_id: Seq<char>,
    pub claim_revision: i64,
    pub next_revision: i64,
    pub status: Seq<char>,
    pub summary: Option<Seq<char>>,
    pub refs: Seq<Seq<char>>,
    pub meta_json: Option<Seq<char>>,
    pub event_kind: Seq<char>,
    pub event_message: Seq<char>,
}

impl View for JobCompletePlan {
    type V = JobCompletePlanView;

    open spec fn view(&self) -> JobCompletePlanView {
        JobCompletePlanView {
            job_id: self.job_id@,
            runner_id: self.runner_id@,
            claim_revision: self.claim_revision,
            next_revision: self.next_revision,
            status: self.status@,
            summary: opt_view(self.summary),
            refs: strs(self.refs@),
            meta_json: opt_view(self.meta_json),
            event_kind: self.event_kind@,
            event_message: self.event_message@,
        }
    }
}

/// The event kind of a completion with a terminal status.
pub open spec fn complete_event_kind(status: Seq<char>) -> Seq<char> {
    if status == "FAILED"@ {
        "failed"@
    } else if status == "CANCELED"@ {
        "canceled"@
    } else {
        "completed"@
    }
}

/// The event message of a completion with a terminal status.
pub open spec fn complete_event_message(status: Seq<char>) -> Seq<char> {
    if status == "FAILED"@ {
        "failed"@
    } else if status == "CANCELED"@ {
        "canceled"@
    } else {
        "done"@
    }
}

/// What a completion does to a job in state `current`.
pub open spec fn complete_spec(req: JobCompleteRequest, current: Option<JobLeaseView>) -> Result<
    JobCompletePlanView,
    JobErrorView,
> {
    match job_id_spec(req.id@) {
        Err(m) => Err(JobErrorView::InvalidInput(m)),
        Ok(jid) => match job_runner_spec(req.runner_id@) {
            Err(m) => Err(JobErrorView::InvalidInput(m)),
            Ok(rid) => if req.claim_revision < 0 {
                Err(JobErrorView::InvalidInput("claim_revision must be >= 0"@))
            } else {
                match job_status_spec(req.status@) {
                    Err(m) => Err(JobErrorView::InvalidInput(m)),
                    Ok(st) => if !is_terminal(st) {
                        Err(JobErrorView::InvalidInput("job_complete status must be terminal"@))
                    } else {
                        match event_refs_spec(strs(req.refs@)) {
                            Err(m) => Err(JobErrorView::InvalidInput(m)),
                            Ok(refs) => match current {
                                None => Err(JobErrorView::UnknownId),
                                Some(c) => if is_terminal(c.status) {
                                    Err(
                                        JobErrorView::JobAlreadyTerminal {
                                            job_id: jid,
                                            status: c.status,
                                        },
                                    )
                                } else {
                                    match lease_refusal(jid, rid, req.claim_revision, c) {
                                        Some(e) => Err(e),
                                        None => Ok(
                                            JobCompletePlanView {
                                                job_id: jid,
                                                runner_id: rid,
                                                claim_revision: req.claim_revision,
                                                next_revision: (c.revision + 1) as i64,
                                                status: st,
                                                summary: job_summary_spec(opt_view(req.summary)),
                                                refs,
                                                meta_json: opt_view(req.meta_json),
                                                event_kind: complete_event_kind(st),
                                                event_message: complete_event_message(st),
                                            },
                                        ),
                                    }
                                },
                            },
                        }
                    },
                }
            },
        },
    }
}

pub open spec fn complete_result_view(r: Result<JobCompletePlan, JobError>) -> Result<
    JobCompletePlanView,
    JobErrorView,
> {
    match r {
        Ok(p) => Ok(p@),
        Err(e) => Err(e@),
    }
}

/// Decides a completion on the job as it is stored.
pub fn plan_job_complete(request: JobCompleteRequest, current: Option<JobLease>) -> (r: Result<
    JobCompletePlan,
    JobError,
>)
    requires
        revision_can_advance(current),
    ensures
        complete_result_view(r) == complete_spec(request, opt_lease(current)),
{
    let job_id = job_id_of(request.id.as_str())?;
    let runner_id = runner_id_of(request.runner_id.as_str())?;
    if request.claim_revision < 0 {
        return Err(JobError::InvalidInput("claim_revision must be >= 0"));
    }
    let status = lift(normalize_job_status(request.status.as_str()))?;
    if !status_is_terminal(&status) {
        return Err(JobError::InvalidInput("job_complete status must be terminal"));
    }
    let summary = match normalize_job_summary(request.summary) {
        Ok(s) => s,
        Err(_) => None,
    };
    let refs = refs_of(request.refs)?;
    let c = match current {
        None => {
            return Err(JobError::UnknownId);
        },
        Some(c) => c,
    };
    if status_is_terminal(&c.status) {
        return Err(JobError::JobAlreadyTerminal { job_id, status: c.status });
    }
    let revision = c.revision;
    check_lease(&job_id, &runner_id, request.claim_revision, c)?;
    let (event_kind, event_message) = if status_is(&status, "FAILED") {
        ("failed", "failed")
    } else if status_is(&status, "CANCELED") {
        ("canceled", "canceled")
    } else {
        ("completed", "done")
    };
    Ok(
        JobCompletePlan {
            job_id,
            runner_id,
            claim_revision: request.claim_revision,
            next_revision: revision + 1,
            status,
            summary,
            refs,
            meta_json: request.meta_json,
            event_kind,
            event_message,
        },
    )
}

// ---------------------------------------------------------------------------------------
// Cancel, requeue and message: requests of the manager

/// The manager stops a job; a RUNNING one only with `force_running`.
#[derive(Debug)]
pub struct JobCancelRequest {
    pub id: String,
    pub reason: Option<String>,
    pub refs: Vec<String>,
    pub meta_json: Option<String>,
    pub force_running: bool,
    pub expected_revision: Option<i64>,
}

/// An accepted cancel: the job turns CANCELED at `next_revision`, provided it still has
/// `revision`; a QUEUED job also loses its runner (`drops_runner`), and a lease that points at
/// the job is released when `releases_lease`.
#[derive(Debug)]
pub struct JobCancelPlan {
    pub job_id: String,
    pub revision: i64,
    pub next_revision: i64,
    pub summary: Option<String>,
    pub refs: Vec<String>,
    pub meta_json: Option<String>,
    pub drops_runner: bool,
    pub releases_lease: bool,
    pub message: String,
}

pub struct JobCancelPlanView {
    pub job_id: Seq<char>,
    pub revision: i64,
    pub next_revision: i64,
    pub summary: Option<Seq<char>>,
    pub refs: Seq<Seq<char>>,
    pub meta_json: Option<Seq<char>>,
    pub drops_runner: bool,
    pub releases_lease: bool,
    pub message: Seq<char>,
}

impl View for JobCancelPlan {
    type V = JobCancelPlanView;

    open spec fn view(&self) -> JobCancelPlanView {
        JobCancelPlanView {
            job_id: self.job_id@,
            revision: self.revision,
            next_revision: self.next_revision,
            summary: opt_view(self.summary),
            refs: strs(self.refs@),
            meta_json: opt_view(self.meta_json),
            drops_runner: self.drops_runner,
            releases_lease: self.releases_lease,
            message: self.message@,
        }
    }
}

/// The message of a cancel's event: `canceled: <reason>` cut to the message limit, or
/// `canceled` without a reason.
pub open spec fn cancel_message(reason: Option<Seq<char>>) -> Seq<char> {
    match trimmed_present(reason) {
        Some(t) => take_chars("canceled: "@ + t, MAX_EVENT_MESSAGE_LEN as nat),
        None => "canceled"@,
    }
}

/// What a cancel does to a job in state `current`.
pub open spec fn cancel_spec(req: JobCancelRequest, current: Option<JobLeaseView>) -> Result<
    JobCancelPlanView,
    JobErrorView,
> {
    match job_id_spec(req.id@) {
        Err(m) => Err(JobErrorView::InvalidInput(m)),
        Ok(jid) => match event_refs_spec(strs(req.refs@)) {
            Err(m) => Err(JobErrorView::InvalidInput(m)),
            Ok(refs) => match current {
                None => Err(JobErrorView::UnknownId),
                Some(c) => if is_terminal(c.status) {
                    Err(JobErrorView::JobAlreadyTerminal { job_id: jid, status: c.status })
                } else if req.expected_revision matches Some(e) && e < 0 {
                    Err(JobErrorView::InvalidInput("expected_revision must be >= 0"@))
                } else if req.expected_revision matches Some(e) && e != c.revision {
                    Err(
                        JobErrorView::RevisionMismatch {
                            expected: req.expected_revision->0,
                            actual: c.revision,
                        },
                    )
                } else if !is_open(c.status) || (c.status == "RUNNING"@ && !req.force_running) {
                    Err(JobErrorView::JobNotCancelable { job_id: jid, status: c.status })
                } else {
                    Ok(
                        JobCancelPlanView {
                            job_id: jid,
                            revision: c.revision,
                            next_revision: (c.revision + 1) as i64,
                            summary: job_summary_spec(opt_view(req.reason)),
                            refs,
                            meta_json: opt_view(req.meta_json),
                            drops_runner: c.status == "QUEUED"@,
                            releases_lease: c.status == "RUNNING"@ || c.runner is Some,
                            message: cancel_message(opt_view(req.reason)),
                        },
                    )
                },
            },
        },
    }
}

pub open spec fn cancel_result_view(r: Result<JobCancelPlan, JobError>) -> Result<
    JobCancelPlanView,
    JobErrorView,
> {
    match r {
        Ok(p) => Ok(p@),
        Err(e) => Err(e@),
    }
}

/// `canceled: <reason>` needs no trimming: it starts with a letter and ends where the
/// trimmed reason ends.
proof fn lemma_cancel_text_trimmed(t: Seq<char>)
    requires
        t.len() > 0,
        trim_seq(t) == t,
    ensures
        trim_seq("canceled: "@ + t) == "canceled: "@ + t,
{
    reveal_strlit("canceled: ");
    crate::text::lemma_trim_idempotent(t);
    let s = "canceled: "@ + t;
    assert(s[0] == 'c');
    assert(s.last() == t.last());
    crate::text::lemma_trim_noop(s);
}

fn cancel_message_of(reason: &Option<String>) -> (r: String)
    ensures
        r@ == cancel_message(opt_view(*reason)),
{
    match trimmed_present_of(reason) {
        None => string_of(chars_of("canceled").as_slice()),
        Some(t) => {
            let mut text: Vec<char> = Vec::new();
            append_str(&mut text, "canceled: ");
            append_str(&mut text, t.as_str());
            let text = string_of(text.as_slice());
            proof {
                crate::text::lemma_trim_idempotent(opt_view(*reason)->0);
                lemma_cancel_text_trimmed(t@);
            }
            match normalize_event_message(text.as_str()) {
                Ok(m) => m,
                Err(_) => string_of(chars_of("canceled").as_slice()),
            }
        },
    }
}

/// Decides a cancel on the job as it is stored.
pub fn plan_job_cancel(request: JobCancelRequest, current: Option<JobLease>) -> (r: Result<
    JobCancelPlan,
    JobError,
>)
    requires
        revision_can_advance(current),
    ensures
        cancel_result_view(r) == cancel_spec(request, opt_lease(current)),
{
    let job_id = job_id_of(request.id.as_str())?;
    let summary = match normalize_job_summary(request.reason.clone()) {
        Ok(s) => s,
        Err(_) => None,
    };
    let refs = refs_of(request.refs)?;
    let c = match current {
        None => {
            return Err(JobError::UnknownId);
        },
        Some(c) => c,
    };
    if status_is_terminal(&c.status) {
        return Err(JobError::JobAlreadyTerminal { job_id, status: c.status });
    }
    match request.expected_revision {
        Some(expected) => {
            if expected < 0 {
                return Err(JobError::InvalidInput("expected_revision must be >= 0"));
            }
            if c.revision != expected {
                return Err(JobError::RevisionMismatch { expected, actual: c.revision });
            }
        },
        None => {},
    }
    let queued = status_is(&c.status, "QUEUED");
    let running = status_is(&c.status, "RUNNING");
    if (running && !request.force_running) || !(queued || running) {
        return Err(JobError::JobNotCancelable { job_id, status: c.status });
    }
    let message = cancel_message_of(&request.reason);
    Ok(
        JobCancelPlan {
            job_id,
            revision: c.revision,
            next_revision: c.revision + 1,
            summary,
            refs,
            meta_json: request.meta_json,
            drops_runner: queued,
            releases_lease: running || c.runner.is_some(),
            message,
        },
    )
}

/// The manager puts a finished job back in the queue.
#[derive(Debug)]
pub struct JobRequeueRequest {
    pub id: String,
    pub reason: Option<String>,
    pub refs: Vec<String>,
    pub meta_json: Option<String>,
}

/// An accepted requeue: the job turns QUEUED at `next_revision`, without runner, lease,
/// summary or completion time.
#[derive(Debug)]
pub struct JobRequeuePlan {
    pub job_id: String,
    pub next_revision: i64,
    pub refs: Vec<String>,
    pub meta_json: Option<String>,
    pub message: String,
}

pub struct JobRequeuePlanView {
    pub job_id: Seq<char>,
    pub next_revision: i64,
    pub refs: Seq<Seq<char>>,
    pub meta_json: Option<Seq<char>>,
    pub message: Seq<char>,
}

impl View for JobRequeuePlan {
    type V = JobRequeuePlanView;

    open spec fn view(&self) -> JobRequeuePlanView {
        JobRequeuePlanView {
            job_id: self.job_id@,
            next_revision: self.next_revision,
            refs: strs(self.refs@),
            meta_json: opt_view(self.meta_json),
            message: self.message@,
        }
    }
}

/// The message of a requeue's event: `requeued: <reason>`, or `requeued` without a reason.
pub open spec fn requeue_message(reason: Option<Seq<char>>) -> Seq<char> {
    match trimmed_present(reason) {
        Some(t) => "requeued: "@ + t,
        None => "requeued"@,
    }
}

/// What a requeue does to a job in state `current`.
pub open spec fn requeue_spec(req: JobRequeueRequest, current: Option<JobLeaseView>) -> Result<
    JobRequeuePlanView,
    JobErrorView,
> {
    match job_id_spec(req.id@) {
        Err(m) => Err(JobErrorView::InvalidInput(m)),
        Ok(jid) => match event_refs_spec(strs(req.refs@)) {
            Err(m) => Err(JobErrorView::InvalidInput(m)),
            Ok(refs) => match current {
                None => Err(JobErrorView::UnknownId),
                Some(c) => if !is_terminal(c.status) {
                    Err(JobErrorView::JobNotRequeueable { job_id: jid, status: c.status })
                } else {
                    Ok(
                        JobRequeuePlanView {
                            job_id: jid,
                            next_revision: (c.revision + 1) as i64,
                            refs,
                            meta_json: opt_view(req.meta_json),
                            message: requeue_message(opt_view(req.reason)),
                        },
                    )
                },
            },
        },
    }
}

pub open spec fn requeue_result_view(r: Result<JobRequeuePlan, JobError>) -> Result<
    JobRequeuePlanView,
    JobErrorView,
> {
    match r {
        Ok(p) => Ok(p@),
        Err(e) => Err(e@),
    }
}

/// Decides a requeue on the job as it is stored.
pub fn plan_job_requeue(request: JobRequeueRequest, current: Option<JobLease>) -> (r: Result<
    JobRequeuePlan,
    JobError,
>)
    requires
        revision_can_advance(current),
    ensures
        requeue_result_view(r) == requeue_spec(request, opt_lease(current)),
{
    let job_id = job_id_of(request.id.as_str())?;
    let refs = refs_of(request.refs)?;
    let c = match current {
        None => {
            return Err(JobError::UnknownId);
        },
        Some(c) => c,
    };
    if !status_is_terminal(&c.status) {
        return Err(JobError::JobNotRequeueable { job_id, status: c.status });
    }
    let message = match trimmed_present_of(&request.reason) {
        None => string_of(chars_of("requeued").as_slice()),
        Some(t) => {
            let mut text: Vec<char> = Vec::new();
            append_str(&mut text, "requeued: ");
            append_str(&mut text, t.as_str());
            string_of(text.as_slice())
        },
    };
    Ok(
        JobRequeuePlan {
            job_id,
            next_revision: c.revision + 1,
            refs,
            meta_json: request.meta_json,
            message,
        },
    )
}

/// A short message from the manager to a job that is still open.
#[derive(Debug)]
pub struct JobMessageRequest {
    pub id: String,
    pub message: String,
    pub refs: Vec<String>,
}

/// An accepted message: it is written as a `manager` event.
#[derive(Debug)]
pub struct JobMessagePlan {
    pub job_id: String,
    pub message: String,
    pub refs: Vec<String>,
}

pub struct JobMessagePlanView {
    pub job_id: Seq<char>,
    pub message: Seq<char>,
    pub refs: Seq<Seq<char>>,
}

impl View for JobMessagePlan {
    type V = JobMessagePlanView;

    open spec fn view(&self) -> JobMessagePlanView {
        JobMessagePlanView { job_id: self.job_id@, message: self.message@, refs: strs(self.refs@) }
    }
}

/// What a manager message does to a job whose stored status is `current`.
pub open spec fn message_spec(req: JobMessageRequest, current: Option<Seq<char>>) -> Result<
    JobMessagePlanView,
    JobErrorView,
> {
    match job_id_spec(req.id@) {
        Err(m) => Err(JobErrorView::InvalidInput(m)),
        Ok(jid) => match event_message_spec(req.message@) {
            Err(m) => Err(JobErrorView::InvalidInput(m)),
            Ok(message) => match event_refs_spec(strs(req.refs@)) {
                Err(m) => Err(JobErrorView::InvalidInput(m)),
                Ok(refs) => match current {
                    None => Err(JobErrorView::UnknownId),
                    Some(st) => if !is_open(st) {
                        Err(JobErrorView::JobNotMessageable { job_id: jid, status: st })
                    } else {
                        Ok(JobMessagePlanView { job_id: jid, message, refs })
                    },
                },
            },
        },
    }
}

pub open spec fn message_result_view(r: Result<JobMessagePlan, JobError>) -> Result<
    JobMessagePlanView,
    JobErrorView,
> {
    match r {
        Ok(p) => Ok(p@),
        Err(e) => Err(e@),
    }
}

/// Decides a manager message on the job whose stored status is `current_status`.
pub fn plan_job_message(request: JobMessageRequest, current_status: Option<String>) -> (r: Result<
    JobMessagePlan,
    JobError,
>)
    ensures
        message_result_view(r) == message_spec(request, opt_view(current_status)),
{
    let job_id = job_id_of(request.id.as_str())?;
    let message = lift(normalize_event_message(request.message.as_str()))?;
    let refs = refs_of(request.refs)?;
    let status = match current_status {
        None => {
            return Err(JobError::UnknownId);
        },
        Some(s) => s,
    };
    if !(status_is(&status, "QUEUED") || status_is(&status, "RUNNING")) {
        return Err(JobError::JobNotMessageable { job_id, status });
    }
    Ok(JobMessagePlan { job_id, message, refs })
}

// ---------------------------------------------------------------------------------------
// Create

/// A new job, as the manager asks for it.
#[derive(Debug)]
pub struct JobCreateRequest {
    pub title: String,
    pub prompt: String,
    pub kind: String,
    pub priority: String,
    pub task_id: Option<String>,
    pub anchor_id: Option<String>,
    pub meta_json: Option<String>,
}

/// An accepted creation: the stored row (QUEUED at revision 0, without runner or lease) and
/// the prompt that goes with it. When the job names an anchor, that anchor is created too
/// if it does not exist yet.
#[derive(Debug)]
pub struct JobCreatePlan {
    pub job: JobRow,
    pub prompt: String,
    pub meta_json: Option<String>,
}

pub struct JobCreatePlanView {
    pub id: Seq<char>,
    pub revision: i64,
    pub status: Seq<char>,
    pub title: Seq<char>,
    pub kind: Seq<char>,
    pub priority: Seq<char>,
    pub task_id: Option<Seq<char>>,
    pub anchor_id: Option<Seq<char>>,
    pub runner: Option<Seq<char>>,
    pub claim_expires_at_ms: Option<i64>,
    pub summary: Option<Seq<char>>,
    pub created_at_ms: i64,
    pub updated_at_ms: i64,
    pub completed_at_ms: Option<i64>,
    pub prompt: Seq<char>,
    pub meta_json: Option<Seq<char>>,
}

impl View for JobCreatePlan {
    type V = JobCreatePlanView;

    open spec fn view(&self) -> JobCreatePlanView {
        JobCreatePlanView {
            id: self.job.id@,
            revision: self.job.revision,
            status: self.job.status@,
            title: self.job.title@,
            kind: self.job.kind@,
            priority: self.job.priority@,
            task_id: opt_view(self.job.task_id),
            anchor_id: opt_view(self.job.anchor_id),
            runner: opt_view(self.job.runner),
            claim_expires_at_ms: self.job.claim_expires_at_ms,
            summary: opt_view(self.job.summary),
            created_at_ms: self.job.created_at_ms,
            updated_at_ms: self.job.updated_at_ms,
            completed_at_ms: self.job.completed_at_ms,
            prompt: self.prompt@,
            meta_json: opt_view(self.meta_json),
        }
    }
}

/// The id of the job numbered `seq`: `JOB-` and at least three digits.
pub open spec fn job_id_for_seq(seq: i64) -> Seq<char> {
    "JOB-"@ + dec_int_padded(seq as int, 3)
}

/// What creating a job numbered `seq` at `now_ms` stores.
pub open spec fn create_spec(req: JobCreateRequest, seq: i64, now_ms: i64) -> Result<
    JobCreatePlanView,
    JobErrorView,
> {
    match clipped_trimmed_spec(req.title@, MAX_JOB_TITLE_LEN as nat, "job.title must not be empty"@) {
        Err(m) => Err(JobErrorView::InvalidInput(m)),
        Ok(title) => match clipped_trimmed_spec(
            req.prompt@,
            MAX_JOB_PROMPT_LEN as nat,
            "job.prompt must not be empty"@,
        ) {
            Err(m) => Err(JobErrorView::InvalidInput(m)),
            Ok(prompt) => match bounded_trimmed_spec(
                req.kind@,
                MAX_JOB_KIND_LEN as nat,
                "job.kind must not be empty"@,
                "job.kind is too long"@,
            ) {
                Err(m) => Err(JobErrorView::InvalidInput(m)),
                Ok(kind) => match job_priority_spec(req.priority@) {
                    Err(m) => Err(JobErrorView::InvalidInput(m)),
                    Ok(priority) => {
                        let anchor = match trimmed_present(opt_view(req.anchor_id)) {
                            None => Ok(None),
                            Some(a) => match anchor_id_spec(a) {
                                Err(m) => Err(m),
                                Ok(v) => Ok(Some(v)),
                            },
                        };
                        match anchor {
                            Err(m) => Err(JobErrorView::InvalidInput(m)),
                            Ok(anchor_id) => Ok(
                                JobCreatePlanView {
                                    id: job_id_for_seq(seq),
                                    revision: 0,
                                    status: "QUEUED"@,
                                    title,
                                    kind,
                                    priority,
                                    task_id: trimmed_present(opt_view(req.task_id)),
                                    anchor_id,
                                    runner: None,
                                    claim_expires_at_ms: None,
                                    summary: None,
                                    created_at_ms: now_ms,
                                    updated_at_ms: now_ms,
                                    completed_at_ms: None,
                                    prompt,
                                    meta_json: opt_view(req.meta_json),
                                },
                            ),
                        }
                    },
                },
            },
        },
    }
}

pub open spec fn create_result_view(r: Result<JobCreatePlan, JobError>) -> Result<
    JobCreatePlanView,
    JobErrorView,
> {
    match r {
        Ok(p) => Ok(p@),
        Err(e) => Err(e@),
    }
}

/// Decides the creation of the job numbered `seq` (the workspace's next job number) at
/// `now_ms`.
pub fn plan_job_create(request: JobCreateRequest, seq: i64, now_ms: i64) -> (r: Result<
    JobCreatePlan,
    JobError,
>)
    ensures
        create_result_view(r) == create_spec(request, seq, now_ms),
{
    let mut id: Vec<char> = Vec::new();
    append_str(&mut id, "JOB-");
    let digits = i64_to_dec_padded(seq, 3);
    append_chars(&mut id, digits.as_slice());
    let title = lift(normalize_job_title(request.title.as_str()))?;
    let prompt = lift(normalize_job_prompt(request.prompt.as_str()))?;
    let kind = lift(normalize_job_kind(request.kind.as_str()))?;
    let priority = lift(normalize_job_priority(request.priority.as_str()))?;
    let task_id = trimmed_present_of(&request.task_id);
    let anchor_id = match trimmed_present_of(&request.anchor_id) {
        None => None,
        Some(a) => Some(lift(normalize_anchor_id(a.as_str()))?),
    };
    Ok(
        JobCreatePlan {
            job: JobRow {
                id: string_of(id.as_slice()),
                revision: 0,
                status: string_of(chars_of("QUEUED").as_slice()),
                title,
                kind,
                priority,
                task_id,
                anchor_id,
                runner: None,
                claim_expires_at_ms: None,
                summary: None,
                created_at_ms: now_ms,
                updated_at_ms: now_ms,
                completed_at_ms: None,
            },
            prompt,
            meta_json: request.meta_json,
        },
    )
}

/// The lease view of a stored job row.
pub open spec fn lease_of_created(p: JobCreatePlanView) -> JobLeaseView {
    JobLeaseView {
        revision: p.revision,
        status: p.status,
        runner: p.runner,
        claim_expires_at_ms: p.claim_expires_at_ms,
    }
}

// ---------------------------------------------------------------------------------------
// Open

/// The most events one look at a job returns.
pub const MAX_OPEN_EVENTS: usize = 200;

/// A look at one job: its row, and on request its prompt, metadata and newest events.
#[derive(Debug)]
pub struct JobOpenRequest {
    pub id: String,
    pub include_prompt: bool,
    pub include_meta: bool,
    pub include_events: bool,
    pub max_events: usize,
    pub before_seq: Option<i64>,
}

/// What to read for a look at a job: the job, and when `fetch_events` is set that many of
/// its events newest first (before `before_seq` when given), one more than are returned.
#[derive(Debug)]
pub struct JobOpenPlan {
    pub job_id: String,
    pub include_prompt: bool,
    pub include_meta: bool,
    pub max_events: usize,
    pub before_seq: Option<i64>,
    pub fetch_events: Option<usize>,
}

/// The number of events returned at most: what was asked, up to 200.
pub open spec fn open_max_events(asked: usize) -> usize {
    if asked > MAX_OPEN_EVENTS {
        MAX_OPEN_EVENTS
    } else {
        asked
    }
}

/// Checks a look at a job and plans its reads.
pub fn plan_job_open(request: JobOpenRequest) -> (r: Result<JobOpenPlan, JobError>)
    ensures
        match job_id_spec(request.id@) {
            Err(m) => r matches Err(e) && e@ == JobErrorView::InvalidInput(m),
            Ok(id) => if request.before_seq matches Some(v) && v <= 0 {
                r matches Err(e) && e@ == JobErrorView::InvalidInput("before_seq must be > 0"@)
            } else {
                r matches Ok(p) && {
                    let max = open_max_events(request.max_events);
                    &&& p.job_id@ == id
                    &&& p.include_prompt == request.include_prompt
                    &&& p.include_meta == request.include_meta
                    &&& p.max_events == max
                    &&& p.before_seq == request.before_seq
                    &&& p.fetch_events == if request.include_events && max > 0 {
                        Some((max + 1) as usize)
                    } else {
                        None::<usize>
                    }
                }
            },
        },
{
    let job_id = job_id_of(request.id.as_str())?;
    let max_events = if request.max_events > MAX_OPEN_EVENTS {
        MAX_OPEN_EVENTS
    } else {
        request.max_events
    };
    match request.before_seq {
        Some(v) => {
            if v <= 0 {
                return Err(JobError::InvalidInput("before_seq must be > 0"));
            }
        },
        None => {},
    }
    let fetch_events = if request.include_events && max_events > 0 {
        Some(max_events + 1)
    } else {
        None
    };
    Ok(
        JobOpenPlan {
            job_id,
            include_prompt: request.include_prompt,
            include_meta: request.include_meta,
            max_events,
            before_seq: request.before_seq,
            fetch_events,
        },
    )
}

/// A job as one look shows it.
#[derive(Debug)]
pub struct JobOpenResult {
    pub job: JobRow,
    pub prompt: Option<String>,
    pub meta_json: Option<String>,
    pub events: Vec<JobEventRow>,
    pub has_more_events: bool,
}

/// Puts together what was read for a look at a job: `found` is the job with its prompt and
/// metadata (`None` when there is no such job), `events` what the event read gave (newest
/// first). Prompt and metadata are shown only when asked for; at most `max_events` events
/// are shown, and whether there were more is said.
pub fn job_open_result(
    plan: &JobOpenPlan,
    found: Option<(JobRow, Option<String>, Option<String>)>,
    events: Vec<JobEventRow>,
) -> (r: Result<JobOpenResult, JobError>)
    ensures
        match found {
            None => r matches Err(JobError::UnknownId),
            Some((job, prompt, meta)) => r matches Ok(o) && {
                &&& o.job == job
                &&& o.prompt == if plan.include_prompt {
                    prompt
                } else {
                    None
                }
                &&& o.meta_json == if plan.include_meta {
                    meta
                } else {
                    None
                }
                &&& if plan.fetch_events is Some {
                    &&& o.has_more_events == (events@.len() > plan.max_events)
                    &&& o.events@ == if events@.len() > plan.max_events {
                        events@.subrange(0, plan.max_events as int)
                    } else {
                        events@
                    }
                } else {
                    &&& !o.has_more_events
                    &&& o.events@.len() == 0
                }
            },
        },
{
    let (job, prompt, meta) = match found {
        None => {
            return Err(JobError::UnknownId);
        },
        Some(f) => f,
    };
    let prompt = if plan.include_prompt {
        prompt
    } else {
        None
    };
    let meta_json = if plan.include_meta {
        meta
    } else {
        None
    };
    let (events, has_more_events) = if plan.fetch_events.is_some() {
        let has_more = events.len() > plan.max_events;
        let mut kept = events;
        if has_more {
            kept.truncate(plan.max_events);
        }
        (kept, has_more)
    } else {
        (Vec::new(), false)
    };
    Ok(JobOpenResult { job, prompt, meta_json, events, has_more_events })
}

// ---------------------------------------------------------------------------------------
// Events

/// An event about to be written for a job: its fields normalized, and its references with
/// their stored JSON text.
#[derive(Debug)]
pub struct JobEventDraft {
    pub kind: String,
    pub message: String,
    pub percent: Option<i64>,
    pub refs: Vec<String>,
    pub refs_json: String,
    pub meta_json: Option<String>,
}

/// Normalizes an event before it is written.
pub fn prepare_job_event(
    kind: &str,
    message: &str,
    percent: Option<i64>,
    refs: Vec<String>,
    meta_json: Option<String>,
) -> (r: Result<JobEventDraft, JobError>)
    ensures
        match event_kind_spec(kind@) {
            Err(m) => r matches Err(e) && e@ == JobErrorView::InvalidInput(m),
            Ok(k) => match event_message_spec(message@) {
                Err(m) => r matches Err(e) && e@ == JobErrorView::InvalidInput(m),
                Ok(msg) => match event_refs_spec(strs(refs@)) {
                    Err(m) => r matches Err(e) && e@ == JobErrorView::InvalidInput(m),
                    Ok(rs) => r matches Ok(d) && {
                        &&& d.kind@ == k
                        &&& d.message@ == msg
                        &&& d.percent == percent
                        &&& strs(d.refs@) == rs
                        &&& d.refs_json@ == super::anchors::json_string_list_spec(rs)
                        &&& d.meta_json == meta_json
                    },
                },
            },
        },
{
    let kind = lift(normalize_event_kind(kind))?;
    let message = lift(normalize_event_message(message))?;
    let refs = refs_of(refs)?;
    let refs_json = super::anchors::encode_json_string_list(refs.as_slice());
    Ok(JobEventDraft { kind, message, percent, refs, refs_json, meta_json })
}

/// How an event is written: as a new event, or over the event with this sequence number.
#[derive(Clone, Copy, Debug, PartialEq, Eq, Structural)]
pub enum EventWrite {
    Insert,
    Overwrite(i64),
}

/// Heartbeats are kept low-noise: a heartbeat that follows a heartbeat replaces it (the
/// newest event of the job is `last`, its sequence number and kind); every other event is
/// added.
pub fn job_event_write(kind: &String, last: &Option<(i64, String)>) -> (r: EventWrite)
    ensures
        r == match *last {
            Some((seq, k)) => if kind@ == "heartbeat"@ && k@ == "heartbeat"@ {
                EventWrite::Overwrite(seq)
            } else {
                EventWrite::Insert
            },
            None => EventWrite::Insert,
        },
{
    match last {
        Some((seq, k)) => {
            if status_is(kind, "heartbeat") && status_is(k, "heartbeat") {
                EventWrite::Overwrite(*seq)
            } else {
                EventWrite::Insert
            }
        },
        None => EventWrite::Insert,
    }
}

// ---------------------------------------------------------------------------------------
// Laws of the lifecycle

proof fn lemma_status_names_differ()
    ensures
        "QUEUED"@ != "DONE"@,
        "QUEUED"@ != "FAILED"@,
        "QUEUED"@ != "CANCELED"@,
        "RUNNING"@ != "DONE"@,
        "RUNNING"@ != "FAILED"@,
        "RUNNING"@ != "CANCELED"@,
        "QUEUED"@ != "RUNNING"@,
{
    reveal_strlit("QUEUED");
    reveal_strlit("RUNNING");
    reveal_strlit("DONE");
    reveal_strlit("FAILED");
    reveal_strlit("CANCELED");
    assert("QUEUED"@.len() != "DONE"@.len());
    assert("QUEUED"@[0] != "FAILED"@[0]);
    assert("QUEUED"@[0] != "CANCELED"@[0]);
    assert("RUNNING"@.len() != "DONE"@.len());
    assert("RUNNING"@[0] != "FAILED"@[0]);
    assert("RUNNING"@[0] != "CANCELED"@[0]);
    assert("QUEUED"@.len() != "RUNNING"@.len());
}

/// A finished job (DONE, FAILED or CANCELED) refuses every request but a requeue: claims,
/// reports, completions, cancels and messages all fail on it, while a well-formed requeue
/// is accepted and puts it back at the next revision.
pub proof fn lemma_finished_job_only_requeues(
    c: JobLeaseView,
    claim: JobClaimRequest,
    report: JobReportRequest,
    complete: JobCompleteRequest,
    cancel: JobCancelRequest,
    message: JobMessageRequest,
    requeue: JobRequeueRequest,
    now_ms: i64,
)
    requires
        is_terminal(c.status),
        job_id_spec(requeue.id@) is Ok,
        event_refs_spec(strs(requeue.refs@)) is Ok,
    ensures
        claim_spec(
            claim.id@,
            claim.runner_id@,
            claim.lease_ttl_ms,
            claim.allow_stale,
            now_ms,
            Some(c),
        ) is Err,
        report_spec(report, now_ms, Some(c)) is Err,
        complete_spec(complete, Some(c)) is Err,
        cancel_spec(cancel, Some(c)) is Err,
        message_spec(message, Some(c.status)) is Err,
        requeue_spec(requeue, Some(c)) matches Ok(p) && p.next_revision == c.revision + 1
            || c.revision == i64::MAX,
{
    lemma_status_names_differ();
}

/// The status and lease a job has once a claim `p` is carried out.
pub open spec fn claimed_lease(p: JobClaimPlanView) -> JobLeaseView {
    JobLeaseView {
        revision: p.next_revision,
        status: "RUNNING"@,
        runner: Some(p.runner_id),
        claim_expires_at_ms: Some(p.claim_expires_at_ms),
    }
}

/// The lease a claim hands out is the one later requests are held to: once a claim is
/// carried out, a well-formed completion by the same runner at the claimed revision is
/// accepted and moves the job one revision further, while one by any other runner, or at
/// another revision, is refused as a claim mismatch.
pub proof fn lemma_claim_then_complete(
    claim: JobClaimRequest,
    now_ms: i64,
    current: JobLeaseView,
    complete: JobCompleteRequest,
)
    requires
        current.revision + 1 < i64::MAX,
        claim_spec(
            claim.id@,
            claim.runner_id@,
            claim.lease_ttl_ms,
            claim.allow_stale,
            now_ms,
            Some(current),
        ) is Ok,
        job_id_spec(complete.id@) is Ok,
        job_runner_spec(complete.runner_id@) is Ok,
        complete.claim_revision >= 0,
        job_status_spec(complete.status@) matches Ok(st) && is_terminal(st),
        event_refs_spec(strs(complete.refs@)) is Ok,
    ensures
        ({
            let p = claim_spec(
                claim.id@,
                claim.runner_id@,
                claim.lease_ttl_ms,
                claim.allow_stale,
                now_ms,
                Some(current),
            )->Ok_0;
            let same = job_runner_spec(complete.runner_id@) == Ok::<Seq<char>, Seq<char>>(
                p.runner_id,
            ) && complete.claim_revision == p.next_revision;
            &&& same ==> (complete_spec(complete, Some(claimed_lease(p))) matches Ok(q)
                && q.next_revision == current.revision + 2)
            &&& !same ==> (complete_spec(complete, Some(claimed_lease(p))) matches Err(
                JobErrorView::JobClaimMismatch { .. },
            ))
        }),
{
    lemma_status_names_differ();
    let p = claim_spec(
        claim.id@,
        claim.runner_id@,
        claim.lease_ttl_ms,
        claim.allow_stale,
        now_ms,
        Some(current),
    )->Ok_0;
    assert(p.next_revision == current.revision + 1);
    assert(!is_terminal(claimed_lease(p).status));
}

/// A new job waits in the queue: it is stored QUEUED at revision 0 without a runner, and the
/// first well-formed claim takes it, at revision 1, whether or not stale leases are allowed.
pub proof fn lemma_created_job_claimable(
    create: JobCreateRequest,
    seq: i64,
    created_at_ms: i64,
    claim: JobClaimRequest,
    now_ms: i64,
)
    requires
        create_spec(create, seq, created_at_ms) is Ok,
        job_id_spec(claim.id@) is Ok,
        job_runner_spec(claim.runner_id@) is Ok,
    ensures
        ({
            let p = create_spec(create, seq, created_at_ms)->Ok_0;
            &&& p.status == "QUEUED"@ && p.revision == 0 && p.runner is None
            &&& claim_spec(
                claim.id@,
                claim.runner_id@,
                claim.lease_ttl_ms,
                claim.allow_stale,
                now_ms,
                Some(lease_of_created(p)),
            ) matches Ok(q) && q.kind == ClaimKind::Claimed && q.next_revision == 1
        }),
{
}

} // verus!
