//! Jobs: field normalization and the choice of a job's most relevant event.

use vstd::prelude::*;

use super::anchors::{dedup_trimmed_list, string_list_spec};
use super::error::{list_result_matches, opt_result_matches, result_matches, StoreError};
use super::fields::{bounded_trimmed, bounded_trimmed_spec, clipped_trimmed, clipped_trimmed_spec};
use crate::text::{
    chars_eq_str, chars_of, has_prefix, lower_seq, starts_with_str, string_of, strs, sub_chars,
    take_chars, take_chars_string, to_ascii_lower, to_ascii_upper, trim_seq, trim_start_index,
    trim_start_seq, trim_str, upper_seq, utf8_len, utf8_len_exceeds,
};

verus! {

broadcast use vstd::string::group_string_axioms;

pub const MAX_JOB_TITLE_LEN: usize = 200;

pub const MAX_JOB_PROMPT_LEN: usize = 50_000;

pub const MAX_JOB_KIND_LEN: usize = 64;

pub const MAX_JOB_RUNNER_LEN: usize = 128;

pub const MAX_JOB_SUMMARY_LEN: usize = 128_000;

pub const MAX_EVENT_KIND_LEN: usize = 32;

pub const MAX_EVENT_MESSAGE_LEN: usize = 400;

pub const MAX_EVENT_REFS: usize = 32;

pub const MAX_EVENT_REFS_ITEM_LEN: usize = 128;

#[derive(Clone, Debug)]
pub struct JobEventRow {
    pub seq: i64,
    pub job_id: String,
    pub ts_ms: i64,
    pub kind: String,
    pub message: String,
    pub percent: Option<i64>,
    pub refs: Vec<String>,
    pub meta_json: Option<String>,
}

/// Messages the runner writes for itself: `runner:` (any case) after leading whitespace.
pub open spec fn runner_internal_spec(message: Seq<char>) -> bool {
    let t = trim_start_seq(message);
    t.len() >= 7 && lower_seq(t.take(7)) == "runner:"@
}

pub fn is_runner_internal_message(message: &str) -> (r: bool)
    ensures
        r == runner_internal_spec(message@),
{
    let v = chars_of(message);
    let i = trim_start_index(v.as_slice());
    let t = sub_chars(v.as_slice(), i, v.len());
    if t.len() < 7 {
        return false;
    }
    let head = sub_chars(t.as_slice(), 0, 7);
    assert(head@ =~= t@.take(7));
    let lowered = to_ascii_lower(head.as_slice());
    chars_eq_str(lowered.as_slice(), "runner:")
}

/// What an event is searched for.
pub enum EventPred {
    KindIs(&'static str),
    ManagerWithRefs,
    Meaningful,
    NotHeartbeat,
}

pub open spec fn pred_holds(p: EventPred, e: JobEventRow) -> bool {
    match p {
        EventPred::KindIs(k) => e.kind@ == k@,
        EventPred::ManagerWithRefs => e.kind@ == "manager"@ && e.refs@.len() > 0,
        EventPred::Meaningful => e.kind@ != "heartbeat"@ && !runner_internal_spec(e.message@),
        EventPred::NotHeartbeat => e.kind@ != "heartbeat"@,
    }
}

/// The position of the first (newest) event that satisfies `p`.
pub open spec fn first_where(evs: Seq<JobEventRow>, p: EventPred) -> Option<int>
    decreases evs.len(),
{
    if evs.len() == 0 {
        None
    } else if pred_holds(p, evs[0]) {
        Some(0)
    } else {
        match first_where(evs.drop_first(), p) {
            None => None,
            Some(i) => Some(i + 1),
        }
    }
}

/// The sequence number of the first event that satisfies `p`, or 0.
pub open spec fn seq_where(evs: Seq<JobEventRow>, p: EventPred) -> i64 {
    match first_where(evs, p) {
        Some(i) => evs[i].seq,
        None => 0,
    }
}

/// Which event the supervision view shows for a job: an outstanding question, then an
/// outstanding proof gate, then an error newer than the last checkpoint, else the newest
/// event that is not a heartbeat or a runner-internal message (falling back to the newest
/// non-heartbeat, then to the newest event).
pub open spec fn pick_index_spec(evs: Seq<JobEventRow>) -> Option<int> {
    let cp = seq_where(evs, EventPred::KindIs("checkpoint"));
    let mgr = seq_where(evs, EventPred::KindIs("manager"));
    let mgr_proof = seq_where(evs, EventPred::ManagerWithRefs);
    let q = seq_where(evs, EventPred::KindIs("question"));
    let err = seq_where(evs, EventPred::KindIs("error"));
    let pg = seq_where(evs, EventPred::KindIs("proof_gate"));
    let gate_base = if cp >= mgr_proof {
        cp
    } else {
        mgr_proof
    };
    if q > mgr {
        first_where(evs, EventPred::KindIs("question"))
    } else if pg > gate_base {
        first_where(evs, EventPred::KindIs("proof_gate"))
    } else if err > cp {
        first_where(evs, EventPred::KindIs("error"))
    } else {
        match first_where(evs, EventPred::Meaningful) {
            Some(i) => Some(i),
            None => match first_where(evs, EventPred::NotHeartbeat) {
                Some(i) => Some(i),
                None => if evs.len() > 0 {
                    Some(0)
                } else {
                    None
                },
            },
        }
    }
}

pub proof fn lemma_first_where_bounds(evs: Seq<JobEventRow>, p: EventPred)
    ensures
        match first_where(evs, p) {
            Some(i) => 0 <= i < evs.len() && pred_holds(p, evs[i]) && forall|j: int|
                0 <= j < i ==> !pred_holds(p, #[trigger] evs[j]),
            None => forall|j: int| 0 <= j < evs.len() ==> !pred_holds(p, #[trigger] evs[j]),
        },
    decreases evs.len(),
{
    if evs.len() > 0 {
        lemma_first_where_bounds(evs.drop_first(), p);
        if !pred_holds(p, evs[0]) {
            match first_where(evs.drop_first(), p) {
                Some(i) => {
                    assert forall|j: int| 0 <= j < i + 1 implies !pred_holds(p, #[trigger] evs[j]) by {
                        if j > 0 {
                            assert(evs[j] == evs.drop_first()[j - 1]);
                        }
                    }
                },
                None => {
                    assert forall|j: int| 0 <= j < evs.len() implies !pred_holds(p, #[trigger] evs[j]) by {
                        if j > 0 {
                            assert(evs[j] == evs.drop_first()[j - 1]);
                        }
                    }
                },
            }
        }
    }
}

fn pred_check(p: &EventPred, e: &JobEventRow) -> (r: bool)
    ensures
        r == pred_holds(*p, *e),
{
    let kind = chars_of(e.kind.as_str());
    match p {
        EventPred::KindIs(k) => chars_eq_str(kind.as_slice(), k),
        EventPred::ManagerWithRefs => chars_eq_str(kind.as_slice(), "manager") && e.refs.len() > 0,
        EventPred::Meaningful => !chars_eq_str(kind.as_slice(), "heartbeat")
            && !is_runner_internal_message(e.message.as_str()),
        EventPred::NotHeartbeat => !chars_eq_str(kind.as_slice(), "heartbeat"),
    }
}

/// The position of the first event that satisfies `p`.
pub fn find_first(evs: &[JobEventRow], p: EventPred) -> (r: Option<usize>)
    ensures
        match r {
            None => first_where(evs@, p) is None,
            Some(i) => first_where(evs@, p) == Some(i as int) && i < evs@.len(),
        },
{
    proof {
        lemma_first_where_bounds(evs@, p);
    }
    let mut i: usize = 0;
    while i < evs.len()
        invariant
            i <= evs@.len(),
            forall|j: int| 0 <= j < i ==> !pred_holds(p, #[trigger] evs@[j]),
        decreases evs@.len() - i,
    {
        if pred_check(&p, &evs[i]) {
            proof {
                lemma_first_where_bounds(evs@, p);
                lemma_first_where_unique(evs@, p, i as int);
            }
            return Some(i);
        }
        i = i + 1;
    }
    proof {
        lemma_first_where_bounds(evs@, p);
        if first_where(evs@, p) is Some {
            let k = first_where(evs@, p)->0;
            assert(pred_holds(p, evs@[k]));
        }
    }
    None
}

proof fn lemma_first_where_unique(evs: Seq<JobEventRow>, p: EventPred, i: int)
    requires
        0 <= i < evs.len(),
        pred_holds(p, evs[i]),
        forall|j: int| 0 <= j < i ==> !pred_holds(p, #[trigger] evs[j]),
    ensures
        first_where(evs, p) == Some(i),
{
    lemma_first_where_bounds(evs, p);
    match first_where(evs, p) {
        Some(k) => {
            if k < i {
                assert(!pred_holds(p, evs[k]));
            } else if k > i {
                assert(!pred_holds(p, evs[i]));
            }
        },
        None => {
            assert(!pred_holds(p, evs[i]));
        },
    }
}

fn seq_of_first(evs: &[JobEventRow], p: EventPred) -> (r: i64)
    ensures
        r == seq_where(evs@, p),
{
    match find_first(evs, p) {
        Some(i) => evs[i].seq,
        None => 0,
    }
}

/// A field-by-field copy of an event.
pub fn copy_event(e: &JobEventRow) -> (r: JobEventRow)
    ensures
        r.seq == e.seq,
        r.job_id@ == e.job_id@,
        r.ts_ms == e.ts_ms,
        r.kind@ == e.kind@,
        r.message@ == e.message@,
        r.percent == e.percent,
        strs(r.refs@) == strs(e.refs@),
        crate::graph::opt_view(r.meta_json) == crate::graph::opt_view(e.meta_json),
{
    let mut refs: Vec<String> = Vec::new();
    let mut i: usize = 0;
    while i < e.refs.len()
        invariant
            i <= e.refs@.len(),
            strs(refs@) == strs(e.refs@).take(i as int),
        decreases e.refs@.len() - i,
    {
        let ghost before = strs(refs@);
        refs.push(e.refs[i].clone());
        assert(strs(refs@) =~= before.push(e.refs@[i as int]@));
        i = i + 1;
        assert(strs(refs@) =~= strs(e.refs@).take(i as int));
    }
    assert(strs(e.refs@).take(e.refs@.len() as int) =~= strs(e.refs@));
    JobEventRow {
        seq: e.seq,
        job_id: e.job_id.clone(),
        ts_ms: e.ts_ms,
        kind: e.kind.clone(),
        message: e.message.clone(),
        percent: e.percent,
        refs,
        meta_json: match &e.meta_json {
            None => None,
            Some(m) => Some(m.clone()),
        },
    }
}

/// The two events hold the same values.
pub open spec fn same_event(a: JobEventRow, b: JobEventRow) -> bool {
    &&& a.seq == b.seq
    &&& a.job_id@ == b.job_id@
    &&& a.ts_ms == b.ts_ms
    &&& a.kind@ == b.kind@
    &&& a.message@ == b.message@
    &&& a.percent == b.percent
    &&& strs(a.refs@) == strs(b.refs@)
    &&& crate::graph::opt_view(a.meta_json) == crate::graph::opt_view(b.meta_json)
}

/// The event to show for a job, given its events newest first.
pub fn pick_last_meaningful_job_event(events_newest_first: &[JobEventRow]) -> (r: Option<JobEventRow>)
    ensures
        match r {
            None => pick_index_spec(events_newest_first@) is None,
            Some(e) => pick_index_spec(events_newest_first@) is Some && same_event(
                e,
                events_newest_first@[pick_index_spec(events_newest_first@)->0],
            ),
        },
{
    let evs = events_newest_first;
    let cp = seq_of_first(evs, EventPred::KindIs("checkpoint"));
    let mgr = seq_of_first(evs, EventPred::KindIs("manager"));
    let mgr_proof = seq_of_first(evs, EventPred::ManagerWithRefs);
    let q = seq_of_first(evs, EventPred::KindIs("question"));
    let err = seq_of_first(evs, EventPred::KindIs("error"));
    let pg = seq_of_first(evs, EventPred::KindIs("proof_gate"));
    let gate_base = if cp >= mgr_proof {
        cp
    } else {
        mgr_proof
    };
    let idx = if q > mgr {
        find_first(evs, EventPred::KindIs("question"))
    } else if pg > gate_base {
        find_first(evs, EventPred::KindIs("proof_gate"))
    } else if err > cp {
        find_first(evs, EventPred::KindIs("error"))
    } else {
        match find_first(evs, EventPred::Meaningful) {
            Some(i) => Some(i),
            None => match find_first(evs, EventPred::NotHeartbeat) {
                Some(i) => Some(i),
                None => if evs.len() > 0 {
                    Some(0)
                } else {
                    None
                },
            },
        }
    };
    proof {
        lemma_first_where_bounds(evs@, EventPred::KindIs("question"));
        lemma_first_where_bounds(evs@, EventPred::KindIs("proof_gate"));
        lemma_first_where_bounds(evs@, EventPred::KindIs("error"));
        lemma_first_where_bounds(evs@, EventPred::Meaningful);
        lemma_first_where_bounds(evs@, EventPred::NotHeartbeat);
    }
    match idx {
        None => None,
        Some(i) => Some(copy_event(&evs[i])),
    }
}

/// A job id: `JOB-` followed (after any further `JOB-` prefixes) by at least three ASCII
/// digits.
pub open spec fn strip_all_prefix(s: Seq<char>, p: Seq<char>) -> Seq<char>
    decreases s.len(),
{
    if p.len() > 0 && has_prefix(s, p) {
        strip_all_prefix(s.skip(p.len() as int), p)
    } else {
        s
    }
}

pub open spec fn job_id_spec(raw: Seq<char>) -> Result<Seq<char>, Seq<char>> {
    let t = trim_seq(raw);
    let digits = strip_all_prefix(t, "JOB-"@);
    if t.len() == 0 {
        Err("job id must not be empty"@)
    } else if !has_prefix(t, "JOB-"@) {
        Err("job id must start with JOB-"@)
    } else if utf8_len(digits) < 3 {
        Err("job id must have at least 3 digits"@)
    } else if !crate::num::all_digits(digits) {
        Err("job id digits must be [0-9]"@)
    } else {
        Ok(t)
    }
}

fn strip_all_job_prefix(v: &[char]) -> (r: Vec<char>)
    ensures
        r@ == strip_all_prefix(v@, "JOB-"@),
{
    proof {
        reveal_strlit("JOB-");
    }
    let mut i: usize = 0;
    assert(v@.skip(0) =~= v@);
    loop
        invariant
            i <= v@.len(),
            strip_all_prefix(v@, "JOB-"@) == strip_all_prefix(v@.skip(i as int), "JOB-"@),
        decreases v@.len() - i,
    {
        let rest = sub_chars(v, i, v.len());
        assert(rest@ =~= v@.skip(i as int));
        if !starts_with_str(rest.as_slice(), "JOB-") {
            return rest;
        }
        proof {
            reveal_strlit("JOB-");
        }
        assert(v@.skip(i as int).skip(4) =~= v@.skip(i + 4));
        i = i + 4;
    }
}

#[verifier::loop_isolation(false)]
pub fn normalize_job_id(raw: &str) -> (r: Result<String, StoreError>)
    ensures
        result_matches(r, job_id_spec(raw@)),
{
    let t = trim_str(raw);
    if t.len() == 0 {
        return Err(StoreError::InvalidInput("job id must not be empty"));
    }
    if !starts_with_str(t.as_slice(), "JOB-") {
        return Err(StoreError::InvalidInput("job id must start with JOB-"));
    }
    let digits = strip_all_job_prefix(t.as_slice());
    if !utf8_len_exceeds(digits.as_slice(), 2) {
        return Err(StoreError::InvalidInput("job id must have at least 3 digits"));
    }
    let mut i: usize = 0;
    while i < digits.len()
        invariant
            i <= digits@.len(),
            forall|k: int| 0 <= k < i ==> '0' <= #[trigger] digits@[k] <= '9',
        decreases digits@.len() - i,
    {
        let c = digits[i];
        if !('0' <= c && c <= '9') {
            assert(!crate::num::all_digits(digits@));
            return Err(StoreError::InvalidInput("job id digits must be [0-9]"));
        }
        i = i + 1;
    }
    Ok(string_of(t.as_slice()))
}

/// A job status: one of five, trimmed and uppercased.
pub open spec fn job_status_spec(raw: Seq<char>) -> Result<Seq<char>, Seq<char>> {
    let t = trim_seq(raw);
    let s = upper_seq(t);
    if t.len() == 0 {
        Err("job.status must not be empty"@)
    } else if s == "QUEUED"@ || s == "RUNNING"@ || s == "DONE"@ || s == "FAILED"@ || s == "CANCELED"@ {
        Ok(s)
    } else {
        Err("job.status is invalid"@)
    }
}

pub fn normalize_job_status(raw: &str) -> (r: Result<String, StoreError>)
    ensures
        result_matches(r, job_status_spec(raw@)),
{
    let t = trim_str(raw);
    if t.len() == 0 {
        return Err(StoreError::InvalidInput("job.status must not be empty"));
    }
    let s = to_ascii_upper(t.as_slice());
    let ss = s.as_slice();
    if chars_eq_str(ss, "QUEUED") || chars_eq_str(ss, "RUNNING") || chars_eq_str(ss, "DONE")
        || chars_eq_str(ss, "FAILED") || chars_eq_str(ss, "CANCELED") {
        Ok(string_of(ss))
    } else {
        Err(StoreError::InvalidInput("job.status is invalid"))
    }
}

/// A job priority: LOW, MEDIUM or HIGH, trimmed and uppercased, with NORMAL read as MEDIUM.
pub open spec fn job_priority_spec(raw: Seq<char>) -> Result<Seq<char>, Seq<char>> {
    let t = trim_seq(raw);
    let u = upper_seq(t);
    let p = if u == "NORMAL"@ {
        "MEDIUM"@
    } else {
        u
    };
    if t.len() == 0 {
        Err("job.priority must not be empty"@)
    } else if p == "LOW"@ || p == "MEDIUM"@ || p == "HIGH"@ {
        Ok(p)
    } else {
        Err("job.priority is invalid (expected LOW|MEDIUM|HIGH; synonym: normal->MEDIUM)"@)
    }
}

pub fn normalize_job_priority(raw: &str) -> (r: Result<String, StoreError>)
    ensures
        result_matches(r, job_priority_spec(raw@)),
{
    let t = trim_str(raw);
    if t.len() == 0 {
        return Err(StoreError::InvalidInput("job.priority must not be empty"));
    }
    let mut p = to_ascii_upper(t.as_slice());
    if chars_eq_str(p.as_slice(), "NORMAL") {
        p = chars_of("MEDIUM");
    }
    let ps = p.as_slice();
    if chars_eq_str(ps, "LOW") || chars_eq_str(ps, "MEDIUM") || chars_eq_str(ps, "HIGH") {
        Ok(string_of(ps))
    } else {
        Err(
            StoreError::InvalidInput(
                "job.priority is invalid (expected LOW|MEDIUM|HIGH; synonym: normal->MEDIUM)",
            ),
        )
    }
}

pub fn normalize_job_kind(raw: &str) -> (r: Result<String, StoreError>)
    ensures
        result_matches(
            r,
            bounded_trimmed_spec(
                raw@,
                MAX_JOB_KIND_LEN as nat,
                "job.kind must not be empty"@,
                "job.kind is too long"@,
            ),
        ),
{
    bounded_trimmed(raw, MAX_JOB_KIND_LEN, "job.kind must not be empty", "job.kind is too long")
}

pub fn normalize_job_title(raw: &str) -> (r: Result<String, StoreError>)
    ensures
        result_matches(
            r,
            clipped_trimmed_spec(raw@, MAX_JOB_TITLE_LEN as nat, "job.title must not be empty"@),
        ),
{
    clipped_trimmed(raw, MAX_JOB_TITLE_LEN, "job.title must not be empty")
}

pub fn normalize_job_prompt(raw: &str) -> (r: Result<String, StoreError>)
    ensures
        result_matches(
            r,
            clipped_trimmed_spec(raw@, MAX_JOB_PROMPT_LEN as nat, "job.prompt must not be empty"@),
        ),
{
    clipped_trimmed(raw, MAX_JOB_PROMPT_LEN, "job.prompt must not be empty")
}

pub fn normalize_job_runner_id(raw: &str) -> (r: Result<String, StoreError>)
    ensures
        result_matches(
            r,
            bounded_trimmed_spec(
                raw@,
                MAX_JOB_RUNNER_LEN as nat,
                "runner_id must not be empty"@,
                "runner_id is too long"@,
            ),
        ),
{
    bounded_trimmed(raw, MAX_JOB_RUNNER_LEN, "runner_id must not be empty", "runner_id is too long")
}

/// A job summary: absent when missing or blank, else trimmed and cut to 128000 characters.
pub open spec fn job_summary_spec(raw: Option<Seq<char>>) -> Option<Seq<char>> {
    match raw {
        None => None,
        Some(r) => {
            let t = trim_seq(r);
            if t.len() == 0 {
                None
            } else {
                Some(take_chars(t, MAX_JOB_SUMMARY_LEN as nat))
            }
        },
    }
}

pub fn normalize_job_summary(raw: Option<String>) -> (r: Result<Option<String>, StoreError>)
    ensures
        opt_result_matches(
            r,
            Ok(
                job_summary_spec(
                    match raw {
                        None => None,
                        Some(s) => Some(s@),
                    },
                ),
            ),
        ),
{
    let raw = match raw {
        None => {
            return Ok(None);
        },
        Some(r) => r,
    };
    let t = trim_str(raw.as_str());
    if t.len() == 0 {
        return Ok(None);
    }
    Ok(Some(take_chars_string(t.as_slice(), MAX_JOB_SUMMARY_LEN)))
}

pub fn normalize_event_kind(raw: &str) -> (r: Result<String, StoreError>)
    ensures
        result_matches(
            r,
            bounded_trimmed_spec(
                raw@,
                MAX_EVENT_KIND_LEN as nat,
                "job_event.kind must not be empty"@,
                "job_event.kind is too long"@,
            ),
        ),
{
    bounded_trimmed(
        raw,
        MAX_EVENT_KIND_LEN,
        "job_event.kind must not be empty",
        "job_event.kind is too long",
    )
}

pub fn normalize_event_message(raw: &str) -> (r: Result<String, StoreError>)
    ensures
        result_matches(
            r,
            clipped_trimmed_spec(
                raw@,
                MAX_EVENT_MESSAGE_LEN as nat,
                "job_event.message must not be empty"@,
            ),
        ),
{
    clipped_trimmed(raw, MAX_EVENT_MESSAGE_LEN, "job_event.message must not be empty")
}

pub fn normalize_event_refs(refs: Vec<String>) -> (r: Result<Vec<String>, StoreError>)
    ensures
        list_result_matches(
            r,
            if refs@.len() > MAX_EVENT_REFS {
                Err("job_event.refs exceeds max items"@)
            } else {
                string_list_spec(
                    strs(refs@),
                    MAX_EVENT_REFS_ITEM_LEN as nat,
                    "job_event.refs item too long"@,
                )
            },
        ),
{
    if refs.len() > MAX_EVENT_REFS {
        return Err(StoreError::InvalidInput("job_event.refs exceeds max items"));
    }
    dedup_trimmed_list(&refs, MAX_EVENT_REFS_ITEM_LEN, "job_event.refs item too long")
}

} // verus!
