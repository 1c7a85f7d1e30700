//! Runner leases: runner ids, statuses and the job a runner reports as active.

use vstd::prelude::*;

use super::error::{opt_result_matches, result_matches, StoreError};
use super::fields::{bounded_trimmed, bounded_trimmed_spec};
use crate::text::{
    chars_eq_str, chars_of, has_prefix, lower_seq, starts_with_str, string_of, to_ascii_lower, trim_seq,
    trim_str, utf8_len, utf8_len_exceeds,
};

verus! {

broadcast use vstd::string::group_string_axioms;

pub const MAX_RUNNER_ID_LEN: usize = 256;

pub const MAX_RUNNER_STATUS_LEN: usize = 16;

pub const MAX_ACTIVE_JOB_ID_LEN: usize = 64;

pub fn normalize_runner_id(raw: &str) -> (r: Result<String, StoreError>)
    ensures
        result_matches(
            r,
            bounded_trimmed_spec(
                raw@,
                MAX_RUNNER_ID_LEN as nat,
                "runner_id must not be empty"@,
                "runner_id is too long"@,
            ),
        ),
{
    bounded_trimmed(raw, MAX_RUNNER_ID_LEN, "runner_id must not be empty", "runner_id is too long")
}

/// A runner status: `idle` or `live`, trimmed and lowercased, at most 16 bytes.
pub open spec fn runner_status_spec(raw: Seq<char>) -> Result<Seq<char>, Seq<char>> {
    let t = trim_seq(raw);
    let l = lower_seq(t);
    if t.len() == 0 {
        Err("runner.status must not be empty"@)
    } else if utf8_len(t) > MAX_RUNNER_STATUS_LEN {
        Err("runner.status is too long"@)
    } else if l == "idle"@ || l == "live"@ {
        Ok(l)
    } else {
        Err("runner.status is invalid (expected idle|live)"@)
    }
}

pub fn normalize_runner_status(raw: &str) -> (r: Result<String, StoreError>)
    ensures
        result_matches(r, runner_status_spec(raw@)),
{
    let t = trim_str(raw);
    if t.len() == 0 {
        return Err(StoreError::InvalidInput("runner.status must not be empty"));
    }
    if utf8_len_exceeds(t.as_slice(), MAX_RUNNER_STATUS_LEN) {
        return Err(StoreError::InvalidInput("runner.status is too long"));
    }
    let l = to_ascii_lower(t.as_slice());
    if !(chars_eq_str(l.as_slice(), "idle") || chars_eq_str(l.as_slice(), "live")) {
        return Err(StoreError::InvalidInput("runner.status is invalid (expected idle|live)"));
    }
    Ok(string_of(l.as_slice()))
}

/// A status filter: none when missing or blank, else a valid status.
pub open spec fn runner_status_filter_spec(raw: Option<Seq<char>>) -> Result<Option<Seq<char>>, Seq<char>> {
    match raw {
        None => Ok(None),
        Some(r) => {
            let t = trim_seq(r);
            if t.len() == 0 {
                Ok(None)
            } else {
                match runner_status_spec(t) {
                    Ok(s) => Ok(Some(s)),
                    Err(e) => Err(e),
                }
            }
        },
    }
}

pub fn normalize_runner_status_filter(raw: Option<String>) -> (r: Result<Option<String>, StoreError>)
    ensures
        opt_result_matches(
            r,
            runner_status_filter_spec(
                match raw {
                    None => None,
                    Some(s) => Some(s@),
                },
            ),
        ),
{
    let raw = match raw {
        None => {
            return Ok(None);
        },
        Some(r) => r,
    };
    let t = trim_str(raw.as_str());
    if t.len() == 0 {
        return Ok(None);
    }
    let ts = string_of(t.as_slice());
    match normalize_runner_status(ts.as_str()) {
        Ok(s) => Ok(Some(s)),
        Err(e) => Err(e),
    }
}

/// The active job of a runner: none when missing or blank, else the trimmed id, which must
/// start with `JOB-` and be at most 64 bytes.
pub open spec fn active_job_id_spec(raw: Option<Seq<char>>) -> Result<Option<Seq<char>>, Seq<char>> {
    match raw {
        None => Ok(None),
        Some(r) => {
            let t = trim_seq(r);
            if t.len() == 0 {
                Ok(None)
            } else if utf8_len(t) > MAX_ACTIVE_JOB_ID_LEN {
                Err("runner.active_job_id is too long"@)
            } else if !has_prefix(t, "JOB-"@) {
                Err("runner.active_job_id must start with JOB-"@)
            } else {
                Ok(Some(t))
            }
        },
    }
}

pub fn normalize_active_job_id(raw: Option<String>) -> (r: Result<Option<String>, StoreError>)
    ensures
        opt_result_matches(
            r,
            active_job_id_spec(
                match raw {
                    None => None,
                    Some(s) => Some(s@),
                },
            ),
        ),
{
    let raw = match raw {
        None => {
            return Ok(None);
        },
        Some(r) => r,
    };
    let t = trim_str(raw.as_str());
    if t.len() == 0 {
        return Ok(None);
    }
    if utf8_len_exceeds(t.as_slice(), MAX_ACTIVE_JOB_ID_LEN) {
        return Err(StoreError::InvalidInput("runner.active_job_id is too long"));
    }
    if !starts_with_str(t.as_slice(), "JOB-") {
        return Err(StoreError::InvalidInput("runner.active_job_id must start with JOB-"));
    }
    Ok(Some(string_of(t.as_slice())))
}

/// The shortest lease a runner is granted, in milliseconds.
pub const MIN_LEASE_TTL_MS: u64 = 1_000;

/// The longest lease a runner is granted, in milliseconds.
pub const MAX_LEASE_TTL_MS: u64 = 300_000;

/// A runner's lease, as stored.
#[derive(Clone, Debug)]
pub struct RunnerLeaseRow {
    pub runner_id: String,
    pub status: String,
    pub active_job_id: Option<String>,
    pub lease_expires_at_ms: i64,
    pub created_at_ms: i64,
    pub updated_at_ms: i64,
}

/// A runner reporting in.
#[derive(Clone, Debug)]
pub struct RunnerLeaseUpsertRequest {
    pub runner_id: String,
    pub status: String,
    pub active_job_id: Option<String>,
    pub lease_ttl_ms: u64,
    pub meta_json: Option<String>,
}

pub open spec fn lease_ttl_spec(ttl_ms: u64) -> u64 {
    if ttl_ms < MIN_LEASE_TTL_MS {
        MIN_LEASE_TTL_MS
    } else if ttl_ms > MAX_LEASE_TTL_MS {
        MAX_LEASE_TTL_MS
    } else {
        ttl_ms
    }
}

/// The lease row written when a runner reports in at `now_ms`: its fields normalized, the
/// lease renewed for the asked time (held between one second and five minutes), and the
/// creation time of an existing lease (`existing_created_at_ms`) kept.
pub fn plan_runner_lease(
    request: &RunnerLeaseUpsertRequest,
    now_ms: i64,
    existing_created_at_ms: Option<i64>,
) -> (r: Result<RunnerLeaseRow, StoreError>)
    ensures
        match bounded_trimmed_spec(
            request.runner_id@,
            MAX_RUNNER_ID_LEN as nat,
            "runner_id must not be empty"@,
            "runner_id is too long"@,
        ) {
            Err(m) => r matches Err(StoreError::InvalidInput(x)) && x@ == m,
            Ok(id) => match runner_status_spec(request.status@) {
                Err(m) => r matches Err(StoreError::InvalidInput(x)) && x@ == m,
                Ok(status) => match active_job_id_spec(crate::graph::opt_view(request.active_job_id)) {
                    Err(m) => r matches Err(StoreError::InvalidInput(x)) && x@ == m,
                    Ok(active) => r matches Ok(row) && {
                        &&& row.runner_id@ == id
                        &&& row.status@ == status
                        &&& crate::graph::opt_view(row.active_job_id) == active
                        &&& row.lease_expires_at_ms == crate::store::job_lifecycle::lease_expiry_spec(
                            now_ms,
                            lease_ttl_spec(request.lease_ttl_ms),
                        )
                        &&& row.created_at_ms == match existing_created_at_ms {
                            Some(t) => t,
                            None => now_ms,
                        }
                        &&& row.updated_at_ms == now_ms
                    },
                },
            },
        },
{
    let runner_id = normalize_runner_id(request.runner_id.as_str())?;
    let status = normalize_runner_status(request.status.as_str())?;
    let active_job_id = normalize_active_job_id(request.active_job_id.clone())?;
    let ttl = if request.lease_ttl_ms < MIN_LEASE_TTL_MS {
        MIN_LEASE_TTL_MS
    } else if request.lease_ttl_ms > MAX_LEASE_TTL_MS {
        MAX_LEASE_TTL_MS
    } else {
        request.lease_ttl_ms
    };
    let lease_expires_at_ms = crate::store::job_lifecycle::lease_expiry(now_ms, ttl);
    let created_at_ms = match existing_created_at_ms {
        Some(t) => t,
        None => now_ms,
    };
    Ok(
        RunnerLeaseRow {
            runner_id,
            status,
            active_job_id,
            lease_expires_at_ms,
            created_at_ms,
            updated_at_ms: now_ms,
        },
    )
}

/// How many of the leases have status `status`.
pub open spec fn count_with_status(rows: Seq<RunnerLeaseRow>, status: Seq<char>) -> nat
    decreases rows.len(),
{
    if rows.len() == 0 {
        0
    } else {
        count_with_status(rows.drop_last(), status) + if rows.last().status@ == status {
            1nat
        } else {
            0nat
        }
    }
}

/// The first lease with status `status`, if any.
pub open spec fn first_with_status(rows: Seq<RunnerLeaseRow>, status: Seq<char>) -> Option<RunnerLeaseRow>
    decreases rows.len(),
{
    if rows.len() == 0 {
        None
    } else if rows[0].status@ == status {
        Some(rows[0])
    } else {
        first_with_status(rows.drop_first(), status)
    }
}

/// The runners of a workspace in one line.
#[derive(Clone, Debug)]
pub struct RunnerStatusSnapshot {
    pub status: String,
    pub live_count: usize,
    pub idle_count: usize,
    pub offline_count: usize,
    pub runner_id: Option<String>,
    pub active_job_id: Option<String>,
    pub lease_expires_at_ms: Option<i64>,
}

proof fn lemma_count_bound(rows: Seq<RunnerLeaseRow>, status: Seq<char>)
    ensures
        count_with_status(rows, status) <= rows.len(),
    decreases rows.len(),
{
    if rows.len() > 0 {
        lemma_count_bound(rows.drop_last(), status);
    }
}

/// The runners' status from the leases that have not run out (`rows`, in the order the
/// listing gives: latest expiry first) and the number that have: `live` when a live runner
/// is left, else `idle` when an idle one is, else `offline`; the runner shown is the first of
/// that status.
pub fn runner_status_summary(rows: &[RunnerLeaseRow], offline_count: usize) -> (r: RunnerStatusSnapshot)
    ensures
        r.live_count == count_with_status(rows@, "live"@),
        r.idle_count == count_with_status(rows@, "idle"@),
        r.offline_count == offline_count,
        ({
            let chosen = if r.live_count > 0 {
                first_with_status(rows@, "live"@)
            } else if r.idle_count > 0 {
                first_with_status(rows@, "idle"@)
            } else {
                None
            };
            &&& r.status@ == if r.live_count > 0 {
                "live"@
            } else if r.idle_count > 0 {
                "idle"@
            } else {
                "offline"@
            }
            &&& crate::graph::opt_view(r.runner_id) == match chosen {
                Some(c) => Some(c.runner_id@),
                None => None,
            }
            &&& crate::graph::opt_view(r.active_job_id) == match chosen {
                Some(c) => crate::graph::opt_view(c.active_job_id),
                None => None,
            }
            &&& r.lease_expires_at_ms == match chosen {
                Some(c) => Some(c.lease_expires_at_ms),
                None => None::<i64>,
            }
        }),
{
    let mut live: usize = 0;
    let mut idle: usize = 0;
    let mut first_live: Option<usize> = None;
    let mut first_idle: Option<usize> = None;
    let mut i: usize = 0;
    assert(rows@.skip(0) =~= rows@);
    assert(rows@.take(0) =~= Seq::<RunnerLeaseRow>::empty());
    while i < rows.len()
        invariant
            i <= rows@.len(),
            live == count_with_status(rows@.take(i as int), "live"@),
            idle == count_with_status(rows@.take(i as int), "idle"@),
            live <= i,
            idle <= i,
            first_live matches Some(k) ==> k < i && first_with_status(rows@, "live"@) == Some(
                rows@[k as int],
            ),
            first_live is None ==> first_with_status(rows@, "live"@) == first_with_status(
                rows@.skip(i as int),
                "live"@,
            ) && live == 0,
            first_idle matches Some(k) ==> k < i && first_with_status(rows@, "idle"@) == Some(
                rows@[k as int],
            ),
            first_idle is None ==> first_with_status(rows@, "idle"@) == first_with_status(
                rows@.skip(i as int),
                "idle"@,
            ) && idle == 0,
        decreases rows@.len() - i,
    {
        proof {
            assert(rows@.take(i + 1).drop_last() =~= rows@.take(i as int));
            assert(rows@.skip(i as int).drop_first() =~= rows@.skip(i + 1));
            assert(rows@.skip(i as int)[0] == rows@[i as int]);
            lemma_count_bound(rows@.take(i as int), "live"@);
            lemma_count_bound(rows@.take(i as int), "idle"@);
        }
        let st = chars_of(rows[i].status.as_str());
        if chars_eq_str(st.as_slice(), "live") {
            live = live + 1;
            if first_live.is_none() {
                first_live = Some(i);
            }
        }
        if chars_eq_str(st.as_slice(), "idle") {
            idle = idle + 1;
            if first_idle.is_none() {
                first_idle = Some(i);
            }
        }
        i = i + 1;
    }
    proof {
        assert(rows@.take(rows@.len() as int) =~= rows@);
    }
    let chosen: Option<usize> = if live > 0 {
        first_live
    } else if idle > 0 {
        first_idle
    } else {
        None
    };
    let status = if live > 0 {
        "live"
    } else if idle > 0 {
        "idle"
    } else {
        "offline"
    };
    let (runner_id, active_job_id, lease_expires_at_ms) = match chosen {
        Some(k) => (
            Some(string_of(chars_of(rows[k].runner_id.as_str()).as_slice())),
            match &rows[k].active_job_id {
                Some(a) => Some(string_of(chars_of(a.as_str()).as_slice())),
                None => None,
            },
            Some(rows[k].lease_expires_at_ms),
        ),
        None => (None, None, None),
    };
    RunnerStatusSnapshot {
        status: string_of(chars_of(status).as_slice()),
        live_count: live,
        idle_count: idle,
        offline_count,
        runner_id,
        active_job_id,
        lease_expires_at_ms,
    }
}

} // verus!
