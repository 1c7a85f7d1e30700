//! The jobs radar: which active jobs need attention, listed most urgent first.

use vstd::multiset::Multiset;
use vstd::prelude::*;

use super::jobs::{
    find_first, first_where, pick_index_spec, pick_last_meaningful_job_event, same_event, EventPred,
    JobEventRow,
};
use crate::text::{chars_eq, chars_eq_str, chars_of, lemma_lex_irreflexive, lemma_lex_total, lemma_lex_transitive, lex_less, lex_lt};

verus! {

broadcast use vstd::string::group_string_axioms;

/// The most rows one radar call returns.
pub const MAX_RADAR_LIMIT: usize = 200;

/// How many of a job's newest events the radar reads.
pub const MAX_RADAR_SCAN_EVENTS: usize = 20;

/// A job as listed.
#[derive(Debug)]
pub struct JobRow {
    pub id: String,
    pub revision: i64,
    pub status: String,
    pub title: String,
    pub kind: String,
    pub priority: String,
    pub task_id: Option<String>,
    pub anchor_id: Option<String>,
    pub runner: Option<String>,
    pub claim_expires_at_ms: Option<i64>,
    pub summary: Option<String>,
    pub created_at_ms: i64,
    pub updated_at_ms: i64,
    pub completed_at_ms: Option<i64>,
}

/// A job with what its recent events say: the event to show, and the sequence numbers of
/// the newest question, manager reply (and one with references), error, proof gate and
/// checkpoint.
#[derive(Debug)]
pub struct JobRadarRow {
    pub job: JobRow,
    pub last_event: Option<JobEventRow>,
    pub last_question_seq: Option<i64>,
    pub last_manager_seq: Option<i64>,
    pub last_manager_proof_seq: Option<i64>,
    pub last_error_seq: Option<i64>,
    pub last_proof_gate_seq: Option<i64>,
    pub last_checkpoint_seq: Option<i64>,
    pub last_checkpoint_ts_ms: Option<i64>,
}

/// One page of the radar.
#[derive(Debug)]
pub struct JobsRadarResult {
    pub rows: Vec<JobRadarRow>,
    pub has_more: bool,
}

/// The sequence number of the newest event that satisfies `p`.
pub open spec fn seq_of(evs: Seq<JobEventRow>, p: EventPred) -> Option<i64> {
    match first_where(evs, p) {
        Some(i) => Some(evs[i].seq),
        None => None,
    }
}

/// The events of job `id`, in the order given.
pub open spec fn events_of(evs: Seq<JobEventRow>, id: Seq<char>) -> Seq<JobEventRow> {
    evs.filter(|e: JobEventRow| e.job_id@ == id)
}

/// The values an event holds.
pub type EventView = (i64, Seq<char>, i64, Seq<char>, Seq<char>, Option<i64>, Seq<Seq<char>>, Option<Seq<char>>);

pub open spec fn event_view(e: JobEventRow) -> EventView {
    (
        e.seq,
        e.job_id@,
        e.ts_ms,
        e.kind@,
        e.message@,
        e.percent,
        crate::text::strs(e.refs@),
        crate::graph::opt_view(e.meta_json),
    )
}

/// The values a radar row holds.
pub type RadarView = (JobRow, Option<EventView>, Seq<Option<i64>>);

pub open spec fn radar_view(r: JobRadarRow) -> RadarView {
    (
        r.job,
        match r.last_event {
            Some(e) => Some(event_view(e)),
            None => None,
        },
        seq![
            r.last_question_seq,
            r.last_manager_seq,
            r.last_manager_proof_seq,
            r.last_error_seq,
            r.last_proof_gate_seq,
            r.last_checkpoint_seq,
            r.last_checkpoint_ts_ms,
        ],
    )
}

pub open spec fn radar_views(s: Seq<JobRadarRow>) -> Seq<RadarView> {
    s.map_values(|r: JobRadarRow| radar_view(r))
}

/// The radar row of `job`, from its events newest first.
pub open spec fn radar_row_spec(job: JobRow, evs: Seq<JobEventRow>) -> RadarView {
    (
        job,
        match pick_index_spec(evs) {
            Some(i) => Some(event_view(evs[i])),
            None => None,
        },
        seq![
            seq_of(evs, EventPred::KindIs("question")),
            seq_of(evs, EventPred::KindIs("manager")),
            seq_of(evs, EventPred::ManagerWithRefs),
            seq_of(evs, EventPred::KindIs("error")),
            seq_of(evs, EventPred::KindIs("proof_gate")),
            seq_of(evs, EventPred::KindIs("checkpoint")),
            match first_where(evs, EventPred::KindIs("checkpoint")) {
                Some(i) => Some(evs[i].ts_ms),
                None => None,
            },
        ],
    )
}

fn seq_of_first(evs: &[JobEventRow], p: EventPred) -> (r: Option<i64>)
    ensures
        r == seq_of(evs@, p),
{
    match find_first(evs, p) {
        Some(i) => Some(evs[i].seq),
        None => None,
    }
}

/// Builds the radar row of a job from its events, newest first.
pub fn radar_row(job: JobRow, evs: &[JobEventRow]) -> (r: JobRadarRow)
    ensures
        radar_view(r) == radar_row_spec(job, evs@),
{
    let last_event = pick_last_meaningful_job_event(evs);
    let checkpoint_ts = match find_first(evs, EventPred::KindIs("checkpoint")) {
        Some(i) => Some(evs[i].ts_ms),
        None => None,
    };
    let r = JobRadarRow {
        job,
        last_event,
        last_question_seq: seq_of_first(evs, EventPred::KindIs("question")),
        last_manager_seq: seq_of_first(evs, EventPred::KindIs("manager")),
        last_manager_proof_seq: seq_of_first(evs, EventPred::ManagerWithRefs),
        last_error_seq: seq_of_first(evs, EventPred::KindIs("error")),
        last_proof_gate_seq: seq_of_first(evs, EventPred::KindIs("proof_gate")),
        last_checkpoint_seq: seq_of_first(evs, EventPred::KindIs("checkpoint")),
        last_checkpoint_ts_ms: checkpoint_ts,
    };
    proof {
        if r.last_event is Some {
            let e = r.last_event->0;
            assert(same_event(e, evs@[pick_index_spec(evs@)->0]));
            assert(event_view(e) == event_view(evs@[pick_index_spec(evs@)->0]));
        }
    }
    r
}

pub open spec fn or_zero(o: Option<i64>) -> i64 {
    match o {
        Some(v) => v,
        None => 0,
    }
}

pub open spec fn is_running(r: RadarView) -> bool {
    r.0.status@ == "RUNNING"@
}

pub open spec fn is_queued(r: RadarView) -> bool {
    r.0.status@ == "QUEUED"@
}

/// A running job with an error newer than its last checkpoint.
pub open spec fn has_error(r: RadarView) -> bool {
    or_zero(r.2[3]) > or_zero(r.2[5]) && is_running(r)
}

/// An active job with a question newer than the last manager reply.
pub open spec fn needs_manager(r: RadarView) -> bool {
    or_zero(r.2[0]) > or_zero(r.2[1]) && (is_running(r) || is_queued(r))
}

/// A running job with a proof gate newer than its last checkpoint and than the last manager
/// reply with references.
pub open spec fn needs_proof(r: RadarView) -> bool {
    let base = if or_zero(r.2[5]) >= or_zero(r.2[2]) {
        or_zero(r.2[5])
    } else {
        or_zero(r.2[2])
    };
    or_zero(r.2[4]) > base && is_running(r)
}

/// A running job whose claim has expired, or that has none.
pub open spec fn is_stale(r: RadarView, now_ms: i64) -> bool {
    is_running(r) && match r.0.claim_expires_at_ms {
        Some(v) => v <= now_ms,
        None => true,
    }
}

pub open spec fn status_rank(r: RadarView) -> int {
    if is_running(r) {
        0
    } else if is_queued(r) {
        1
    } else {
        2
    }
}

pub open spec fn flag(b: bool) -> int {
    if b {
        0
    } else {
        1
    }
}

/// The attention order as one number: errors first, then questions for the manager, then
/// proof gates, then stale claims, each flag deciding before the next; then running before
/// queued before the rest.
pub open spec fn attention_rank(r: RadarView, now_ms: i64) -> int {
    flag(has_error(r)) * 48 + flag(needs_manager(r)) * 24 + flag(needs_proof(r)) * 12 + flag(
        is_stale(r, now_ms),
    ) * 3 + status_rank(r)
}

/// `a` is listed before `b`: by attention, then most recently updated, then by id.
pub open spec fn radar_lt(a: RadarView, b: RadarView, now_ms: i64) -> bool {
    let ka = attention_rank(a, now_ms);
    let kb = attention_rank(b, now_ms);
    ||| ka < kb
    ||| ka == kb && a.0.updated_at_ms > b.0.updated_at_ms
    ||| ka == kb && a.0.updated_at_ms == b.0.updated_at_ms && lex_lt(a.0.id@, b.0.id@)
}

pub open spec fn radar_sorted(s: Seq<RadarView>, now_ms: i64) -> bool {
    forall|i: int, j: int| 0 <= i < j < s.len() ==> !radar_lt(#[trigger] s[j], #[trigger] s[i], now_ms)
}

/// A running job whose newest error is newer than its newest checkpoint (a missing one
/// counting as 0): an error not yet followed by a checkpoint.
pub open spec fn outstanding_error(r: RadarView) -> bool {
    r.0.status@ == "RUNNING"@ && or_zero(r.2[3]) > or_zero(r.2[5])
}

/// A job with an outstanding error is listed before every job without one, whatever else
/// holds of either.
pub proof fn lemma_radar_outstanding_error_first(a: RadarView, b: RadarView, now_ms: i64)
    requires
        outstanding_error(a),
        !outstanding_error(b),
    ensures
        radar_lt(a, b, now_ms),
{
}

/// A job whose newest error was followed by a checkpoint (or that has no error) and that has
/// no open question is listed after an active job waiting on a manager's answer that has no
/// outstanding error: its old error no longer counts.
pub proof fn lemma_radar_checkpoint_clears_error(a: RadarView, b: RadarView, now_ms: i64)
    requires
        or_zero(a.2[5]) >= or_zero(a.2[3]),
        or_zero(a.2[0]) <= or_zero(a.2[1]),
        b.0.status@ == "RUNNING"@ || b.0.status@ == "QUEUED"@,
        or_zero(b.2[0]) > or_zero(b.2[1]),
        !outstanding_error(b),
    ensures
        radar_lt(b, a, now_ms),
{
}

/// An active job with a question newer than the newest manager reply.
pub open spec fn waits_on_manager(r: RadarView) -> bool {
    (r.0.status@ == "RUNNING"@ || r.0.status@ == "QUEUED"@) && or_zero(r.2[0]) > or_zero(r.2[1])
}

/// A running job with a proof gate newer than both its newest checkpoint and the newest
/// manager reply that carries references.
pub open spec fn waits_on_proof(r: RadarView) -> bool {
    r.0.status@ == "RUNNING"@ && or_zero(r.2[4]) > or_zero(r.2[5]) && or_zero(r.2[4]) > or_zero(r.2[2])
}

/// A running job whose claim has run out at `now_ms`, or that holds no claim time.
pub open spec fn claim_ran_out(r: RadarView, now_ms: i64) -> bool {
    r.0.status@ == "RUNNING"@ && (r.0.claim_expires_at_ms is None || r.0.claim_expires_at_ms->0 <= now_ms)
}

/// The radar's attention order, flag by flag: an outstanding error comes first; between jobs
/// alike in that, one waiting on the manager; then one waiting on a proof; then one whose
/// claim ran out; then running before queued before the rest; then the most recently
/// updated; then by id.
pub proof fn lemma_radar_attention_order(a: RadarView, b: RadarView, now_ms: i64)
    ensures
        outstanding_error(a) && !outstanding_error(b) ==> radar_lt(a, b, now_ms),
        outstanding_error(a) == outstanding_error(b) && waits_on_manager(a) && !waits_on_manager(b)
            ==> radar_lt(a, b, now_ms),
        outstanding_error(a) == outstanding_error(b) && waits_on_manager(a) == waits_on_manager(b)
            && waits_on_proof(a) && !waits_on_proof(b) ==> radar_lt(a, b, now_ms),
        outstanding_error(a) == outstanding_error(b) && waits_on_manager(a) == waits_on_manager(b)
            && waits_on_proof(a) == waits_on_proof(b) && claim_ran_out(a, now_ms) && !claim_ran_out(
            b,
            now_ms,
        ) ==> radar_lt(a, b, now_ms),
        outstanding_error(a) == outstanding_error(b) && waits_on_manager(a) == waits_on_manager(b)
            && waits_on_proof(a) == waits_on_proof(b) && claim_ran_out(a, now_ms) == claim_ran_out(b, now_ms)
            && a.0.status@ == "RUNNING"@ && b.0.status@ != "RUNNING"@ ==> radar_lt(a, b, now_ms),
        outstanding_error(a) == outstanding_error(b) && waits_on_manager(a) == waits_on_manager(b)
            && waits_on_proof(a) == waits_on_proof(b) && claim_ran_out(a, now_ms) == claim_ran_out(b, now_ms)
            && (a.0.status@ == "RUNNING"@) == (b.0.status@ == "RUNNING"@) && (a.0.status@ == "QUEUED"@) == (
            b.0.status@ == "QUEUED"@) ==> (radar_lt(a, b, now_ms) <==> (a.0.updated_at_ms > b.0.updated_at_ms
            || (a.0.updated_at_ms == b.0.updated_at_ms && lex_lt(a.0.id@, b.0.id@)))),
{
}

proof fn lemma_radar_lt_trans(a: RadarView, b: RadarView, c: RadarView, now_ms: i64)
    requires
        radar_lt(a, b, now_ms),
        radar_lt(b, c, now_ms),
    ensures
        radar_lt(a, c, now_ms),
{
    if lex_lt(a.0.id@, b.0.id@) && lex_lt(b.0.id@, c.0.id@) {
        lemma_lex_transitive(a.0.id@, b.0.id@, c.0.id@);
    }
}

proof fn lemma_radar_le_trans(a: RadarView, b: RadarView, c: RadarView, now_ms: i64)
    requires
        !radar_lt(b, a, now_ms),
        !radar_lt(c, b, now_ms),
    ensures
        !radar_lt(c, a, now_ms),
{
    lemma_lex_total(a.0.id@, b.0.id@);
    lemma_lex_total(b.0.id@, c.0.id@);
    if radar_lt(c, a, now_ms) {
        if radar_lt(a, b, now_ms) {
            lemma_radar_lt_trans(c, a, b, now_ms);
        }
    }
}

fn is_status(job: &JobRow, s: &str) -> (r: bool)
    ensures
        r == (job.status@ == s@),
{
    let v = chars_of(job.status.as_str());
    chars_eq_str(v.as_slice(), s)
}

fn or_zero_exec(o: Option<i64>) -> (r: i64)
    ensures
        r == or_zero(o),
{
    match o {
        Some(v) => v,
        None => 0,
    }
}

/// The attention rank of a row, computed.
pub fn radar_attention(r: &JobRadarRow, now_ms: i64) -> (k: u8)
    ensures
        k as int == attention_rank(radar_view(*r), now_ms),
{
    proof {
        reveal_strlit("RUNNING");
        reveal_strlit("QUEUED");
    }
    let running = is_status(&r.job, "RUNNING");
    let queued = is_status(&r.job, "QUEUED");
    let cp = or_zero_exec(r.last_checkpoint_seq);
    let mgr_proof = or_zero_exec(r.last_manager_proof_seq);
    let base = if cp >= mgr_proof {
        cp
    } else {
        mgr_proof
    };
    let has_error = or_zero_exec(r.last_error_seq) > cp && running;
    let needs_manager = or_zero_exec(r.last_question_seq) > or_zero_exec(r.last_manager_seq) && (running
        || queued);
    let needs_proof = or_zero_exec(r.last_proof_gate_seq) > base && running;
    let stale = running && match r.job.claim_expires_at_ms {
        Some(v) => v <= now_ms,
        None => true,
    };
    let rank: u8 = if running {
        0
    } else if queued {
        1
    } else {
        2
    };
    let e: u8 = if has_error {
        0
    } else {
        1
    };
    let m: u8 = if needs_manager {
        0
    } else {
        1
    };
    let p: u8 = if needs_proof {
        0
    } else {
        1
    };
    let s: u8 = if stale {
        0
    } else {
        1
    };
    e * 48 + m * 24 + p * 12 + s * 3 + rank
}

/// Whether row `a` is listed before row `b`.
pub fn radar_before(a: &JobRadarRow, b: &JobRadarRow, now_ms: i64) -> (r: bool)
    ensures
        r == radar_lt(radar_view(*a), radar_view(*b), now_ms),
{
    let ka = radar_attention(a, now_ms);
    let kb = radar_attention(b, now_ms);
    if ka != kb {
        return ka < kb;
    }
    if a.job.updated_at_ms != b.job.updated_at_ms {
        return a.job.updated_at_ms > b.job.updated_at_ms;
    }
    let ia = chars_of(a.job.id.as_str());
    let ib = chars_of(b.job.id.as_str());
    lex_less(ia.as_slice(), ib.as_slice())
}

/// Sorts rows into the radar order (an insertion sort: rows that compare equal keep their
/// relative order).
pub fn sort_radar_rows(v: Vec<JobRadarRow>, now_ms: i64) -> (r: Vec<JobRadarRow>)
    ensures
        radar_views(r@).to_multiset() == radar_views(v@).to_multiset(),
        radar_sorted(radar_views(r@), now_ms),
{
    broadcast use vstd::seq_lib::group_to_multiset_ensures, vstd::multiset::group_multiset_axioms;

    let ghost orig = radar_views(v@);
    let mut rest = v;
    let mut out: Vec<JobRadarRow> = Vec::new();
    assert(radar_views(out@).to_multiset().len() == 0);
    assert(radar_views(out@).to_multiset() =~= Multiset::<RadarView>::empty());
    assert(radar_views(rest@).to_multiset().add(radar_views(out@).to_multiset()) =~= orig.to_multiset());
    while rest.len() > 0
        invariant
            radar_views(rest@).to_multiset().add(radar_views(out@).to_multiset()) == orig.to_multiset(),
            radar_sorted(radar_views(out@), now_ms),
        decreases rest@.len(),
    {
        let ghost before_rest = radar_views(rest@);
        let x = match rest.pop() {
            Some(x) => x,
            None => {
                return out;
            },
        };
        let ghost xv = radar_view(x);
        assert(before_rest =~= radar_views(rest@).push(xv));
        let mut k: usize = 0;
        while k < out.len() && radar_before(&out[k], &x, now_ms)
            invariant
                k <= out@.len(),
                xv == radar_view(x),
                forall|t: int| 0 <= t < k ==> radar_lt(#[trigger] radar_views(out@)[t], xv, now_ms),
            decreases out@.len() - k,
        {
            k = k + 1;
        }
        let ghost old_out = radar_views(out@);
        out.insert(k, x);
        assert(radar_views(out@) =~= old_out.insert(k as int, xv));
        proof {
            vstd::seq_lib::to_multiset_build(radar_views(rest@), xv);
            vstd::seq_lib::to_multiset_insert(old_out, k as int, xv);
            let no = radar_views(out@);
            assert forall|i: int, j: int| 0 <= i < j < no.len() implies !radar_lt(
                #[trigger] no[j],
                #[trigger] no[i],
                now_ms,
            ) by {
                if j < k {
                    assert(no[i] == old_out[i] && no[j] == old_out[j]);
                } else if j == k {
                    assert(no[i] == old_out[i]);
                    lemma_lex_total(old_out[i].0.id@, xv.0.id@);
                } else if i > k {
                    assert(no[i] == old_out[i - 1] && no[j] == old_out[j - 1]);
                } else if i == k {
                    assert(no[j] == old_out[j - 1]);
                    assert(!radar_lt(old_out[k as int], xv, now_ms));
                    if j - 1 > k {
                        lemma_radar_le_trans(xv, old_out[k as int], old_out[j - 1], now_ms);
                    }
                } else {
                    assert(no[i] == old_out[i] && no[j] == old_out[j - 1]);
                }
            }
        }
        assert(before_rest.to_multiset() =~= radar_views(rest@).to_multiset().insert(xv));
        assert(radar_views(out@).to_multiset() =~= old_out.to_multiset().insert(xv));
        assert(radar_views(rest@).to_multiset().add(radar_views(out@).to_multiset()) =~= before_rest.to_multiset().add(
            old_out.to_multiset(),
        ));
    }
    assert(radar_views(rest@).to_multiset().len() == 0);
    assert(radar_views(rest@).to_multiset() =~= Multiset::<RadarView>::empty());
    assert(radar_views(out@).to_multiset() =~= orig.to_multiset());
    out
}

/// The two lists hold the same events, position by position.
pub open spec fn same_events(a: Seq<JobEventRow>, b: Seq<JobEventRow>) -> bool {
    a.len() == b.len() && forall|i: int| 0 <= i < a.len() ==> same_event(#[trigger] a[i], b[i])
}

proof fn lemma_first_where_same(a: Seq<JobEventRow>, b: Seq<JobEventRow>, p: EventPred)
    requires
        same_events(a, b),
    ensures
        first_where(a, p) == first_where(b, p),
    decreases a.len(),
{
    if a.len() > 0 {
        assert(same_event(a[0], b[0]));
        assert(crate::text::strs(a[0].refs@).len() == a[0].refs@.len());
        assert(crate::text::strs(b[0].refs@).len() == b[0].refs@.len());
        assert forall|i: int| 0 <= i < a.drop_first().len() implies same_event(
            #[trigger] a.drop_first()[i],
            b.drop_first()[i],
        ) by {
            assert(same_event(a[i + 1], b[i + 1]));
        }
        lemma_first_where_same(a.drop_first(), b.drop_first(), p);
    }
}

proof fn lemma_row_same(job: JobRow, a: Seq<JobEventRow>, b: Seq<JobEventRow>)
    requires
        same_events(a, b),
    ensures
        radar_row_spec(job, a) == radar_row_spec(job, b),
{
    lemma_first_where_same(a, b, EventPred::KindIs("question"));
    lemma_first_where_same(a, b, EventPred::KindIs("manager"));
    lemma_first_where_same(a, b, EventPred::ManagerWithRefs);
    lemma_first_where_same(a, b, EventPred::KindIs("error"));
    lemma_first_where_same(a, b, EventPred::KindIs("proof_gate"));
    lemma_first_where_same(a, b, EventPred::KindIs("checkpoint"));
    lemma_first_where_same(a, b, EventPred::Meaningful);
    lemma_first_where_same(a, b, EventPred::NotHeartbeat);
    super::jobs::lemma_first_where_bounds(a, EventPred::KindIs("question"));
    super::jobs::lemma_first_where_bounds(a, EventPred::KindIs("manager"));
    super::jobs::lemma_first_where_bounds(a, EventPred::ManagerWithRefs);
    super::jobs::lemma_first_where_bounds(a, EventPred::KindIs("error"));
    super::jobs::lemma_first_where_bounds(a, EventPred::KindIs("proof_gate"));
    super::jobs::lemma_first_where_bounds(a, EventPred::KindIs("checkpoint"));
    super::jobs::lemma_first_where_bounds(a, EventPred::Meaningful);
    super::jobs::lemma_first_where_bounds(a, EventPred::NotHeartbeat);
    if pick_index_spec(a) is Some {
        let i = pick_index_spec(a)->0;
        assert(same_event(a[i], b[i]));
    }
}

/// The events of job `id`, copied, in the order given.
pub fn events_for_job(evs: &[JobEventRow], id: &str) -> (r: Vec<JobEventRow>)
    ensures
        same_events(r@, events_of(evs@, id@)),
{
    let idv = chars_of(id);
    let mut out: Vec<JobEventRow> = Vec::new();
    let mut i: usize = 0;
    assert(evs@.take(0).filter(|e: JobEventRow| e.job_id@ == id@) =~= Seq::<JobEventRow>::empty());
    while i < evs.len()
        invariant
            i <= evs@.len(),
            idv@ == id@,
            same_events(out@, evs@.take(i as int).filter(|e: JobEventRow| e.job_id@ == id@)),
        decreases evs@.len() - i,
    {
        let ghost f = |e: JobEventRow| e.job_id@ == id@;
        let ghost before = out@;
        assert(evs@.take(i + 1).drop_last() =~= evs@.take(i as int));
        reveal(Seq::filter);
        let jv = chars_of(evs[i].job_id.as_str());
        if chars_eq(jv.as_slice(), idv.as_slice()) {
            let e = super::jobs::copy_event(&evs[i]);
            out.push(e);
            assert(evs@.take(i + 1).filter(f) =~= evs@.take(i as int).filter(f).push(evs@[i as int]));
        } else {
            assert(evs@.take(i + 1).filter(f) =~= evs@.take(i as int).filter(f));
        }
        i = i + 1;
    }
    assert(evs@.take(evs@.len() as int) =~= evs@);
    out
}

/// The page size asked for, kept within 1 ..= 200.
pub open spec fn radar_limit(limit: usize) -> int {
    if limit < 1 {
        1
    } else if limit > MAX_RADAR_LIMIT {
        MAX_RADAR_LIMIT as int
    } else {
        limit as int
    }
}

/// How many jobs are read: four pages' worth, at most 200.
pub open spec fn radar_scan(limit: usize) -> int {
    if 4 * radar_limit(limit) > MAX_RADAR_LIMIT {
        MAX_RADAR_LIMIT as int
    } else {
        4 * radar_limit(limit)
    }
}

/// How many jobs one radar call reads.
pub fn radar_scan_limit(limit: usize) -> (r: usize)
    ensures
        r == radar_scan(limit),
{
    let page: usize = if limit < 1 {
        1
    } else if limit > MAX_RADAR_LIMIT {
        MAX_RADAR_LIMIT
    } else {
        limit
    };
    if page * 4 > MAX_RADAR_LIMIT {
        MAX_RADAR_LIMIT
    } else {
        page * 4
    }
}

/// Job `i` is the first with its id (a later job with the same id gets no events).
pub open spec fn first_of_id(jobs: Seq<JobRow>, i: int) -> bool {
    forall|j: int| 0 <= j < i ==> #[trigger] jobs[j].id@ != jobs[i].id@
}

/// The rows of the jobs scanned, before ordering.
pub open spec fn radar_rows_spec(jobs: Seq<JobRow>, evs: Seq<JobEventRow>, limit: usize) -> Seq<RadarView> {
    let n = if jobs.len() > radar_scan(limit) {
        radar_scan(limit)
    } else {
        jobs.len() as int
    };
    Seq::new(
        n as nat,
        |i: int|
            radar_row_spec(
                jobs[i],
                if first_of_id(jobs, i) {
                    events_of(evs, jobs[i].id@)
                } else {
                    Seq::empty()
                },
            ),
    )
}

/// One page of the radar over the active jobs `jobs` (newest first, as read) and their
/// events `evs` (grouped by job, newest first), at time `now_ms`.
///
/// Only the first 4 pages' worth of jobs (at most 200) are looked at; they are listed in the
/// attention order and the first page is returned. More is said to be left when jobs were
/// left unread or rows left unlisted.
pub fn jobs_radar_page(jobs: Vec<JobRow>, evs: &[JobEventRow], limit: usize, now_ms: i64) -> (r: JobsRadarResult)
    ensures
        ({
            let all = radar_rows_spec(jobs@, evs@, limit);
            let kept = radar_views(r.rows@);
            let page = radar_limit(limit);
            &&& radar_sorted(kept, now_ms)
            &&& kept.len() == if all.len() > page {
                page
            } else {
                all.len() as int
            }
            &&& r.has_more == (jobs@.len() > radar_scan(limit) || all.len() > page)
            &&& forall|v: RadarView| #[trigger] kept.to_multiset().count(v) <= all.to_multiset().count(v)
            &&& forall|v: RadarView, j: int|
                0 <= j < kept.len() && kept.to_multiset().count(v) < all.to_multiset().count(v) ==> !#[trigger] radar_lt(
                    v,
                    kept[j],
                    now_ms,
                )
            &&& forall|i: int, j: int|
                0 <= i < j < kept.len() && outstanding_error(#[trigger] kept[j]) ==> outstanding_error(
                    #[trigger] kept[i],
                )
        }),
{
    broadcast use vstd::seq_lib::group_to_multiset_ensures, vstd::multiset::group_multiset_axioms, vstd::seq_lib::lemma_multiset_commutative;

    let page: usize = if limit < 1 {
        1
    } else if limit > MAX_RADAR_LIMIT {
        MAX_RADAR_LIMIT
    } else {
        limit
    };
    let scan: usize = if page * 4 > MAX_RADAR_LIMIT {
        MAX_RADAR_LIMIT
    } else {
        page * 4
    };
    let ghost orig = jobs@;
    let scan_has_more = jobs.len() > scan;
    let mut jobs = jobs;
    if scan_has_more {
        jobs.truncate(scan);
    }
    let ghost scanned = jobs@;
    assert(scanned =~= orig.take(scanned.len() as int));
    let ghost g = |i: int|
        radar_row_spec(
            orig[i],
            if first_of_id(orig, i) {
                events_of(evs@, orig[i].id@)
            } else {
                Seq::empty()
            },
        );
    let mut rows: Vec<JobRadarRow> = Vec::new();
    let mut seen: Vec<Vec<char>> = Vec::new();
    let mut i: usize = 0;
    let n = jobs.len();
    while i < n
        invariant
            n == scanned.len(),
            scanned =~= orig.take(n as int),
            n <= orig.len(),
            i <= n,
            jobs@ == scanned.skip(i as int),
            seen@.len() == i,
            forall|k: int| 0 <= k < i ==> #[trigger] seen@[k]@ == orig[k].id@,
            radar_views(rows@) == Seq::new(i as nat, g),
            g == (|i: int|
                radar_row_spec(
                    orig[i],
                    if first_of_id(orig, i) {
                        events_of(evs@, orig[i].id@)
                    } else {
                        Seq::empty()
                    },
                )),
        decreases n - i,
    {
        assert(jobs@.len() > 0);
        let job = jobs.remove(0);
        assert(job == orig[i as int]);
        assert(jobs@ =~= scanned.skip(i + 1));
        let idv = chars_of(job.id.as_str());
        let mut first = true;
        let mut k: usize = 0;
        while k < seen.len()
            invariant
                k <= seen@.len(),
                seen@.len() == i,
                idv@ == orig[i as int].id@,
                forall|q: int| 0 <= q < i ==> #[trigger] seen@[q]@ == orig[q].id@,
                first == (forall|q: int| 0 <= q < k ==> #[trigger] orig[q].id@ != orig[i as int].id@),
            decreases seen@.len() - k,
        {
            if chars_eq(seen[k].as_slice(), idv.as_slice()) {
                first = false;
            }
            k = k + 1;
        }
        let job_evs = if first {
            events_for_job(evs, job.id.as_str())
        } else {
            Vec::new()
        };
        proof {
            if first {
                lemma_row_same(job, job_evs@, events_of(evs@, job.id@));
            } else {
                assert(job_evs@ =~= Seq::<JobEventRow>::empty());
            }
        }
        let row = radar_row(job, job_evs.as_slice());
        let ghost before = radar_views(rows@);
        rows.push(row);
        seen.push(idv);
        assert(radar_views(rows@) =~= before.push(g(i as int)));
        assert(Seq::new((i + 1) as nat, g) =~= Seq::new(i as nat, g).push(g(i as int)));
        i = i + 1;
    }
    let ghost all = Seq::new(n as nat, g);
    assert(all =~= radar_rows_spec(orig, evs@, limit));
    let mut sorted = sort_radar_rows(rows, now_ms);
    let ghost full = radar_views(sorted@);
    assert(full.len() == full.to_multiset().len());
    assert(all.len() == all.to_multiset().len());
    let more = sorted.len() > page;
    if more {
        sorted.truncate(page);
    }
    proof {
        let kept = radar_views(sorted@);
        let m = kept.len() as int;
        assert(kept =~= full.take(m));
        let rest = full.skip(m);
        assert(full =~= kept + rest);
        assert(full.to_multiset() =~= kept.to_multiset().add(rest.to_multiset()));
        assert forall|v: RadarView| #[trigger] kept.to_multiset().count(v) <= all.to_multiset().count(v) by {
            assert(full.to_multiset().count(v) == kept.to_multiset().count(v) + rest.to_multiset().count(v));
        }
        assert forall|v: RadarView, j: int|
            0 <= j < kept.len() && kept.to_multiset().count(v) < all.to_multiset().count(v)
                implies !#[trigger] radar_lt(v, kept[j], now_ms) by {
            assert(full.to_multiset().count(v) == kept.to_multiset().count(v) + rest.to_multiset().count(v));
            assert(rest.to_multiset().count(v) > 0);
            assert(rest.contains(v));
            let p = choose|p: int| 0 <= p < rest.len() && rest[p] == v;
            assert(full[m + p] == v);
            assert(full[j] == kept[j]);
            assert(!radar_lt(full[m + p], full[j], now_ms));
        }
        assert forall|i: int, j: int|
            0 <= i < j < kept.len() && outstanding_error(#[trigger] kept[j]) implies outstanding_error(
                #[trigger] kept[i],
            ) by {
            if !outstanding_error(kept[i]) {
                lemma_radar_outstanding_error_first(kept[j], kept[i], now_ms);
            }
        }
    }
    JobsRadarResult { rows: sorted, has_more: scan_has_more || more }
}

} // verus!
