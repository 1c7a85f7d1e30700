//! The job message bus: thread ids, agent ids and message fields.

use vstd::prelude::*;

use super::anchors::strings_of;
use super::error::{list_result_matches, result_matches, StoreError};
use super::fields::{bounded_trimmed, bounded_trimmed_spec};
use crate::snapshot::or_err;
use crate::text::{
    append_chars, append_str, chars_eq_str, chars_of, has_prefix, join_chars, join_seq, lex_less,
    lex_lt, lower_seq, seqs, sort_dedup, sorted_strict, split_chars, split_seq, string_of, strs,
    take_chars, to_ascii_lower, trim, trim_seq, trim_str, utf8_len, utf8_len_exceeds,
};

verus! {

broadcast use vstd::string::group_string_axioms;

pub const MAX_THREAD_ID_LEN: usize = 200;

pub const MAX_AGENT_ID_LEN: usize = 128;

pub const MAX_KIND_LEN: usize = 48;

pub const MAX_SUMMARY_LEN: usize = 800;

pub const MAX_IDEMPOTENCY_KEY_LEN: usize = 128;

pub const MAX_REFS: usize = 32;

pub const MAX_REF_ITEM_LEN: usize = 256;

/// Backslashes read as slashes.
pub open spec fn slashes(s: Seq<char>) -> Seq<char> {
    s.map_values(|c: char| if c == '\\' { '/' } else { c })
}

/// The path segments of a thread id, trimmed, without empty and `.` segments; `..` is an error.
pub open spec fn thread_parts_spec(pieces: Seq<Seq<char>>) -> Result<Seq<Seq<char>>, Seq<char>>
    decreases pieces.len(),
{
    if pieces.len() == 0 {
        Ok(Seq::empty())
    } else {
        match thread_parts_spec(pieces.drop_last()) {
            Err(e) => Err(e),
            Ok(parts) => {
                let p = trim_seq(pieces.last());
                if p.len() == 0 || p == "."@ {
                    Ok(parts)
                } else if p == ".."@ {
                    Err("thread_id must not contain '..'"@)
                } else {
                    Ok(parts.push(p))
                }
            },
        }
    }
}

/// The canonical thread id: segments joined by `/`; a direct-message thread `dm/<a>/<b>`
/// lists its two agents in order.
pub open spec fn thread_id_spec(raw: Seq<char>) -> Result<Seq<char>, Seq<char>> {
    let t = trim_seq(raw);
    if t.len() == 0 {
        Err("thread_id must not be empty"@)
    } else if utf8_len(t) > MAX_THREAD_ID_LEN {
        Err("thread_id too long"@)
    } else {
        match thread_parts_spec(split_seq(slashes(t), '/')) {
            Err(e) => Err(e),
            Ok(parts) => if parts.len() == 0 {
                Err("thread_id must not be empty"@)
            } else if parts.len() == 3 && lower_seq(parts[0]) == "dm"@ {
                let a = trim_seq(parts[1]);
                let b = trim_seq(parts[2]);
                if a.len() == 0 || b.len() == 0 {
                    Err("dm thread_id: agent ids must not be empty"@)
                } else if !lex_lt(b, a) {
                    Ok("dm/"@ + a + "/"@ + b)
                } else {
                    Ok("dm/"@ + b + "/"@ + a)
                }
            } else {
                Ok(join_seq(parts, "/"@))
            },
        }
    }
}

proof fn lemma_thread_parts_error_sticks(pieces: Seq<Seq<char>>, k: int)
    requires
        0 <= k <= pieces.len(),
        thread_parts_spec(pieces.take(k)) is Err,
    ensures
        thread_parts_spec(pieces) == thread_parts_spec(pieces.take(k)),
    decreases pieces.len() - k,
{
    if k < pieces.len() {
        assert(pieces.take(k + 1).drop_last() =~= pieces.take(k));
        lemma_thread_parts_error_sticks(pieces, k + 1);
    } else {
        assert(pieces.take(k) =~= pieces);
    }
}

#[verifier::loop_isolation(false)]
pub fn normalize_thread_id(raw: &str) -> (r: Result<String, StoreError>)
    ensures
        result_matches(r, thread_id_spec(raw@)),
{
    proof {
        reveal_strlit("/");
    }
    let t = trim_str(raw);
    if t.len() == 0 {
        return Err(StoreError::InvalidInput("thread_id must not be empty"));
    }
    if utf8_len_exceeds(t.as_slice(), MAX_THREAD_ID_LEN) {
        return Err(StoreError::InvalidInput("thread_id too long"));
    }
    let mut normalized: Vec<char> = Vec::new();
    let mut i: usize = 0;
    while i < t.len()
        invariant
            i <= t@.len(),
            normalized@ == slashes(t@.take(i as int)),
        decreases t@.len() - i,
    {
        let c = t[i];
        normalized.push(
            if c == '\\' {
                '/'
            } else {
                c
            },
        );
        i = i + 1;
        assert(normalized@ =~= slashes(t@.take(i as int)));
    }
    assert(t@.take(t@.len() as int) =~= t@);
    let pieces = split_chars(normalized.as_slice(), '/');
    let mut parts: Vec<Vec<char>> = Vec::new();
    let mut k: usize = 0;
    assert(seqs(pieces@).take(0) =~= Seq::<Seq<char>>::empty());
    assert(seqs(parts@) =~= Seq::<Seq<char>>::empty());
    while k < pieces.len()
        invariant
            k <= pieces@.len(),
            thread_parts_spec(seqs(pieces@).take(k as int)) == Ok::<Seq<Seq<char>>, Seq<char>>(
                seqs(parts@),
            ),
        decreases pieces@.len() - k,
    {
        assert(seqs(pieces@).take(k + 1).drop_last() =~= seqs(pieces@).take(k as int));
        let p = trim(pieces[k].as_slice());
        if p.len() == 0 || chars_eq_str(p.as_slice(), ".") {
        } else if chars_eq_str(p.as_slice(), "..") {
            proof {
                lemma_thread_parts_error_sticks(seqs(pieces@), k + 1);
            }
            return Err(StoreError::InvalidInput("thread_id must not contain '..'"));
        } else {
            let ghost before = seqs(parts@);
            parts.push(p);
            assert(seqs(parts@) =~= before.push(trim_seq(pieces@[k as int]@)));
        }
        k = k + 1;
    }
    assert(seqs(pieces@).take(pieces@.len() as int) =~= seqs(pieces@));
    if parts.len() == 0 {
        return Err(StoreError::InvalidInput("thread_id must not be empty"));
    }
    if parts.len() == 3 {
        let head = to_ascii_lower(parts[0].as_slice());
        if chars_eq_str(head.as_slice(), "dm") {
            let a = trim(parts[1].as_slice());
            let b = trim(parts[2].as_slice());
            if a.len() == 0 || b.len() == 0 {
                return Err(StoreError::InvalidInput("dm thread_id: agent ids must not be empty"));
            }
            let (x, y) = if !lex_less(b.as_slice(), a.as_slice()) {
                (a, b)
            } else {
                (b, a)
            };
            let mut out: Vec<char> = Vec::new();
            append_str(&mut out, "dm/");
            append_chars(&mut out, x.as_slice());
            append_str(&mut out, "/");
            append_chars(&mut out, y.as_slice());
            return Ok(string_of(out.as_slice()));
        }
    }
    let sep = chars_of("/");
    let joined = join_chars(&parts, sep.as_slice());
    Ok(string_of(joined.as_slice()))
}

pub fn normalize_agent_id(raw: &str, field: &'static str) -> (r: Result<String, StoreError>)
    ensures
        result_matches(
            r,
            bounded_trimmed_spec(raw@, MAX_AGENT_ID_LEN as nat, field@, "agent id too long"@),
        ),
{
    bounded_trimmed(raw, MAX_AGENT_ID_LEN, field, "agent id too long")
}

pub fn normalize_kind(raw: &str) -> (r: Result<String, StoreError>)
    ensures
        result_matches(
            r,
            bounded_trimmed_spec(raw@, MAX_KIND_LEN as nat, "kind must not be empty"@, "kind too long"@),
        ),
{
    bounded_trimmed(raw, MAX_KIND_LEN, "kind must not be empty", "kind too long")
}

pub fn normalize_summary(raw: &str) -> (r: Result<String, StoreError>)
    ensures
        result_matches(
            r,
            bounded_trimmed_spec(
                raw@,
                MAX_SUMMARY_LEN as nat,
                "summary must not be empty"@,
                "summary too long"@,
            ),
        ),
{
    bounded_trimmed(raw, MAX_SUMMARY_LEN, "summary must not be empty", "summary too long")
}

pub fn normalize_idempotency_key(raw: &str) -> (r: Result<String, StoreError>)
    ensures
        result_matches(
            r,
            bounded_trimmed_spec(
                raw@,
                MAX_IDEMPOTENCY_KEY_LEN as nat,
                "idempotency_key must not be empty"@,
                "idempotency_key too long"@,
            ),
        ),
{
    bounded_trimmed(
        raw,
        MAX_IDEMPOTENCY_KEY_LEN,
        "idempotency_key must not be empty",
        "idempotency_key too long",
    )
}

/// A kept reference: the trimmed text, cut to 256 characters when over 256 bytes.
pub open spec fn ref_item_spec(raw: Seq<char>) -> Seq<char> {
    let t = trim_seq(raw);
    if utf8_len(t) > MAX_REF_ITEM_LEN {
        take_chars(t, MAX_REF_ITEM_LEN as nat)
    } else {
        t
    }
}

/// The references kept from the first 32: each non-blank one as `ref_item_spec` makes it.
pub open spec fn ref_set(refs: Seq<Seq<char>>) -> Set<Seq<char>> {
    Set::new(
        |x: Seq<char>|
            exists|i: int|
                0 <= i < refs.len() && i < MAX_REFS && trim_seq(refs[i]).len() > 0 && ref_item_spec(
                    refs[i],
                ) == x,
    )
}

/// The references, sorted and without repeats.
pub fn normalize_refs(refs: Vec<String>) -> (r: Result<Vec<String>, StoreError>)
    ensures
        r matches Ok(v) && sorted_strict(strs(v@)) && strs(v@).to_set() == ref_set(strs(refs@)),
{
    let n = if refs.len() > MAX_REFS {
        MAX_REFS
    } else {
        refs.len()
    };
    let mut found: Vec<Vec<char>> = Vec::new();
    let mut i: usize = 0;
    while i < n
        invariant
            i <= n <= refs@.len(),
            n <= MAX_REFS,
            n == refs@.len() || n == MAX_REFS,
            forall|x: Seq<char>|
                seqs(found@).contains(x) <==> exists|k: int|
                    0 <= k < i && trim_seq(strs(refs@)[k]).len() > 0 && ref_item_spec(strs(refs@)[k])
                        == x,
        decreases n - i,
    {
        let t = trim_str(refs[i].as_str());
        let ghost before = seqs(found@);
        if t.len() > 0 {
            let item = if utf8_len_exceeds(t.as_slice(), MAX_REF_ITEM_LEN) {
                let end = if t.len() <= MAX_REF_ITEM_LEN {
                    t.len()
                } else {
                    MAX_REF_ITEM_LEN
                };
                let s = crate::text::sub_chars(t.as_slice(), 0, end);
                assert(t@.subrange(0, t@.len() as int) =~= t@);
                s
            } else {
                t
            };
            assert(item@ == ref_item_spec(strs(refs@)[i as int]));
            found.push(item);
            assert(seqs(found@) =~= before.push(ref_item_spec(strs(refs@)[i as int])));
        }
        proof {
            assert forall|x: Seq<char>| seqs(found@).contains(x) <==> exists|k: int|
                0 <= k < i + 1 && trim_seq(strs(refs@)[k]).len() > 0 && ref_item_spec(strs(refs@)[k])
                    == x by {
                if seqs(found@).contains(x) {
                    let j = choose|j: int| 0 <= j < seqs(found@).len() && seqs(found@)[j] == x;
                    if j < before.len() {
                        assert(before[j] == x);
                        assert(before.contains(x));
                    } else {
                        assert(trim_seq(strs(refs@)[i as int]).len() > 0);
                        assert(ref_item_spec(strs(refs@)[i as int]) == x);
                    }
                }
                if exists|k: int|
                    0 <= k < i + 1 && trim_seq(strs(refs@)[k]).len() > 0 && ref_item_spec(
                        strs(refs@)[k],
                    ) == x {
                    let k = choose|k: int|
                        0 <= k < i + 1 && trim_seq(strs(refs@)[k]).len() > 0 && ref_item_spec(
                            strs(refs@)[k],
                        ) == x;
                    if k == i {
                        assert(trim_seq(strs(refs@)[i as int]).len() > 0);
                        assert(seqs(found@)[seqs(found@).len() - 1] == x);
                    } else {
                        assert(before.contains(x));
                        let j = choose|j: int| 0 <= j < before.len() && before[j] == x;
                        assert(seqs(found@)[j] == x);
                    }
                }
            }
        }
        i = i + 1;
    }
    let sorted = sort_dedup(found);
    let r = strings_of(&sorted);
    assert(strs(r@).to_set() =~= ref_set(strs(refs@)));
    Ok(r)
}

/// The most messages one pull returns.
pub const MAX_PULL_LIMIT: usize = 200;

/// A message on the bus, as stored.
#[derive(Clone, Debug)]
pub struct JobBusMessageRow {
    pub seq: i64,
    pub ts_ms: i64,
    pub thread_id: String,
    pub from_agent_id: String,
    pub from_job_id: Option<String>,
    pub to_agent_id: Option<String>,
    pub kind: String,
    pub summary: String,
    pub refs: Vec<String>,
    pub payload_json: Option<String>,
    pub idempotency_key: String,
}

/// A message an agent posts to a thread.
#[derive(Clone, Debug)]
pub struct JobBusPublishRequest {
    pub thread_id: String,
    pub idempotency_key: String,
    pub from_agent_id: String,
    pub from_job_id: Option<String>,
    pub to_agent_id: Option<String>,
    pub kind: String,
    pub summary: String,
    pub refs: Vec<String>,
    pub payload_json: Option<String>,
}

/// A checked message, ready to be stored (once per idempotency key).
#[derive(Clone, Debug)]
pub struct JobBusPublishPlan {
    pub thread_id: String,
    pub idempotency_key: String,
    pub from_agent_id: String,
    pub from_job_id: Option<String>,
    pub to_agent_id: Option<String>,
    pub kind: String,
    pub summary: String,
    pub refs: Vec<String>,
    pub refs_json: String,
    pub payload_json: Option<String>,
}

/// Whether `serde_json` reads the text as a JSON value. Its answer is a function of the text
/// alone; which texts it accepts is left to the name.
pub uninterp spec fn serde_json_accepts(text: Seq<char>) -> bool;

/// `serde_json::from_str::<serde_json::Value>`, asked only whether it succeeds.
#[verifier::external_body]
fn json_value_parses(text: &str) -> (r: bool)
    ensures
        r == serde_json_accepts(text@),
{
    serde_json::from_str::<serde_json::Value>(text).is_ok()
}

/// The payload kept with a message: none when missing or blank, else the trimmed text, which
/// must be JSON.
pub open spec fn payload_spec(raw: Option<Seq<char>>) -> Result<Option<Seq<char>>, Seq<char>> {
    match raw {
        None => Ok(None),
        Some(r) => {
            let t = trim_seq(r);
            if t.len() == 0 {
                Ok(None)
            } else if !serde_json_accepts(t) {
                Err("payload_json: expected valid JSON"@)
            } else {
                Ok(Some(t))
            }
        },
    }
}

pub open spec fn agent_spec(raw: Seq<char>, empty: Seq<char>) -> Result<Seq<char>, Seq<char>> {
    bounded_trimmed_spec(raw, MAX_AGENT_ID_LEN as nat, empty, "agent id too long"@)
}

/// The first check a message fails, in the order they are made.
pub open spec fn publish_error(req: JobBusPublishRequest) -> Option<Seq<char>> {
    let to = match req.to_agent_id {
        None => Ok(None),
        Some(a) => match agent_spec(a@, "to_agent_id must not be empty"@) {
            Err(m) => Err(m),
            Ok(v) => Ok(Some(v)),
        },
    };
    let payload = payload_spec(crate::graph::opt_view(req.payload_json));
    or_err(thread_id_spec(req.thread_id@), or_err(bounded_trimmed_spec(
        req.idempotency_key@,
        MAX_IDEMPOTENCY_KEY_LEN as nat,
        "idempotency_key must not be empty"@,
        "idempotency_key too long"@,
    ), or_err(agent_spec(req.from_agent_id@, "from_agent_id must not be empty"@), or_err(to, or_err(
        bounded_trimmed_spec(req.kind@, MAX_KIND_LEN as nat, "kind must not be empty"@, "kind too long"@),
        or_err(bounded_trimmed_spec(
            req.summary@,
            MAX_SUMMARY_LEN as nat,
            "summary must not be empty"@,
            "summary too long"@,
        ), or_err(payload, None)),
    )))))
}

/// The plan holds the request's fields as checked: each text normalized, the references
/// trimmed, cut, sorted and once each (with their stored JSON text), the payload trimmed.
pub open spec fn publish_plan_matches(p: JobBusPublishPlan, req: JobBusPublishRequest) -> bool {
    &&& thread_id_spec(req.thread_id@) == Ok::<Seq<char>, Seq<char>>(p.thread_id@)
    &&& trim_seq(req.idempotency_key@) == p.idempotency_key@
    &&& trim_seq(req.from_agent_id@) == p.from_agent_id@
    &&& p.from_job_id == req.from_job_id
    &&& crate::graph::opt_view(p.to_agent_id) == crate::graph::opt_trimmed(req.to_agent_id)
    &&& trim_seq(req.kind@) == p.kind@
    &&& trim_seq(req.summary@) == p.summary@
    &&& sorted_strict(strs(p.refs@))
    &&& strs(p.refs@).to_set() == ref_set(strs(req.refs@))
    &&& p.refs_json@ == super::anchors::json_string_list_spec(strs(p.refs@))
    &&& payload_spec(crate::graph::opt_view(req.payload_json)) == Ok::<
        Option<Seq<char>>,
        Seq<char>,
    >(crate::graph::opt_view(p.payload_json))
}

/// Checks a message before it is posted.
pub fn plan_bus_publish(request: JobBusPublishRequest) -> (r: Result<JobBusPublishPlan, StoreError>)
    ensures
        match publish_error(request) {
            Some(m) => r matches Err(StoreError::InvalidInput(x)) && x@ == m,
            None => r matches Ok(p) && publish_plan_matches(p, request),
        },
{
    let thread_id = normalize_thread_id(request.thread_id.as_str())?;
    let idempotency_key = normalize_idempotency_key(request.idempotency_key.as_str())?;
    let from_agent_id = normalize_agent_id(request.from_agent_id.as_str(), "from_agent_id must not be empty")?;
    let to_agent_id = match &request.to_agent_id {
        None => None,
        Some(a) => Some(normalize_agent_id(a.as_str(), "to_agent_id must not be empty")?),
    };
    let kind = normalize_kind(request.kind.as_str())?;
    let summary = normalize_summary(request.summary.as_str())?;
    let refs = match normalize_refs(request.refs.clone()) {
        Ok(v) => v,
        Err(_) => Vec::new(),
    };
    let refs_json = super::anchors::encode_json_string_list(refs.as_slice());
    let payload_json = match &request.payload_json {
        None => None,
        Some(raw) => {
            let t = trim_str(raw.as_str());
            if t.len() == 0 {
                None
            } else {
                let text = string_of(t.as_slice());
                if !json_value_parses(text.as_str()) {
                    return Err(StoreError::InvalidInput("payload_json: expected valid JSON"));
                }
                Some(text)
            }
        },
    };
    Ok(
        JobBusPublishPlan {
            thread_id,
            idempotency_key,
            from_agent_id,
            from_job_id: request.from_job_id,
            to_agent_id,
            kind,
            summary,
            refs,
            refs_json,
            payload_json,
        },
    )
}

/// The page size of a pull: at least one message, at most 200.
pub fn pull_limit(limit: usize) -> (r: usize)
    ensures
        r == if limit < 1 {
            1
        } else if limit > MAX_PULL_LIMIT {
            MAX_PULL_LIMIT
        } else {
            limit
        },
{
    if limit < 1 {
        1
    } else if limit > MAX_PULL_LIMIT {
        MAX_PULL_LIMIT
    } else {
        limit
    }
}

/// Where a pull starts: after the sequence number it is given, else after the consumer's
/// stored offset, else from the start.
pub open spec fn pull_start_spec(after_seq: Option<i64>, stored: Option<i64>) -> i64 {
    match after_seq {
        Some(a) => a,
        None => match stored {
            Some(s) => s,
            None => 0,
        },
    }
}

pub fn pull_start(after_seq: Option<i64>, stored: Option<i64>) -> (r: i64)
    ensures
        r == pull_start_spec(after_seq, stored),
{
    match after_seq {
        Some(a) => a,
        None => match stored {
            Some(s) => s,
            None => 0,
        },
    }
}

/// One pulled page: `fetched` holds up to `limit + 1` messages after `after_seq`, oldest
/// first. At most `limit` are returned, whether there were more is said, and the next pull
/// continues after the last one returned (or where this one started, when none was).
pub fn pull_page(fetched: Vec<JobBusMessageRow>, limit: usize, after_seq: i64) -> (r: (
    Vec<JobBusMessageRow>,
    i64,
    bool,
))
    ensures
        r.2 == (fetched@.len() > limit),
        r.0@ == if fetched@.len() > limit {
            fetched@.subrange(0, limit as int)
        } else {
            fetched@
        },
        r.1 == if r.0@.len() > 0 {
            r.0@.last().seq
        } else {
            after_seq
        },
{
    let has_more = fetched.len() > limit;
    let mut kept = fetched;
    if has_more {
        kept.truncate(limit);
    }
    let next = if kept.len() > 0 {
        kept[kept.len() - 1].seq
    } else {
        after_seq
    };
    (kept, next, has_more)
}

/// The offset stored by an acknowledgement: it never moves back, and never below zero.
pub open spec fn ack_offset_spec(existing: Option<i64>, after_seq: i64) -> i64 {
    let e: i64 = match existing {
        Some(v) => v,
        None => 0,
    };
    let a: i64 = if after_seq < 0 {
        0
    } else {
        after_seq
    };
    if e >= a {
        e
    } else {
        a
    }
}

pub fn ack_offset(existing: Option<i64>, after_seq: i64) -> (r: i64)
    ensures
        r == ack_offset_spec(existing, after_seq),
{
    let e: i64 = match existing {
        Some(v) => v,
        None => 0,
    };
    let a: i64 = if after_seq < 0 {
        0
    } else {
        after_seq
    };
    if e >= a {
        e
    } else {
        a
    }
}

/// Acknowledgements only move a consumer forward: the stored offset never decreases, covers
/// what was acknowledged, and a later pull without an explicit start resumes from it.
pub proof fn lemma_ack_moves_forward(existing: Option<i64>, after_seq: i64)
    ensures
        ack_offset_spec(existing, after_seq) >= match existing {
            Some(v) => v,
            None => 0,
        },
        ack_offset_spec(existing, after_seq) >= after_seq,
        pull_start_spec(None, Some(ack_offset_spec(existing, after_seq))) == ack_offset_spec(
            existing,
            after_seq,
        ),
        ack_offset_spec(Some(ack_offset_spec(existing, after_seq)), after_seq) == ack_offset_spec(
            existing,
            after_seq,
        ),
{
}

/// The most threads one status request looks at; the ones after it are dropped.
pub const MAX_THREADS_STATUS: usize = 80;

/// A consumer asking where it stands on some threads.
#[derive(Clone, Debug)]
pub struct JobBusThreadStatusRequest {
    pub consumer_id: String,
    pub thread_ids: Vec<String>,
}

/// The normalized consumer and the threads looked at, sorted and once each.
#[derive(Clone, Debug)]
pub struct JobBusThreadStatusPlan {
    pub consumer_id: String,
    pub thread_ids: Vec<String>,
}

/// The set of normalized thread ids of `ids`, or the refusal of the first one that is not a
/// thread id.
pub open spec fn thread_ids_outcome(ids: Seq<Seq<char>>) -> Result<Set<Seq<char>>, Seq<char>>
    decreases ids.len(),
{
    if ids.len() == 0 {
        Ok(Set::empty())
    } else {
        match thread_ids_outcome(ids.drop_last()) {
            Err(m) => Err(m),
            Ok(set) => match thread_id_spec(ids.last()) {
                Err(m) => Err(m),
                Ok(t) => Ok(set.insert(t)),
            },
        }
    }
}

/// A status request: the consumer id is checked first, then the first 80 thread ids in
/// their order; what is looked at is their normalized set, sorted.
pub fn plan_thread_statuses(request: &JobBusThreadStatusRequest) -> (r: Result<
    JobBusThreadStatusPlan,
    StoreError,
>)
    ensures
        ({
            let consumer = bounded_trimmed_spec(
                request.consumer_id@,
                MAX_AGENT_ID_LEN as nat,
                "consumer_id must not be empty"@,
                "agent id too long"@,
            );
            let ids = strs(request.thread_ids@);
            let looked_at = if ids.len() > MAX_THREADS_STATUS {
                ids.take(MAX_THREADS_STATUS as int)
            } else {
                ids
            };
            match (consumer, thread_ids_outcome(looked_at)) {
                (Err(m), _) => r matches Err(StoreError::InvalidInput(x)) && x@ == m,
                (Ok(_), Err(m)) => r matches Err(StoreError::InvalidInput(x)) && x@ == m,
                (Ok(c), Ok(set)) => r matches Ok(p) && p.consumer_id@ == c && sorted_strict(
                    strs(p.thread_ids@),
                ) && strs(p.thread_ids@).to_set() == set,
            }
        }),
{
    let consumer_id = normalize_agent_id(request.consumer_id.as_str(), "consumer_id must not be empty")?;
    let ghost ids = strs(request.thread_ids@);
    let n = if request.thread_ids.len() > MAX_THREADS_STATUS {
        MAX_THREADS_STATUS
    } else {
        request.thread_ids.len()
    };
    let ghost looked_at = ids.take(n as int);
    proof {
        if ids.len() <= MAX_THREADS_STATUS {
            assert(looked_at =~= ids);
        }
    }
    let mut normalized: Vec<Vec<char>> = Vec::new();
    let mut i: usize = 0;
    while i < n
        invariant
            n <= request.thread_ids@.len(),
            ids == strs(request.thread_ids@),
            looked_at == ids.take(n as int),
            looked_at == (if ids.len() > MAX_THREADS_STATUS {
                ids.take(MAX_THREADS_STATUS as int)
            } else {
                ids
            }),
            bounded_trimmed_spec(
                request.consumer_id@,
                MAX_AGENT_ID_LEN as nat,
                "consumer_id must not be empty"@,
                "agent id too long"@,
            ) == Ok::<Seq<char>, Seq<char>>(consumer_id@),
            i <= n,
            thread_ids_outcome(looked_at.take(i as int)) matches Ok(set) && seqs(normalized@).to_set()
                == set,
        decreases n - i,
    {
        proof {
            assert(looked_at.take(i as int + 1).drop_last() =~= looked_at.take(i as int));
            assert(looked_at.take(i as int + 1).last() == request.thread_ids@[i as int]@);
        }
        let t = match normalize_thread_id(request.thread_ids[i].as_str()) {
            Ok(t) => t,
            Err(e) => {
                proof {
                    let k = i as int + 1;
                    let raw = request.thread_ids@[i as int]@;
                    assert(thread_id_spec(raw) is Err);
                    assert(thread_ids_outcome(looked_at.take(k)) == Err::<Set<Seq<char>>, Seq<char>>(
                        thread_id_spec(raw)->Err_0,
                    ));
                    lemma_thread_ids_outcome_err_sticks(looked_at, k);
                }
                return Err(e);
            },
        };
        let ghost before = seqs(normalized@);
        normalized.push(chars_of(t.as_str()));
        proof {
            assert(seqs(normalized@) =~= before.push(t@));
            assert forall|x: Seq<char>| seqs(normalized@).to_set().contains(x) <==> before.to_set().insert(
                t@,
            ).contains(x) by {
                if seqs(normalized@).contains(x) && x != t@ {
                    let j = choose|j: int| 0 <= j < seqs(normalized@).len() && seqs(normalized@)[j] == x;
                    assert(before[j] == x);
                }
                if before.contains(x) {
                    let j = choose|j: int| 0 <= j < before.len() && before[j] == x;
                    assert(seqs(normalized@)[j] == x);
                }
                if x == t@ {
                    assert(seqs(normalized@)[before.len() as int] == x);
                }
            }
            assert(seqs(normalized@).to_set() =~= before.to_set().insert(t@));
        }
        i = i + 1;
    }
    proof {
        assert(looked_at.take(n as int) =~= looked_at);
    }
    let sorted = sort_dedup(normalized);
    let thread_ids = strings_of(&sorted);
    Ok(JobBusThreadStatusPlan { consumer_id, thread_ids })
}

/// Once a prefix of the thread ids is refused, every longer prefix is refused with the same
/// message.
proof fn lemma_thread_ids_outcome_err_sticks(ids: Seq<Seq<char>>, k: int)
    requires
        0 < k <= ids.len(),
        thread_ids_outcome(ids.take(k)) is Err,
    ensures
        thread_ids_outcome(ids) == thread_ids_outcome(ids.take(k)),
    decreases ids.len() - k,
{
    if k < ids.len() {
        assert(ids.take(k + 1).drop_last() =~= ids.take(k));
        lemma_thread_ids_outcome_err_sticks(ids, k + 1);
    } else {
        assert(ids.take(k) =~= ids);
    }
}

} // verus!
