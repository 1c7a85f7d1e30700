//! Rows and results exchanged with callers of the store.

use vstd::prelude::*;

use crate::num::{
    all_digits, dec_digits, dec_int_padded, digits_value, i64_to_dec_padded, lemma_dec_digits_all_digits,
    lemma_digits_value_zeros_prefix, parse_i64, parse_i64_spec, zeros,
};
use crate::text::{append_str, chars_of, has_prefix, starts_with_str, string_of, sub_chars};

verus! {

broadcast use vstd::string::group_string_axioms;

#[derive(Clone, Debug)]
pub struct PlanRow {
    pub id: String,
    pub revision: i64,
    pub title: String,
    pub contract: Option<String>,
    pub contract_json: Option<String>,
    pub created_at_ms: i64,
    pub updated_at_ms: i64,
}

#[derive(Clone, Debug)]
pub struct TaskRow {
    pub id: String,
    pub revision: i64,
    pub parent_plan_id: String,
    pub title: String,
    pub description: Option<String>,
    pub created_at_ms: i64,
    pub updated_at_ms: i64,
}

#[derive(Clone, Debug)]
pub struct ReasoningRefRow {
    pub branch: String,
    pub notes_doc: String,
    pub graph_doc: String,
    pub trace_doc: String,
}

#[derive(Clone, Debug)]
pub struct BranchInfo {
    pub name: String,
    pub base_branch: Option<String>,
    pub base_seq: Option<i64>,
    pub created_at_ms: Option<i64>,
}

#[derive(Clone, Copy, Debug, PartialEq, Eq, Structural)]
pub enum DocumentKind {
    Notes,
    Trace,
    Graph,
}

impl DocumentKind {
    pub fn as_str(self) -> (r: &'static str)
        ensures
            r@ == match self {
                DocumentKind::Notes => "notes"@,
                DocumentKind::Trace => "trace"@,
                DocumentKind::Graph => "graph"@,
            },
    {
        match self {
            DocumentKind::Notes => "notes",
            DocumentKind::Trace => "trace",
            DocumentKind::Graph => "graph",
        }
    }
}

#[derive(Clone, Copy, Debug, PartialEq, Eq, Structural)]
pub enum DocEntryKind {
    Note,
    Event,
}

impl DocEntryKind {
    pub fn as_str(self) -> (r: &'static str)
        ensures
            r@ == match self {
                DocEntryKind::Note => "note"@,
                DocEntryKind::Event => "event"@,
            },
    {
        match self {
            DocEntryKind::Note => "note",
            DocEntryKind::Event => "event",
        }
    }
}

#[derive(Clone, Debug)]
pub struct DocEntryRow {
    pub seq: i64,
    pub ts_ms: i64,
    pub branch: String,
    pub doc: String,
    pub kind: DocEntryKind,
    pub title: Option<String>,
    pub format: Option<String>,
    pub meta_json: Option<String>,
    pub content: Option<String>,
    pub source_event_id: Option<String>,
    pub event_type: Option<String>,
    pub task_id: Option<String>,
    pub path: Option<String>,
    pub payload_json: Option<String>,
}

#[derive(Clone, Debug)]
pub struct DocSlice {
    pub entries: Vec<DocEntryRow>,
    pub next_cursor: Option<i64>,
    pub has_more: bool,
}

#[derive(Clone, Debug)]
pub struct MergeNotesResult {
    pub merged: usize,
    pub skipped: usize,
    pub count: usize,
    pub next_cursor: Option<i64>,
    pub has_more: bool,
}

#[derive(Clone, Debug)]
pub struct ThinkCardInput {
    pub card_id: String,
    pub card_type: String,
    pub title: Option<String>,
    pub text: Option<String>,
    pub status: Option<String>,
    pub tags: Vec<String>,
    pub meta_json: Option<String>,
    pub content: String,
    pub payload_json: String,
}

#[derive(Clone, Debug)]
pub struct ThinkCardCommitResult {
    pub inserted: bool,
    pub nodes_upserted: usize,
    pub edges_upserted: usize,
    pub last_seq: Option<i64>,
}

#[derive(Clone, Debug)]
pub struct StepRef {
    pub step_id: String,
    pub path: String,
}

#[derive(Clone, Debug)]
pub struct StepOpResult {
    pub task_revision: i64,
    pub step: StepRef,
    pub event: EventRow,
}

#[derive(Clone, Debug)]
pub struct StepCloseResult {
    pub task_revision: i64,
    pub step: StepRef,
    pub events: Vec<EventRow>,
}

#[derive(Clone, Debug)]
pub struct DecomposeResult {
    pub task_revision: i64,
    pub steps: Vec<StepRef>,
    pub event: EventRow,
}

#[derive(Clone, Debug)]
pub struct NewStep {
    pub title: String,
    pub success_criteria: Vec<String>,
}

#[derive(Clone, Debug)]
pub struct StepStatus {
    pub step_id: String,
    pub path: String,
    pub title: String,
    pub criteria_confirmed: bool,
    pub tests_confirmed: bool,
    pub completed: bool,
}

#[derive(Clone, Debug)]
pub struct TaskStepSummary {
    pub total_steps: i64,
    pub completed_steps: i64,
    pub open_steps: i64,
    pub missing_criteria: i64,
    pub missing_tests: i64,
    pub first_open: Option<StepStatus>,
}

#[derive(Clone, Debug)]
pub struct EventRow {
    pub seq: i64,
    pub ts_ms: i64,
    pub task_id: Option<String>,
    pub path: Option<String>,
    pub event_type: String,
    pub payload_json: String,
}

/// The public id of the event with sequence number `seq`: `evt_` and `seq` zero-padded to 16.
pub open spec fn event_id_seq(seq: int) -> Seq<char> {
    "evt_"@ + dec_int_padded(seq, 16)
}

impl EventRow {
    pub fn event_id(&self) -> (r: String)
        ensures
            r@ == event_id_seq(self.seq as int),
    {
        let mut out: Vec<char> = Vec::new();
        append_str(&mut out, "evt_");
        let d = i64_to_dec_padded(self.seq, 16);
        crate::text::append_chars(&mut out, d.as_slice());
        string_of(out.as_slice())
    }
}

/// The sequence number named by an event id, when it is `evt_` followed by an `i64`.
pub open spec fn parse_event_id_spec(event_id: Seq<char>) -> Option<i64> {
    if has_prefix(event_id, "evt_"@) {
        parse_i64_spec(event_id.skip(4))
    } else {
        None
    }
}

pub fn parse_event_id(event_id: &str) -> (r: Option<i64>)
    ensures
        r == parse_event_id_spec(event_id@),
{
    let v = chars_of(event_id);
    if !starts_with_str(v.as_slice(), "evt_") {
        return None;
    }
    proof {
        reveal_strlit("evt_");
    }
    let digits = sub_chars(v.as_slice(), 4, v.len());
    assert(digits@ =~= v@.skip(4));
    parse_i64(digits.as_slice())
}

/// `str::parse::<i64>` reads back what `format!("{:0w$}")` wrote.
pub proof fn lemma_parse_padded(x: i64, w: nat)
    ensures
        parse_i64_spec(dec_int_padded(x as int, w)) == Some(x),
{
    let m: nat = if x < 0 {
        (-(x as int)) as nat
    } else {
        x as nat
    };
    let d = dec_digits(m);
    lemma_dec_digits_all_digits(m);
    let sign: Seq<char> = if x < 0 {
        seq!['-']
    } else {
        Seq::empty()
    };
    let fill: int = w - sign.len() - d.len();
    let body = if fill > 0 {
        zeros(fill as nat) + d
    } else {
        d
    };
    if fill > 0 {
        lemma_digits_value_zeros_prefix(fill as nat, d);
    }
    assert(all_digits(body));
    assert(digits_value(body) == m);
    let s = dec_int_padded(x as int, w);
    if fill > 0 {
        assert(s =~= sign + zeros(fill as nat) + d);
    } else {
        assert(s =~= sign + d);
    }
    assert(s =~= sign + body);
    assert('0' <= body[0] <= '9');
    if x < 0 {
        assert(s[0] == '-');
        assert(s.drop_first() =~= body);
    } else {
        assert(s =~= body);
        assert(s[0] != '-' && s[0] != '+');
    }
}

/// Reading an event id gives back the sequence number it was made from.
pub proof fn lemma_event_id_roundtrip(seq: i64)
    ensures
        parse_event_id_spec(event_id_seq(seq as int)) == Some(seq),
{
    reveal_strlit("evt_");
    let s = event_id_seq(seq as int);
    assert(s.take(4) =~= "evt_"@);
    assert(s.skip(4) =~= dec_int_padded(seq as int, 16));
    lemma_parse_padded(seq, 16);
}

} // verus!
