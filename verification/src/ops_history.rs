//! Undo and redo over the operations history: which recorded operation is taken back or
//! replayed, which snapshot is restored, and what restoring each kind of snapshot writes.

use vstd::prelude::*;

use crate::error::StoreError;
use crate::graph::opt_view;
use crate::snapshot::{
    bool_field, fails_with, json_field, list_field, opt_int_field, opt_str_field, or_err,
    snapshot_optional_json_string, snapshot_optional_i64, snapshot_optional_string,
    snapshot_fields_view, snapshot_from_text, snapshot_of_text, snapshot_required_bool,
    snapshot_required_str, snapshot_required_vec, str_field, Snapshot, SnapshotField,
};
use crate::text::{chars_eq_str, chars_of, string_of, strs};

verus! {

broadcast use vstd::string::group_string_axioms;

/// A recorded operation: what it did, the snapshots before and after it, and whether it can
/// be undone and has been.
#[derive(Clone, Debug)]
pub struct OpsHistoryRow {
    pub seq: i64,
    pub ts_ms: i64,
    pub task_id: Option<String>,
    pub path: Option<String>,
    pub intent: String,
    pub payload_json: String,
    pub before_json: Option<String>,
    pub after_json: Option<String>,
    pub undoable: bool,
    pub undone: bool,
}

/// The `undone` mark of the operations a request looks for: an undo takes back the newest
/// operation not yet undone, a redo replays the newest undone one.
pub open spec fn sought_undone_spec(undo: bool) -> bool {
    !undo
}

pub fn sought_undone(undo: bool) -> (r: bool)
    ensures
        r == sought_undone_spec(undo),
{
    !undo
}

/// The snapshot an undo or redo restores: the one taken before the operation for an undo,
/// after it for a redo.
pub open spec fn restored_snapshot(row: OpsHistoryRow, undo: bool) -> Option<Seq<char>> {
    if undo {
        opt_view(row.before_json)
    } else {
        opt_view(row.after_json)
    }
}

pub fn snapshot_text_for(row: &OpsHistoryRow, undo: bool) -> (r: Result<String, StoreError>)
    ensures
        match restored_snapshot(*row, undo) {
            Some(t) => r matches Ok(x) && x@ == t,
            None => fails_with(r, "snapshot missing"@),
        },
{
    let chosen = if undo {
        &row.before_json
    } else {
        &row.after_json
    };
    match chosen {
        Some(t) => Ok(string_of(chars_of(t.as_str()).as_slice())),
        None => Err(StoreError::InvalidInput("snapshot missing")),
    }
}

/// The snapshot an undo or redo restores, read from its stored JSON text: refused when the
/// row holds none, or when the text is not JSON.
pub fn parse_snapshot_from_row(row: &OpsHistoryRow, undo: bool) -> (r: Result<Snapshot, StoreError>)
    ensures
        match restored_snapshot(*row, undo) {
            None => fails_with(r, "snapshot missing"@),
            Some(t) => match snapshot_of_text(t) {
                None => fails_with(r, "snapshot invalid"@),
                Some(fs) => r matches Ok(s) && snapshot_fields_view(s) == fs,
            },
        },
{
    let text = snapshot_text_for(row, undo)?;
    match snapshot_from_text(text.as_str()) {
        Some(s) => Ok(s),
        None => Err(StoreError::InvalidInput("snapshot invalid")),
    }
}

/// The row once the undo or redo is done: marked undone by an undo, not undone by a redo.
pub fn applied_row(row: OpsHistoryRow, undo: bool) -> (r: OpsHistoryRow)
    ensures
        r == (OpsHistoryRow { undone: undo, ..row }),
{
    OpsHistoryRow { undone: undo, ..row }
}

/// The type of the event an undo or redo records.
pub fn applied_event_type(undo: bool) -> (r: &'static str)
    ensures
        r@ == (if undo {
            "undo_applied"@
        } else {
            "redo_applied"@
        }),
{
    if undo {
        "undo_applied"
    } else {
        "redo_applied"
    }
}

/// Undo and redo take turns on an operation: once an operation has been undone it is one a
/// redo looks for (and no longer one an undo looks for), and once it has been redone it is
/// one an undo looks for again; the undo restores the snapshot from before the operation and
/// the redo the one from after it.
pub proof fn lemma_undo_then_redo(row: OpsHistoryRow)
    requires
        row.undone == sought_undone_spec(true),
    ensures
        ({
            let undone = OpsHistoryRow { undone: true, ..row };
            let redone = OpsHistoryRow { undone: false, ..undone };
            &&& undone.undone == sought_undone_spec(false)
            &&& undone.undone != sought_undone_spec(true)
            &&& redone.undone == sought_undone_spec(true)
            &&& restored_snapshot(row, true) == opt_view(row.before_json)
            &&& restored_snapshot(undone, false) == opt_view(row.after_json)
            &&& redone == row
        }),
{
}

/// The kinds of operation whose snapshots can be restored.
#[derive(Clone, Copy, Debug, PartialEq, Eq, Structural)]
pub enum SnapshotIntent {
    TaskDetailPatch,
    StepPatch,
    StepProgress,
    StepBlockSet,
    TaskNodePatch,
}

pub open spec fn intent_spec(intent: Seq<char>) -> Option<SnapshotIntent> {
    if intent == "task_detail_patch"@ {
        Some(SnapshotIntent::TaskDetailPatch)
    } else if intent == "step_patch"@ {
        Some(SnapshotIntent::StepPatch)
    } else if intent == "step_progress"@ {
        Some(SnapshotIntent::StepProgress)
    } else if intent == "step_block_set"@ {
        Some(SnapshotIntent::StepBlockSet)
    } else if intent == "task_node_patch"@ {
        Some(SnapshotIntent::TaskNodePatch)
    } else {
        None
    }
}

/// The kind of snapshot an operation recorded; other operations cannot be undone.
pub fn snapshot_intent(intent: &str) -> (r: Result<SnapshotIntent, StoreError>)
    ensures
        match intent_spec(intent@) {
            Some(k) => r == Ok::<SnapshotIntent, StoreError>(k),
            None => fails_with(r, "undo not supported for intent"@),
        },
{
    let v = chars_of(intent);
    let s = v.as_slice();
    if chars_eq_str(s, "task_detail_patch") {
        Ok(SnapshotIntent::TaskDetailPatch)
    } else if chars_eq_str(s, "step_patch") {
        Ok(SnapshotIntent::StepPatch)
    } else if chars_eq_str(s, "step_progress") {
        Ok(SnapshotIntent::StepProgress)
    } else if chars_eq_str(s, "step_block_set") {
        Ok(SnapshotIntent::StepBlockSet)
    } else if chars_eq_str(s, "task_node_patch") {
        Ok(SnapshotIntent::TaskNodePatch)
    } else {
        Err(StoreError::InvalidInput("undo not supported for intent"))
    }
}

// ---------------------------------------------------------------------------------------
// Step block

/// A step's block state as a snapshot records it.
#[derive(Debug)]
pub struct StepBlockSnapshot {
    pub task_id: String,
    pub step_id: String,
    pub path: String,
    pub blocked: bool,
    pub block_reason: Option<String>,
}

pub open spec fn step_block_error(f: Seq<SnapshotField>) -> Option<Seq<char>> {
    or_err(str_field(f, "task"@), or_err(str_field(f, "step_id"@), or_err(str_field(f, "path"@),
    or_err(bool_field(f, "blocked"@), or_err(opt_str_field(f, "block_reason"@), None)))))
}

pub open spec fn step_block_read(p: StepBlockSnapshot, f: Seq<SnapshotField>) -> bool {
    &&& str_field(f, "task"@) == Ok::<Seq<char>, Seq<char>>(p.task_id@)
    &&& str_field(f, "step_id"@) == Ok::<Seq<char>, Seq<char>>(p.step_id@)
    &&& str_field(f, "path"@) == Ok::<Seq<char>, Seq<char>>(p.path@)
    &&& bool_field(f, "blocked"@) == Ok::<bool, Seq<char>>(p.blocked)
    &&& opt_str_field(f, "block_reason"@) == Ok::<Option<Seq<char>>, Seq<char>>(
        opt_view(p.block_reason),
    )
}

/// Reads a step-block snapshot; the first field that is missing or of the wrong kind decides
/// the error.
pub fn read_step_block(s: &Snapshot) -> (r: Result<StepBlockSnapshot, StoreError>)
    ensures
        match step_block_error(s.fields@) {
            Some(m) => fails_with(r, m),
            None => r matches Ok(p) && step_block_read(p, s.fields@),
        },
{
    let task_id = snapshot_required_str(s, "task")?;
    let step_id = snapshot_required_str(s, "step_id")?;
    let path = snapshot_required_str(s, "path")?;
    let blocked = snapshot_required_bool(s, "blocked")?;
    let block_reason = snapshot_optional_string(s, "block_reason")?;
    Ok(StepBlockSnapshot { task_id, step_id, path, blocked, block_reason })
}

/// The block reason restored with a block state: kept only while the step is blocked.
pub fn restored_block_reason(p: &StepBlockSnapshot) -> (r: Option<String>)
    ensures
        opt_view(r) == if p.blocked {
            opt_view(p.block_reason)
        } else {
            None
        },
{
    if p.blocked {
        match &p.block_reason {
            Some(t) => Some(string_of(chars_of(t.as_str()).as_slice())),
            None => None,
        }
    } else {
        None
    }
}

// ---------------------------------------------------------------------------------------
// Step progress

/// A step's completion as a snapshot records it.
#[derive(Debug)]
pub struct StepProgressSnapshot {
    pub task_id: String,
    pub step_id: String,
    pub path: String,
    pub completed: bool,
    pub completed_at_ms: Option<i64>,
}

pub open spec fn step_progress_error(f: Seq<SnapshotField>) -> Option<Seq<char>> {
    or_err(str_field(f, "task"@), or_err(str_field(f, "step_id"@), or_err(str_field(f, "path"@),
    or_err(bool_field(f, "completed"@), or_err(opt_int_field(f, "completed_at_ms"@), None)))))
}

pub open spec fn step_progress_read(p: StepProgressSnapshot, f: Seq<SnapshotField>) -> bool {
    &&& str_field(f, "task"@) == Ok::<Seq<char>, Seq<char>>(p.task_id@)
    &&& str_field(f, "step_id"@) == Ok::<Seq<char>, Seq<char>>(p.step_id@)
    &&& str_field(f, "path"@) == Ok::<Seq<char>, Seq<char>>(p.path@)
    &&& bool_field(f, "completed"@) == Ok::<bool, Seq<char>>(p.completed)
    &&& opt_int_field(f, "completed_at_ms"@) == Ok::<Option<i64>, Seq<char>>(p.completed_at_ms)
}

/// Reads a step-progress snapshot; the first field that is missing or of the wrong kind
/// decides the error.
pub fn read_step_progress(s: &Snapshot) -> (r: Result<StepProgressSnapshot, StoreError>)
    ensures
        match step_progress_error(s.fields@) {
            Some(m) => fails_with(r, m),
            None => r matches Ok(p) && step_progress_read(p, s.fields@),
        },
{
    let task_id = snapshot_required_str(s, "task")?;
    let step_id = snapshot_required_str(s, "step_id")?;
    let path = snapshot_required_str(s, "path")?;
    let completed = snapshot_required_bool(s, "completed")?;
    let completed_at_ms = snapshot_optional_i64(s, "completed_at_ms")?;
    Ok(StepProgressSnapshot { task_id, step_id, path, completed, completed_at_ms })
}

/// The completion time restored with a completion state: a completed step gets the recorded
/// time, or `now_ms` when none was recorded; an open step gets none.
pub fn restored_completed_at(p: &StepProgressSnapshot, now_ms: i64) -> (r: Option<i64>)
    ensures
        r == if p.completed {
            Some(
                match p.completed_at_ms {
                    Some(t) => t,
                    None => now_ms,
                },
            )
        } else {
            None::<i64>
        },
{
    if p.completed {
        Some(
            match p.completed_at_ms {
                Some(t) => t,
                None => now_ms,
            },
        )
    } else {
        None
    }
}

// ---------------------------------------------------------------------------------------
// Task node

/// A task node as a snapshot records it.
#[derive(Debug)]
pub struct TaskNodeSnapshot {
    pub task_id: String,
    pub node_id: String,
    pub title: String,
    pub status: String,
    pub status_manual: bool,
    pub priority: String,
    pub blocked: bool,
    pub description: Option<String>,
    pub context: Option<String>,
    pub blockers: Vec<String>,
    pub dependencies: Vec<String>,
    pub next_steps: Vec<String>,
    pub problems: Vec<String>,
    pub risks: Vec<String>,
    pub success_criteria: Vec<String>,
}

pub open spec fn task_node_error(f: Seq<SnapshotField>) -> Option<Seq<char>> {
    or_err(str_field(f, "task"@), or_err(str_field(f, "node_id"@), or_err(str_field(f, "title"@),
    or_err(str_field(f, "status"@), or_err(bool_field(f, "status_manual"@), or_err(str_field(
    f, "priority"@), or_err(bool_field(f, "blocked"@), or_err(opt_str_field(f, "description"@),
    or_err(opt_str_field(f, "context"@), or_err(list_field(f, "blockers"@), or_err(list_field(
    f, "dependencies"@), or_err(list_field(f, "next_steps"@), or_err(list_field(f, "problems"@),
    or_err(list_field(f, "risks"@), or_err(list_field(f, "success_criteria"@), None)))))))))))))))
}

pub open spec fn task_node_read(p: TaskNodeSnapshot, f: Seq<SnapshotField>) -> bool {
    &&& str_field(f, "task"@) == Ok::<Seq<char>, Seq<char>>(p.task_id@)
    &&& str_field(f, "node_id"@) == Ok::<Seq<char>, Seq<char>>(p.node_id@)
    &&& str_field(f, "title"@) == Ok::<Seq<char>, Seq<char>>(p.title@)
    &&& str_field(f, "status"@) == Ok::<Seq<char>, Seq<char>>(p.status@)
    &&& bool_field(f, "status_manual"@) == Ok::<bool, Seq<char>>(p.status_manual)
    &&& str_field(f, "priority"@) == Ok::<Seq<char>, Seq<char>>(p.priority@)
    &&& bool_field(f, "blocked"@) == Ok::<bool, Seq<char>>(p.blocked)
    &&& opt_str_field(f, "description"@) == Ok::<Option<Seq<char>>, Seq<char>>(
        opt_view(p.description),
    )
    &&& opt_str_field(f, "context"@) == Ok::<Option<Seq<char>>, Seq<char>>(opt_view(p.context))
    &&& list_field(f, "blockers"@) == Ok::<Seq<Seq<char>>, Seq<char>>(strs(p.blockers@))
    &&& list_field(f, "dependencies"@) == Ok::<Seq<Seq<char>>, Seq<char>>(strs(p.dependencies@))
    &&& list_field(f, "next_steps"@) == Ok::<Seq<Seq<char>>, Seq<char>>(strs(p.next_steps@))
    &&& list_field(f, "problems"@) == Ok::<Seq<Seq<char>>, Seq<char>>(strs(p.problems@))
    &&& list_field(f, "risks"@) == Ok::<Seq<Seq<char>>, Seq<char>>(strs(p.risks@))
    &&& list_field(f, "success_criteria"@) == Ok::<Seq<Seq<char>>, Seq<char>>(
        strs(p.success_criteria@),
    )
}

/// Reads a task-node snapshot; the first field that is missing or of the wrong kind decides
/// the error.
pub fn read_task_node(s: &Snapshot) -> (r: Result<TaskNodeSnapshot, StoreError>)
    ensures
        match task_node_error(s.fields@) {
            Some(m) => fails_with(r, m),
            None => r matches Ok(p) && task_node_read(p, s.fields@),
        },
{
    let task_id = snapshot_required_str(s, "task")?;
    let node_id = snapshot_required_str(s, "node_id")?;
    let title = snapshot_required_str(s, "title")?;
    let status = snapshot_required_str(s, "status")?;
    let status_manual = snapshot_required_bool(s, "status_manual")?;
    let priority = snapshot_required_str(s, "priority")?;
    let blocked = snapshot_required_bool(s, "blocked")?;
    let description = snapshot_optional_string(s, "description")?;
    let context = snapshot_optional_string(s, "context")?;
    let blockers = snapshot_required_vec(s, "blockers")?;
    let dependencies = snapshot_required_vec(s, "dependencies")?;
    let next_steps = snapshot_required_vec(s, "next_steps")?;
    let problems = snapshot_required_vec(s, "problems")?;
    let risks = snapshot_required_vec(s, "risks")?;
    let success_criteria = snapshot_required_vec(s, "success_criteria")?;
    Ok(
        TaskNodeSnapshot {
            task_id,
            node_id,
            title,
            status,
            status_manual,
            priority,
            blocked,
            description,
            context,
            blockers,
            dependencies,
            next_steps,
            problems,
            risks,
            success_criteria,
        },
    )
}

// ---------------------------------------------------------------------------------------
// Task detail

/// Whether a detail snapshot is of a plan or of a task.
#[derive(Clone, Copy, Debug, PartialEq, Eq, Structural)]
pub enum DetailKind {
    Plan,
    Task,
}

/// A plan's or task's details as a snapshot records them.
#[derive(Debug)]
pub struct TaskDetailSnapshot {
    pub kind: DetailKind,
    pub task_id: String,
    pub title: String,
    pub description: Option<String>,
    pub context: Option<String>,
    pub priority: String,
    pub contract: Option<String>,
    pub contract_json: Option<String>,
    pub domain: Option<String>,
    pub phase: Option<String>,
    pub component: Option<String>,
    pub assignee: Option<String>,
    pub tags: Vec<String>,
    pub depends_on: Vec<String>,
}

/// The kind field: `plan` or `task`.
pub open spec fn detail_kind_field(f: Seq<SnapshotField>) -> Result<DetailKind, Seq<char>> {
    match str_field(f, "kind"@) {
        Err(m) => Err(m),
        Ok(k) => if k == "plan"@ {
            Ok(DetailKind::Plan)
        } else if k == "task"@ {
            Ok(DetailKind::Task)
        } else {
            Err("snapshot kind invalid"@)
        },
    }
}

pub open spec fn task_detail_error(f: Seq<SnapshotField>) -> Option<Seq<char>> {
    or_err(detail_kind_field(f), or_err(str_field(f, "task"@), or_err(str_field(f, "title"@),
    or_err(opt_str_field(f, "description"@), or_err(opt_str_field(f, "context"@), or_err(str_field(
    f, "priority"@), or_err(opt_str_field(f, "contract"@), or_err(opt_str_field(f, "domain"@),
    or_err(opt_str_field(f, "phase"@), or_err(opt_str_field(f, "component"@), or_err(opt_str_field(
    f, "assignee"@), or_err(list_field(f, "tags"@), or_err(list_field(f, "depends_on"@),
    None)))))))))))))
}

pub open spec fn task_detail_read(p: TaskDetailSnapshot, f: Seq<SnapshotField>) -> bool {
    &&& detail_kind_field(f) == Ok::<DetailKind, Seq<char>>(p.kind)
    &&& str_field(f, "task"@) == Ok::<Seq<char>, Seq<char>>(p.task_id@)
    &&& str_field(f, "title"@) == Ok::<Seq<char>, Seq<char>>(p.title@)
    &&& opt_str_field(f, "description"@) == Ok::<Option<Seq<char>>, Seq<char>>(
        opt_view(p.description),
    )
    &&& opt_str_field(f, "context"@) == Ok::<Option<Seq<char>>, Seq<char>>(opt_view(p.context))
    &&& str_field(f, "priority"@) == Ok::<Seq<char>, Seq<char>>(p.priority@)
    &&& opt_str_field(f, "contract"@) == Ok::<Option<Seq<char>>, Seq<char>>(opt_view(p.contract))
    &&& json_field(f, "contract_data"@) == opt_view(p.contract_json)
    &&& opt_str_field(f, "domain"@) == Ok::<Option<Seq<char>>, Seq<char>>(opt_view(p.domain))
    &&& opt_str_field(f, "phase"@) == Ok::<Option<Seq<char>>, Seq<char>>(opt_view(p.phase))
    &&& opt_str_field(f, "component"@) == Ok::<Option<Seq<char>>, Seq<char>>(opt_view(p.component))
    &&& opt_str_field(f, "assignee"@) == Ok::<Option<Seq<char>>, Seq<char>>(opt_view(p.assignee))
    &&& list_field(f, "tags"@) == Ok::<Seq<Seq<char>>, Seq<char>>(strs(p.tags@))
    &&& list_field(f, "depends_on"@) == Ok::<Seq<Seq<char>>, Seq<char>>(strs(p.depends_on@))
}

fn read_detail_kind(s: &Snapshot) -> (r: Result<DetailKind, StoreError>)
    ensures
        match detail_kind_field(s.fields@) {
            Ok(k) => r == Ok::<DetailKind, StoreError>(k),
            Err(m) => fails_with(r, m),
        },
{
    let raw = snapshot_required_str(s, "kind")?;
    let v = chars_of(raw.as_str());
    if chars_eq_str(v.as_slice(), "plan") {
        Ok(DetailKind::Plan)
    } else if chars_eq_str(v.as_slice(), "task") {
        Ok(DetailKind::Task)
    } else {
        Err(StoreError::InvalidInput("snapshot kind invalid"))
    }
}

/// Reads a task-detail snapshot; the first field that is missing or of the wrong kind decides
/// the error. The contract data is kept as its JSON text.
pub fn read_task_detail(s: &Snapshot) -> (r: Result<TaskDetailSnapshot, StoreError>)
    ensures
        match task_detail_error(s.fields@) {
            Some(m) => fails_with(r, m),
            None => r matches Ok(p) && task_detail_read(p, s.fields@),
        },
{
    let kind = read_detail_kind(s)?;
    let task_id = snapshot_required_str(s, "task")?;
    let title = snapshot_required_str(s, "title")?;
    let description = snapshot_optional_string(s, "description")?;
    let context = snapshot_optional_string(s, "context")?;
    let priority = snapshot_required_str(s, "priority")?;
    let contract = snapshot_optional_string(s, "contract")?;
    let contract_json = snapshot_optional_json_string(s, "contract_data");
    let domain = snapshot_optional_string(s, "domain")?;
    let phase = snapshot_optional_string(s, "phase")?;
    let component = snapshot_optional_string(s, "component")?;
    let assignee = snapshot_optional_string(s, "assignee")?;
    let tags = snapshot_required_vec(s, "tags")?;
    let depends_on = snapshot_required_vec(s, "depends_on")?;
    Ok(
        TaskDetailSnapshot {
            kind,
            task_id,
            title,
            description,
            context,
            priority,
            contract,
            contract_json,
            domain,
            phase,
            component,
            assignee,
            tags,
            depends_on,
        },
    )
}

} // verus!
