//! Snapshots kept in the operations history, read back field by field, and the row updates
//! that replaying them makes.

use vstd::prelude::*;

use crate::error::StoreError;
use crate::graph::opt_view;
use crate::text::{chars_eq_str, chars_of, string_of, strs};

verus! {

broadcast use vstd::string::group_string_axioms;

/// A value of a snapshot field, as far as reading it back needs: its JSON kind, and the
/// integer, text or array it holds. An array keeps, for each element, its text when it is a
/// string.
#[derive(Debug)]
pub enum SnapshotValue {
    Null,
    Bool(bool),
    Int(i64),
    OtherNumber,
    Str(String),
    Array(Vec<Option<String>>),
    Object,
}

/// A field of a snapshot: its name, its value, and the value written back as JSON text.
#[derive(Debug)]
pub struct SnapshotField {
    pub name: String,
    pub value: SnapshotValue,
    pub json: String,
}

/// A snapshot: a JSON object, as its fields in order.
#[derive(Debug)]
pub struct Snapshot {
    pub fields: Vec<SnapshotField>,
}

/// The first field named `name`, if the snapshot has one (field names are unique in a JSON
/// object).
pub open spec fn field_entry(fields: Seq<SnapshotField>, name: Seq<char>) -> Option<SnapshotField>
    decreases fields.len(),
{
    if fields.len() == 0 {
        None
    } else if fields[0].name@ == name {
        Some(fields[0])
    } else {
        field_entry(fields.drop_first(), name)
    }
}

/// The value of field `name`, if the snapshot has one.
pub open spec fn field_of(fields: Seq<SnapshotField>, name: Seq<char>) -> Option<SnapshotValue> {
    match field_entry(fields, name) {
        Some(f) => Some(f.value),
        None => None,
    }
}

/// Looks up field `name`.
pub fn snapshot_field<'a>(snapshot: &'a Snapshot, name: &str) -> (r: Option<&'a SnapshotField>)
    ensures
        match r {
            Some(f) => field_entry(snapshot.fields@, name@) == Some(*f),
            None => field_entry(snapshot.fields@, name@) is None,
        },
{
    let mut i: usize = 0;
    assert(snapshot.fields@.skip(0) =~= snapshot.fields@);
    while i < snapshot.fields.len()
        invariant
            i <= snapshot.fields@.len(),
            field_entry(snapshot.fields@, name@) == field_entry(snapshot.fields@.skip(i as int), name@),
        decreases snapshot.fields@.len() - i,
    {
        let key = chars_of(snapshot.fields[i].name.as_str());
        assert(snapshot.fields@.skip(i as int)[0] == snapshot.fields@[i as int]);
        if chars_eq_str(key.as_slice(), name) {
            return Some(&snapshot.fields[i]);
        }
        assert(snapshot.fields@.skip(i as int).drop_first() =~= snapshot.fields@.skip(i + 1));
        i = i + 1;
    }
    None
}

/// Looks up the value of field `name`.
pub fn snapshot_get<'a>(snapshot: &'a Snapshot, name: &str) -> (r: Option<&'a SnapshotValue>)
    ensures
        match r {
            Some(v) => field_of(snapshot.fields@, name@) == Some(*v),
            None => field_of(snapshot.fields@, name@) is None,
        },
{
    match snapshot_field(snapshot, name) {
        Some(f) => Some(&f.value),
        None => None,
    }
}

/// A text field that must be there.
pub open spec fn str_field(f: Seq<SnapshotField>, name: Seq<char>) -> Result<Seq<char>, Seq<char>> {
    match field_of(f, name) {
        Some(SnapshotValue::Str(s)) => Ok(s@),
        _ => Err("snapshot missing string field"@),
    }
}

/// A yes/no field that must be there.
pub open spec fn bool_field(f: Seq<SnapshotField>, name: Seq<char>) -> Result<bool, Seq<char>> {
    match field_of(f, name) {
        Some(SnapshotValue::Bool(b)) => Ok(b),
        _ => Err("snapshot missing boolean field"@),
    }
}

/// A text field that may be missing or null.
pub open spec fn opt_str_field(f: Seq<SnapshotField>, name: Seq<char>) -> Result<Option<Seq<char>>, Seq<char>> {
    match field_of(f, name) {
        None | Some(SnapshotValue::Null) => Ok(None),
        Some(SnapshotValue::Str(s)) => Ok(Some(s@)),
        _ => Err("snapshot invalid string field"@),
    }
}

/// A text field that tells missing, null and text apart.
pub open spec fn patch_str_field(f: Seq<SnapshotField>, name: Seq<char>) -> Result<
    Option<Option<Seq<char>>>,
    Seq<char>,
> {
    match field_of(f, name) {
        None => Ok(None),
        Some(SnapshotValue::Null) => Ok(Some(None)),
        Some(SnapshotValue::Str(s)) => Ok(Some(Some(s@))),
        _ => Err("snapshot invalid string field"@),
    }
}

/// An integer field that may be missing or null.
pub open spec fn opt_int_field(f: Seq<SnapshotField>, name: Seq<char>) -> Result<Option<i64>, Seq<char>> {
    match field_of(f, name) {
        None | Some(SnapshotValue::Null) => Ok(None),
        Some(SnapshotValue::Int(v)) => Ok(Some(v)),
        _ => Err("snapshot invalid integer field"@),
    }
}

/// Every element of the array is a string.
pub open spec fn all_texts(items: Seq<Option<String>>) -> bool {
    forall|i: int| 0 <= i < items.len() ==> #[trigger] items[i] is Some
}

/// The texts of an array of strings.
pub open spec fn texts_of(items: Seq<Option<String>>) -> Seq<Seq<char>> {
    items.map_values(|o: Option<String>| o->0@)
}

/// A list of texts that must be there: an array of strings.
pub open spec fn list_field(f: Seq<SnapshotField>, name: Seq<char>) -> Result<Seq<Seq<char>>, Seq<char>> {
    match field_of(f, name) {
        Some(SnapshotValue::Array(items)) => if all_texts(items@) {
            Ok(texts_of(items@))
        } else {
            Err("snapshot array must be strings"@)
        },
        _ => Err("snapshot missing array field"@),
    }
}

/// A field kept as JSON text: missing or null gives nothing, any other value its text.
pub open spec fn json_field(f: Seq<SnapshotField>, name: Seq<char>) -> Option<Seq<char>> {
    match field_entry(f, name) {
        None => None,
        Some(e) => match e.value {
            SnapshotValue::Null => None,
            _ => Some(e.json@),
        },
    }
}

/// `err`, or else `rest`: the first error of a chain of reads.
pub open spec fn or_err<T>(r: Result<T, Seq<char>>, rest: Option<Seq<char>>) -> Option<Seq<char>> {
    match r {
        Err(m) => Some(m),
        Ok(_) => rest,
    }
}

/// The result is the invalid-input error `m`.
pub open spec fn fails_with<T>(r: Result<T, StoreError>, m: Seq<char>) -> bool {
    r matches Err(StoreError::InvalidInput(x)) && x@ == m
}

fn copy_string(s: &String) -> (r: String)
    ensures
        r@ == s@,
{
    string_of(chars_of(s.as_str()).as_slice())
}

/// A text field that must be there.
pub fn snapshot_required_str(snapshot: &Snapshot, name: &str) -> (r: Result<String, StoreError>)
    ensures
        match str_field(snapshot.fields@, name@) {
            Ok(v) => r matches Ok(x) && x@ == v,
            Err(m) => fails_with(r, m),
        },
{
    match snapshot_get(snapshot, name) {
        Some(SnapshotValue::Str(s)) => Ok(copy_string(s)),
        _ => Err(StoreError::InvalidInput("snapshot missing string field")),
    }
}

/// A yes/no field that must be there.
pub fn snapshot_required_bool(snapshot: &Snapshot, name: &str) -> (r: Result<bool, StoreError>)
    ensures
        match bool_field(snapshot.fields@, name@) {
            Ok(b) => r == Ok::<bool, StoreError>(b),
            Err(m) => fails_with(r, m),
        },
{
    match snapshot_get(snapshot, name) {
        Some(SnapshotValue::Bool(b)) => Ok(*b),
        _ => Err(StoreError::InvalidInput("snapshot missing boolean field")),
    }
}

/// A text field that may be missing or null.
pub fn snapshot_optional_string(snapshot: &Snapshot, name: &str) -> (r: Result<Option<String>, StoreError>)
    ensures
        match opt_str_field(snapshot.fields@, name@) {
            Ok(v) => r matches Ok(x) && opt_view(x) == v,
            Err(m) => fails_with(r, m),
        },
{
    match snapshot_get(snapshot, name) {
        None => Ok(None),
        Some(SnapshotValue::Null) => Ok(None),
        Some(SnapshotValue::Str(s)) => Ok(Some(copy_string(s))),
        _ => Err(StoreError::InvalidInput("snapshot invalid string field")),
    }
}

pub open spec fn opt_opt_view(o: Option<Option<String>>) -> Option<Option<Seq<char>>> {
    match o {
        None => None,
        Some(x) => Some(opt_view(x)),
    }
}

/// A text field that tells three things apart: missing (keep the current value), null
/// (clear it) and text (set it).
pub fn snapshot_patch_string(snapshot: &Snapshot, name: &str) -> (r: Result<Option<Option<String>>, StoreError>)
    ensures
        match patch_str_field(snapshot.fields@, name@) {
            Ok(v) => r matches Ok(x) && opt_opt_view(x) == v,
            Err(m) => fails_with(r, m),
        },
{
    match snapshot_get(snapshot, name) {
        None => Ok(None),
        Some(SnapshotValue::Null) => Ok(Some(None)),
        Some(SnapshotValue::Str(s)) => Ok(Some(Some(copy_string(s)))),
        _ => Err(StoreError::InvalidInput("snapshot invalid string field")),
    }
}

/// An integer field that may be missing or null.
pub fn snapshot_optional_i64(snapshot: &Snapshot, name: &str) -> (r: Result<Option<i64>, StoreError>)
    ensures
        match opt_int_field(snapshot.fields@, name@) {
            Ok(v) => r == Ok::<Option<i64>, StoreError>(v),
            Err(m) => fails_with(r, m),
        },
{
    match snapshot_get(snapshot, name) {
        None => Ok(None),
        Some(SnapshotValue::Null) => Ok(None),
        Some(SnapshotValue::Int(v)) => Ok(Some(*v)),
        _ => Err(StoreError::InvalidInput("snapshot invalid integer field")),
    }
}

/// A field kept as JSON text: nothing when missing or null, else the value's text.
pub fn snapshot_optional_json_string(snapshot: &Snapshot, name: &str) -> (r: Option<String>)
    ensures
        opt_view(r) == json_field(snapshot.fields@, name@),
{
    match snapshot_field(snapshot, name) {
        None => None,
        Some(f) => match &f.value {
            SnapshotValue::Null => None,
            _ => Some(copy_string(&f.json)),
        },
    }
}

/// A list of texts that must be there: an array of strings.
pub fn snapshot_required_vec(snapshot: &Snapshot, name: &str) -> (r: Result<Vec<String>, StoreError>)
    ensures
        match list_field(snapshot.fields@, name@) {
            Ok(v) => r matches Ok(x) && strs(x@) == v,
            Err(m) => fails_with(r, m),
        },
{
    let got = snapshot_get(snapshot, name);
    let items = match got {
        Some(SnapshotValue::Array(items)) => items,
        _ => {
            return Err(StoreError::InvalidInput("snapshot missing array field"));
        },
    };
    assert(field_of(snapshot.fields@, name@) == Some(SnapshotValue::Array(*items)));
    let mut out: Vec<String> = Vec::new();
    let mut i: usize = 0;
    while i < items.len()
        invariant
            i <= items@.len(),
            field_of(snapshot.fields@, name@) == Some(SnapshotValue::Array(*items)),
            forall|k: int| 0 <= k < i ==> #[trigger] items@[k] is Some,
            strs(out@) == items@.take(i as int).map_values(|o: Option<String>| o->0@),
        decreases items@.len() - i,
    {
        match &items[i] {
            Some(s) => {
                let ghost before = strs(out@);
                out.push(copy_string(s));
                assert(strs(out@) =~= before.push(s@));
                assert(items@.take(i + 1).map_values(|o: Option<String>| o->0@) =~= items@.take(
                    i as int,
                ).map_values(|o: Option<String>| o->0@).push(s@));
            },
            None => {
                assert(!all_texts(items@));
                return Err(StoreError::InvalidInput("snapshot array must be strings"));
            },
        }
        i = i + 1;
    }
    assert(items@.take(items@.len() as int) =~= items@);
    assert(all_texts(items@));
    assert(strs(out@) == texts_of(items@));
    Ok(out)
}

/// A step as a step-patch snapshot records it.
#[derive(Debug)]
pub struct StepPatchSnapshot {
    pub task_id: String,
    pub step_id: String,
    pub path: String,
    pub title: String,
    pub next_action: Option<Option<String>>,
    pub stop_criteria: Option<Option<String>>,
    pub proof_tests_mode: Option<i64>,
    pub proof_security_mode: Option<i64>,
    pub proof_perf_mode: Option<i64>,
    pub proof_docs_mode: Option<i64>,
    pub success_criteria: Vec<String>,
    pub tests: Vec<String>,
    pub blockers: Vec<String>,
    pub criteria_confirmed: bool,
    pub tests_confirmed: bool,
    pub security_confirmed: bool,
    pub perf_confirmed: bool,
    pub docs_confirmed: bool,
    pub completed: bool,
    pub completed_at_ms: Option<i64>,
    pub blocked: bool,
    pub block_reason: Option<String>,
}

/// The first field of a step-patch snapshot, in reading order, that is missing or of the
/// wrong kind: its error.
pub open spec fn step_patch_error(f: Seq<SnapshotField>) -> Option<Seq<char>> {
    or_err(str_field(f, "task"@), or_err(str_field(f, "step_id"@), or_err(str_field(f, "path"@),
    or_err(str_field(f, "title"@), or_err(patch_str_field(f, "next_action"@), or_err(
    patch_str_field(f, "stop_criteria"@), or_err(opt_int_field(f, "proof_tests_mode"@), or_err(
    opt_int_field(f, "proof_security_mode"@), or_err(opt_int_field(f, "proof_perf_mode"@), or_err(
    opt_int_field(f, "proof_docs_mode"@), or_err(list_field(f, "success_criteria"@), or_err(
    list_field(f, "tests"@), or_err(list_field(f, "blockers"@), or_err(bool_field(
    f, "criteria_confirmed"@), or_err(bool_field(f, "tests_confirmed"@), or_err(bool_field(
    f, "security_confirmed"@), or_err(bool_field(f, "perf_confirmed"@), or_err(bool_field(
    f, "docs_confirmed"@), or_err(bool_field(f, "completed"@), or_err(opt_int_field(
    f, "completed_at_ms"@), or_err(bool_field(f, "blocked"@), or_err(opt_str_field(
    f, "block_reason"@), None))))))))))))))))))))))
}

/// Every field of `p` is what the snapshot holds.
pub open spec fn step_patch_read(p: StepPatchSnapshot, f: Seq<SnapshotField>) -> bool {
    &&& str_field(f, "task"@) == Ok::<Seq<char>, Seq<char>>(p.task_id@)
    &&& str_field(f, "step_id"@) == Ok::<Seq<char>, Seq<char>>(p.step_id@)
    &&& str_field(f, "path"@) == Ok::<Seq<char>, Seq<char>>(p.path@)
    &&& str_field(f, "title"@) == Ok::<Seq<char>, Seq<char>>(p.title@)
    &&& patch_str_field(f, "next_action"@) == Ok::<Option<Option<Seq<char>>>, Seq<char>>(
        opt_opt_view(p.next_action),
    )
    &&& patch_str_field(f, "stop_criteria"@) == Ok::<Option<Option<Seq<char>>>, Seq<char>>(
        opt_opt_view(p.stop_criteria),
    )
    &&& opt_int_field(f, "proof_tests_mode"@) == Ok::<Option<i64>, Seq<char>>(p.proof_tests_mode)
    &&& opt_int_field(f, "proof_security_mode"@) == Ok::<Option<i64>, Seq<char>>(
        p.proof_security_mode,
    )
    &&& opt_int_field(f, "proof_perf_mode"@) == Ok::<Option<i64>, Seq<char>>(p.proof_perf_mode)
    &&& opt_int_field(f, "proof_docs_mode"@) == Ok::<Option<i64>, Seq<char>>(p.proof_docs_mode)
    &&& list_field(f, "success_criteria"@) == Ok::<Seq<Seq<char>>, Seq<char>>(
        strs(p.success_criteria@),
    )
    &&& list_field(f, "tests"@) == Ok::<Seq<Seq<char>>, Seq<char>>(strs(p.tests@))
    &&& list_field(f, "blockers"@) == Ok::<Seq<Seq<char>>, Seq<char>>(strs(p.blockers@))
    &&& bool_field(f, "criteria_confirmed"@) == Ok::<bool, Seq<char>>(p.criteria_confirmed)
    &&& bool_field(f, "tests_confirmed"@) == Ok::<bool, Seq<char>>(p.tests_confirmed)
    &&& bool_field(f, "security_confirmed"@) == Ok::<bool, Seq<char>>(p.security_confirmed)
    &&& bool_field(f, "perf_confirmed"@) == Ok::<bool, Seq<char>>(p.perf_confirmed)
    &&& bool_field(f, "docs_confirmed"@) == Ok::<bool, Seq<char>>(p.docs_confirmed)
    &&& bool_field(f, "completed"@) == Ok::<bool, Seq<char>>(p.completed)
    &&& opt_int_field(f, "completed_at_ms"@) == Ok::<Option<i64>, Seq<char>>(p.completed_at_ms)
    &&& bool_field(f, "blocked"@) == Ok::<bool, Seq<char>>(p.blocked)
    &&& opt_str_field(f, "block_reason"@) == Ok::<Option<Seq<char>>, Seq<char>>(
        opt_view(p.block_reason),
    )
}

/// Reads a step-patch snapshot; the first field that is missing or of the wrong kind decides
/// the error.
pub fn read_step_patch(s: &Snapshot) -> (r: Result<StepPatchSnapshot, StoreError>)
    ensures
        match step_patch_error(s.fields@) {
            Some(m) => fails_with(r, m),
            None => r matches Ok(p) && step_patch_read(p, s.fields@),
        },
{
    let task_id = snapshot_required_str(s, "task")?;
    let step_id = snapshot_required_str(s, "step_id")?;
    let path = snapshot_required_str(s, "path")?;
    let title = snapshot_required_str(s, "title")?;
    let next_action = snapshot_patch_string(s, "next_action")?;
    let stop_criteria = snapshot_patch_string(s, "stop_criteria")?;
    let proof_tests_mode = snapshot_optional_i64(s, "proof_tests_mode")?;
    let proof_security_mode = snapshot_optional_i64(s, "proof_security_mode")?;
    let proof_perf_mode = snapshot_optional_i64(s, "proof_perf_mode")?;
    let proof_docs_mode = snapshot_optional_i64(s, "proof_docs_mode")?;
    let success_criteria = snapshot_required_vec(s, "success_criteria")?;
    let tests = snapshot_required_vec(s, "tests")?;
    let blockers = snapshot_required_vec(s, "blockers")?;
    let criteria_confirmed = snapshot_required_bool(s, "criteria_confirmed")?;
    let tests_confirmed = snapshot_required_bool(s, "tests_confirmed")?;
    let security_confirmed = snapshot_required_bool(s, "security_confirmed")?;
    let perf_confirmed = snapshot_required_bool(s, "perf_confirmed")?;
    let docs_confirmed = snapshot_required_bool(s, "docs_confirmed")?;
    let completed = snapshot_required_bool(s, "completed")?;
    let completed_at_ms = snapshot_optional_i64(s, "completed_at_ms")?;
    let blocked = snapshot_required_bool(s, "blocked")?;
    let block_reason = snapshot_optional_string(s, "block_reason")?;
    Ok(
        StepPatchSnapshot {
            task_id,
            step_id,
            path,
            title,
            next_action,
            stop_criteria,
            proof_tests_mode,
            proof_security_mode,
            proof_perf_mode,
            proof_docs_mode,
            success_criteria,
            tests,
            blockers,
            criteria_confirmed,
            tests_confirmed,
            security_confirmed,
            perf_confirmed,
            docs_confirmed,
            completed,
            completed_at_ms,
            blocked,
            block_reason,
        },
    )
}

/// The fields of a step that a patch may leave as they are.
#[derive(Debug)]
pub struct StepCurrent {
    pub next_action: Option<String>,
    pub stop_criteria: Option<String>,
    pub proof_tests_mode: i64,
    pub proof_security_mode: i64,
    pub proof_perf_mode: i64,
    pub proof_docs_mode: i64,
}

/// What happens to a step's completion time.
#[derive(Debug)]
pub enum CompletedAt {
    Keep,
    SetTo(i64),
    Clear,
}

/// The row update that replaying a step patch makes.
#[derive(Debug)]
pub struct StepUpdate {
    pub title: String,
    pub next_action: Option<String>,
    pub stop_criteria: Option<String>,
    pub proof_tests_mode: i64,
    pub proof_security_mode: i64,
    pub proof_perf_mode: i64,
    pub proof_docs_mode: i64,
    pub criteria_confirmed: i64,
    pub tests_confirmed: i64,
    pub security_confirmed: i64,
    pub perf_confirmed: i64,
    pub docs_confirmed: i64,
    pub completed: i64,
    pub completed_at: CompletedAt,
    pub blocked: i64,
    pub block_reason: Option<String>,
}

pub open spec fn flag_of(b: bool) -> i64 {
    if b {
        1
    } else {
        0
    }
}

fn flag(b: bool) -> (r: i64)
    ensures
        r == flag_of(b),
{
    if b {
        1
    } else {
        0
    }
}

/// The update for a step patch over the step's current fields: what the patch leaves out
/// keeps its value; a completed step keeps its completion time unless the patch gives one,
/// an open step loses it; the block reason is kept only while blocked.
pub fn step_patch_update(p: StepPatchSnapshot, current: StepCurrent) -> (u: StepUpdate)
    ensures
        u.title@ == p.title@,
        opt_view(u.next_action) == match p.next_action {
            Some(v) => opt_view(v),
            None => opt_view(current.next_action),
        },
        opt_view(u.stop_criteria) == match p.stop_criteria {
            Some(v) => opt_view(v),
            None => opt_view(current.stop_criteria),
        },
        u.proof_tests_mode == match p.proof_tests_mode {
            Some(v) => v,
            None => current.proof_tests_mode,
        },
        u.proof_security_mode == match p.proof_security_mode {
            Some(v) => v,
            None => current.proof_security_mode,
        },
        u.proof_perf_mode == match p.proof_perf_mode {
            Some(v) => v,
            None => current.proof_perf_mode,
        },
        u.proof_docs_mode == match p.proof_docs_mode {
            Some(v) => v,
            None => current.proof_docs_mode,
        },
        u.criteria_confirmed == flag_of(p.criteria_confirmed),
        u.tests_confirmed == flag_of(p.tests_confirmed),
        u.security_confirmed == flag_of(p.security_confirmed),
        u.perf_confirmed == flag_of(p.perf_confirmed),
        u.docs_confirmed == flag_of(p.docs_confirmed),
        u.completed == flag_of(p.completed),
        u.completed_at == if !p.completed {
            CompletedAt::Clear
        } else {
            match p.completed_at_ms {
                Some(t) => CompletedAt::SetTo(t),
                None => CompletedAt::Keep,
            }
        },
        u.blocked == flag_of(p.blocked),
        opt_view(u.block_reason) == if p.blocked {
            opt_view(p.block_reason)
        } else {
            None
        },
{
    let next_action = match p.next_action {
        Some(v) => v,
        None => current.next_action,
    };
    let stop_criteria = match p.stop_criteria {
        Some(v) => v,
        None => current.stop_criteria,
    };
    let completed_at = if !p.completed {
        CompletedAt::Clear
    } else {
        match p.completed_at_ms {
            Some(t) => CompletedAt::SetTo(t),
            None => CompletedAt::Keep,
        }
    };
    StepUpdate {
        title: p.title,
        next_action,
        stop_criteria,
        proof_tests_mode: match p.proof_tests_mode {
            Some(v) => v,
            None => current.proof_tests_mode,
        },
        proof_security_mode: match p.proof_security_mode {
            Some(v) => v,
            None => current.proof_security_mode,
        },
        proof_perf_mode: match p.proof_perf_mode {
            Some(v) => v,
            None => current.proof_perf_mode,
        },
        proof_docs_mode: match p.proof_docs_mode {
            Some(v) => v,
            None => current.proof_docs_mode,
        },
        criteria_confirmed: flag(p.criteria_confirmed),
        tests_confirmed: flag(p.tests_confirmed),
        security_confirmed: flag(p.security_confirmed),
        perf_confirmed: flag(p.perf_confirmed),
        docs_confirmed: flag(p.docs_confirmed),
        completed: flag(p.completed),
        completed_at,
        blocked: flag(p.blocked),
        block_reason: if p.blocked {
            p.block_reason
        } else {
            None
        },
    }
}

/// A snapshot value as plain values.
pub enum SnapshotValueView {
    Null,
    Bool(bool),
    Int(i64),
    OtherNumber,
    Str(Seq<char>),
    Array(Seq<Option<Seq<char>>>),
    Object,
}

impl View for SnapshotValue {
    type V = SnapshotValueView;

    open spec fn view(&self) -> SnapshotValueView {
        match self {
            SnapshotValue::Null => SnapshotValueView::Null,
            SnapshotValue::Bool(b) => SnapshotValueView::Bool(*b),
            SnapshotValue::Int(i) => SnapshotValueView::Int(*i),
            SnapshotValue::OtherNumber => SnapshotValueView::OtherNumber,
            SnapshotValue::Str(s) => SnapshotValueView::Str(s@),
            SnapshotValue::Array(a) => SnapshotValueView::Array(
                a@.map_values(|o: Option<String>| opt_view(o)),
            ),
            SnapshotValue::Object => SnapshotValueView::Object,
        }
    }
}

/// A snapshot's fields as plain values: name, value, and the value's JSON text.
pub open spec fn snapshot_fields_view(s: Snapshot) -> Seq<(Seq<char>, SnapshotValueView, Seq<char>)> {
    s.fields@.map_values(|f: SnapshotField| (f.name@, f.value@, f.json@))
}

/// The entries of the JSON text `text` as `serde_json` reads it into a `Value`: `None` when
/// it is not JSON; for an object, its keys (in the map's order) each with its value written
/// back as compact JSON text; no entries for any other value.
pub uninterp spec fn serde_object_entries(text: Seq<char>) -> Option<Seq<(Seq<char>, Seq<char>)>>;

/// What `serde_json` reads the JSON text `json` as, kept as a snapshot value; `None` when it
/// is not JSON.
pub uninterp spec fn serde_snapshot_value(json: Seq<char>) -> Option<SnapshotValueView>;

/// The pairs of `v` as plain values.
pub open spec fn pairs_view(v: Seq<(String, String)>) -> Seq<(Seq<char>, Seq<char>)> {
    v.map_values(|p: (String, String)| (p.0@, p.1@))
}

/// `serde_json::from_str::<serde_json::Value>`, then the object's entries, each value written
/// back with `Value::to_string`. The contract claims only that the result is a function of
/// the text (named above).
#[verifier::external_body]
fn json_object_entries(text: &str) -> (r: Option<Vec<(String, String)>>)
    ensures
        match r {
            Some(v) => serde_object_entries(text@) == Some(pairs_view(v@)),
            None => serde_object_entries(text@) is None,
        },
{
    let value: serde_json::Value = serde_json::from_str(text).ok()?;
    Some(value.as_object().map_or(Vec::new(), |m| m.iter().map(|(k, v)| (k.clone(), v.to_string())).collect()))
}

/// `serde_json::from_str::<serde_json::Value>`, the value's variant told apart one arm each
/// (a number by `as_i64`, an array's items by `as_str`). The contract claims only that the
/// result is a function of the text (named above).
#[verifier::external_body]
fn json_snapshot_value(json: &str) -> (r: Option<SnapshotValue>)
    ensures
        match r {
            Some(v) => serde_snapshot_value(json@) == Some(v@),
            None => serde_snapshot_value(json@) is None,
        },
{
    Some(match serde_json::from_str::<serde_json::Value>(json).ok()? {
        serde_json::Value::Null => SnapshotValue::Null,
        serde_json::Value::Bool(b) => SnapshotValue::Bool(b),
        serde_json::Value::Number(n) => n.as_i64().map_or(SnapshotValue::OtherNumber, SnapshotValue::Int),
        serde_json::Value::String(s) => SnapshotValue::Str(s),
        serde_json::Value::Array(a) => SnapshotValue::Array(a.iter().map(|x| x.as_str().map(String::from)).collect()),
        serde_json::Value::Object(_) => SnapshotValue::Object,
    })
}

/// The fields read from entries `es`, each value read from its JSON text; `None` when one of
/// the texts is not JSON.
pub open spec fn entry_fields(es: Seq<(Seq<char>, Seq<char>)>) -> Option<
    Seq<(Seq<char>, SnapshotValueView, Seq<char>)>,
>
    decreases es.len(),
{
    if es.len() == 0 {
        Some(Seq::empty())
    } else {
        match (entry_fields(es.drop_last()), serde_snapshot_value(es.last().1)) {
            (Some(fs), Some(v)) => Some(fs.push((es.last().0, v, es.last().1))),
            _ => None,
        }
    }
}

/// The snapshot stored as the JSON text `text`, as fields; `None` when the text is not JSON.
pub open spec fn snapshot_of_text(text: Seq<char>) -> Option<Seq<(Seq<char>, SnapshotValueView, Seq<char>)>> {
    match serde_object_entries(text) {
        None => None,
        Some(es) => entry_fields(es),
    }
}

proof fn lemma_entry_fields_none_sticks(es: Seq<(Seq<char>, Seq<char>)>, k: int)
    requires
        0 < k <= es.len(),
        entry_fields(es.take(k)) is None,
    ensures
        entry_fields(es) is None,
    decreases es.len() - k,
{
    if k < es.len() {
        assert(es.take(k + 1).drop_last() =~= es.take(k));
        lemma_entry_fields_none_sticks(es, k + 1);
    } else {
        assert(es.take(k) =~= es);
    }
}

/// Reads a stored snapshot from its JSON text.
pub fn snapshot_from_text(text: &str) -> (r: Option<Snapshot>)
    ensures
        match snapshot_of_text(text@) {
            None => r is None,
            Some(fs) => r matches Some(s) && snapshot_fields_view(s) == fs,
        },
{
    let entries = json_object_entries(text)?;
    let ghost es = pairs_view(entries@);
    let mut fields: Vec<SnapshotField> = Vec::new();
    let mut i: usize = 0;
    while i < entries.len()
        invariant
            i <= entries@.len(),
            es == pairs_view(entries@),
            serde_object_entries(text@) == Some(es),
            entry_fields(es.take(i as int)) == Some(
                fields@.map_values(|f: SnapshotField| (f.name@, f.value@, f.json@)),
            ),
        decreases entries@.len() - i,
    {
        proof {
            assert(es.take(i as int + 1).drop_last() =~= es.take(i as int));
            assert(es.take(i as int + 1).last() == es[i as int]);
        }
        let value = match json_snapshot_value(entries[i].1.as_str()) {
            Some(v) => v,
            None => {
                proof {
                    lemma_entry_fields_none_sticks(es, i as int + 1);
                }
                return None;
            },
        };
        let ghost before = fields@;
        fields.push(SnapshotField { name: entries[i].0.clone(), value, json: entries[i].1.clone() });
        proof {
            assert(fields@.map_values(|f: SnapshotField| (f.name@, f.value@, f.json@)) =~= before.map_values(
                |f: SnapshotField| (f.name@, f.value@, f.json@),
            ).push((es[i as int].0, value@, es[i as int].1)));
        }
        i = i + 1;
    }
    proof {
        assert(es.take(i as int) =~= es);
    }
    Some(Snapshot { fields })
}

} // verus!
