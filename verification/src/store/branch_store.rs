//! The decisions of the branch / commit / merge store, around its SQL statements.

use vstd::prelude::*;

use super::error::{is_invalid_input, StoreError};
use crate::text::{chars_eq, chars_eq_str, chars_of, seqs, strs};

verus! {

broadcast use vstd::string::group_string_axioms;

pub const DEFAULT_BRANCH: &'static str = "main";

pub const V3_SCHEMA_VERSION: i64 = 3;

pub const MAX_BRANCH_DEPTH: usize = 128;

/// The tables of the current schema.
pub open spec fn required_tables() -> Set<Seq<char>> {
    set![
        "workspace_state"@,
        "workspaces"@,
        "branches"@,
        "branch_checkout"@,
        "commits"@,
        "merge_records"@,
    ]
}

/// `usize` to the SQLite integer type; `numeric overflow` past `i64::MAX`.
pub fn to_sqlite_i64(value: usize) -> (r: Result<i64, StoreError>)
    ensures
        value <= i64::MAX ==> r == Ok::<i64, StoreError>(value as i64),
        value > i64::MAX ==> is_invalid_input(r, "numeric overflow"),
{
    if value as u128 <= i64::MAX as u128 {
        Ok(value as i64)
    } else {
        Err(StoreError::InvalidInput("numeric overflow"))
    }
}

/// Milliseconds since the epoch: 0 before it, `i64::MAX` past its range.
pub fn now_ms() -> (r: i64)
    ensures
        r >= 0,
{
    let now = crate::clock::system_now();
    match crate::clock::since_unix_epoch(&now) {
        None => 0,
        Some(d) => clamp_ms(crate::clock::duration_millis(&d)),
    }
}

/// A millisecond count as an `i64`, saturating at `i64::MAX`.
pub fn clamp_ms(ms: u128) -> (r: i64)
    ensures
        r == if ms <= i64::MAX {
            ms as int
        } else {
            i64::MAX as int
        },
{
    if ms <= i64::MAX as u128 {
        ms as i64
    } else {
        i64::MAX
    }
}

fn is_required_table(name: &[char]) -> (r: bool)
    ensures
        r == required_tables().contains(name@),
{
    let r = chars_eq_str(name, "workspace_state") || chars_eq_str(name, "workspaces")
        || chars_eq_str(name, "branches") || chars_eq_str(name, "branch_checkout")
        || chars_eq_str(name, "commits") || chars_eq_str(name, "merge_records");
    r
}

/// What the tables already in a database say about opening it: `Ok(false)` for a fresh
/// database, `Ok(true)` when the schema version must be read next, else the reset error.
pub open spec fn tables_verdict_spec(tables: Set<Seq<char>>) -> Result<bool, Seq<char>> {
    if tables.is_empty() {
        Ok(false)
    } else if exists|t: Seq<char>| tables.contains(t) && !required_tables().contains(t) {
        Err("RESET_REQUIRED: unsupported tables detected"@)
    } else if exists|t: Seq<char>| required_tables().contains(t) && !tables.contains(t) {
        Err("RESET_REQUIRED: required table is missing"@)
    } else {
        Ok(true)
    }
}

/// The first check made when the store opens: the tables present (other than SQLite's own).
pub fn tables_verdict(tables: &Vec<String>) -> (r: Result<bool, StoreError>)
    ensures
        match (r, tables_verdict_spec(strs(tables@).to_set())) {
            (Ok(a), Ok(b)) => a == b,
            (Err(StoreError::InvalidInput(m)), Err(e)) => m@ == e,
            _ => false,
        },
{
    let ghost ts = strs(tables@).to_set();
    if tables.len() == 0 {
        assert(ts =~= Set::<Seq<char>>::empty());
        return Ok(false);
    }
    assert(ts.contains(strs(tables@)[0]));
    let mut i: usize = 0;
    while i < tables.len()
        invariant
            i <= tables@.len(),
            ts == strs(tables@).to_set(),
            forall|k: int| 0 <= k < i ==> required_tables().contains(#[trigger] strs(tables@)[k]),
        decreases tables@.len() - i,
    {
        let t = chars_of(tables[i].as_str());
        if !is_required_table(t.as_slice()) {
            assert(ts.contains(strs(tables@)[i as int]));
            return Err(StoreError::InvalidInput("RESET_REQUIRED: unsupported tables detected"));
        }
        i = i + 1;
    }
    assert forall|t: Seq<char>| ts.contains(t) implies required_tables().contains(t) by {
        let k = choose|k: int| 0 <= k < strs(tables@).len() && strs(tables@)[k] == t;
    }
    let names = [
        "workspace_state",
        "workspaces",
        "branches",
        "branch_checkout",
        "commits",
        "merge_records",
    ];
    let mut j: usize = 0;
    while j < 6
        invariant
            j <= 6,
            ts == strs(tables@).to_set(),
            names@.len() == 6,
            names@ == seq![
                "workspace_state",
                "workspaces",
                "branches",
                "branch_checkout",
                "commits",
                "merge_records",
            ],
            forall|k: int| 0 <= k < j ==> ts.contains(#[trigger] names@[k]@),
            forall|t: Seq<char>| ts.contains(t) ==> required_tables().contains(t),
            tables@.len() > 0,
            ts.contains(strs(tables@)[0]),
        decreases 6 - j,
    {
        if !contains_name(tables, names[j]) {
            assert(required_tables().contains(names@[j as int]@));
            return Err(StoreError::InvalidInput("RESET_REQUIRED: required table is missing"));
        }
        j = j + 1;
    }
    assert forall|t: Seq<char>| required_tables().contains(t) implies ts.contains(t) by {
        assert(ts.contains(names@[0]@));
        assert(ts.contains(names@[1]@));
        assert(ts.contains(names@[2]@));
        assert(ts.contains(names@[3]@));
        assert(ts.contains(names@[4]@));
        assert(ts.contains(names@[5]@));
    }
    Ok(true)
}

fn contains_name(tables: &Vec<String>, name: &str) -> (r: bool)
    ensures
        r == strs(tables@).to_set().contains(name@),
{
    let mut i: usize = 0;
    while i < tables.len()
        invariant
            i <= tables@.len(),
            forall|k: int| 0 <= k < i ==> strs(tables@)[k] != name@,
        decreases tables@.len() - i,
    {
        let t = chars_of(tables[i].as_str());
        if chars_eq_str(t.as_slice(), name) {
            assert(strs(tables@)[i as int] == name@);
            return true;
        }
        i = i + 1;
    }
    false
}

/// The second check: the recorded schema version must be the current one.
pub fn schema_version_verdict(version: Option<i64>) -> (r: Result<(), StoreError>)
    ensures
        version == Some(V3_SCHEMA_VERSION) ==> r is Ok,
        version is None ==> is_invalid_input(r, "RESET_REQUIRED: schema state row is missing"),
        (version is Some && version != Some(V3_SCHEMA_VERSION)) ==> is_invalid_input(
            r,
            "RESET_REQUIRED: schema version mismatch",
        ),
{
    match version {
        Some(v) => {
            if v == V3_SCHEMA_VERSION {
                Ok(())
            } else {
                Err(StoreError::InvalidInput("RESET_REQUIRED: schema version mismatch"))
            }
        },
        None => Err(StoreError::InvalidInput("RESET_REQUIRED: schema state row is missing")),
    }
}

/// The head and last update of a branch.
#[derive(Debug)]
pub struct BranchState {
    pub head_commit_id: Option<String>,
    pub updated_at_ms: i64,
}

/// A branch row read by name: its state, or `UnknownId` when there is no such branch.
pub fn branch_state_from_row(row: Option<(Option<String>, i64)>) -> (r: Result<BranchState, StoreError>)
    ensures
        match row {
            None => r matches Err(StoreError::UnknownId),
            Some((head, updated)) => (r matches Ok(s) && s.head_commit_id == head && s.updated_at_ms
                == updated),
        },
{
    match row {
        Some((head_commit_id, updated_at_ms)) => Ok(BranchState { head_commit_id, updated_at_ms }),
        None => Err(StoreError::UnknownId),
    }
}

/// A looked-up id must exist.
pub fn require_known_id(exists: bool) -> (r: Result<(), StoreError>)
    ensures
        exists ==> r is Ok,
        !exists ==> r matches Err(StoreError::UnknownId),
{
    if exists {
        Ok(())
    } else {
        Err(StoreError::UnknownId)
    }
}

/// A branch to check out must exist.
pub fn require_known_branch(exists: bool) -> (r: Result<(), StoreError>)
    ensures
        exists ==> r is Ok,
        !exists ==> r matches Err(StoreError::UnknownBranch),
{
    if exists {
        Ok(())
    } else {
        Err(StoreError::UnknownBranch)
    }
}

/// A parent commit must be on the branch it is extended from.
pub fn require_parent_on_branch(belongs: bool) -> (r: Result<(), StoreError>)
    ensures
        belongs ==> r is Ok,
        !belongs ==> is_invalid_input(r, "parent commit must belong to the same branch"),
{
    if belongs {
        Ok(())
    } else {
        Err(StoreError::InvalidInput("parent commit must belong to the same branch"))
    }
}

/// A branch cannot be its own parent.
pub fn check_parent_branch(branch_id: &str, parent_branch_id: Option<&str>) -> (r: Result<(), StoreError>)
    ensures
        match parent_branch_id {
            Some(p) if p@ == branch_id@ => r matches Err(StoreError::BranchCycle),
            _ => r is Ok,
        },
{
    match parent_branch_id {
        Some(p) => {
            let pv = chars_of(p);
            let bv = chars_of(branch_id);
            if chars_eq(pv.as_slice(), bv.as_slice()) {
                Err(StoreError::BranchCycle)
            } else {
                Ok(())
            }
        },
        None => Ok(()),
    }
}

/// A new branch may sit at most `MAX_BRANCH_DEPTH` parents deep.
pub fn check_child_depth(parent_depth: usize) -> (r: Result<(), StoreError>)
    ensures
        parent_depth + 1 > MAX_BRANCH_DEPTH ==> r matches Err(StoreError::BranchDepthExceeded),
        parent_depth + 1 <= MAX_BRANCH_DEPTH ==> r is Ok,
{
    if parent_depth >= MAX_BRANCH_DEPTH {
        Err(StoreError::BranchDepthExceeded)
    } else {
        Ok(())
    }
}

/// Walking from a branch up its parents, counting them and refusing cycles and deep chains.
#[derive(Debug)]
pub struct DepthWalk {
    pub seen: Vec<String>,
    pub depth: usize,
}

impl DepthWalk {
    pub fn new() -> (w: DepthWalk)
        ensures
            w.seen@.len() == 0,
            w.depth == 0,
    {
        DepthWalk { seen: Vec::new(), depth: 0 }
    }

    /// Reaching `branch`: a cycle when it was reached before, else it is remembered.
    pub fn visit(&mut self, branch: &str) -> (r: Result<(), StoreError>)
        ensures
            strs(old(self).seen@).contains(branch@) ==> (r matches Err(StoreError::BranchCycle)
                && strs(final(self).seen@) == strs(old(self).seen@)),
            !strs(old(self).seen@).contains(branch@) ==> r is Ok && strs(final(self).seen@) == strs(
                old(self).seen@,
            ).push(branch@),
            final(self).depth == old(self).depth,
    {
        let bv = chars_of(branch);
        let mut i: usize = 0;
        while i < self.seen.len()
            invariant
                i <= self.seen@.len(),
                bv@ == branch@,
                forall|k: int| 0 <= k < i ==> strs(self.seen@)[k] != branch@,
            decreases self.seen@.len() - i,
        {
            let s = chars_of(self.seen[i].as_str());
            if chars_eq(s.as_slice(), bv.as_slice()) {
                assert(strs(self.seen@)[i as int] == branch@);
                return Err(StoreError::BranchCycle);
            }
            i = i + 1;
        }
        let ghost before = strs(self.seen@);
        self.seen.push(crate::text::string_of(bv.as_slice()));
        assert(strs(self.seen@) =~= before.push(branch@));
        Ok(())
    }

    /// The current branch has a parent: one more level, refused past `MAX_BRANCH_DEPTH`.
    pub fn step_up(&mut self) -> (r: Result<(), StoreError>)
        ensures
            old(self).depth + 1 > MAX_BRANCH_DEPTH ==> r matches Err(StoreError::BranchDepthExceeded),
            old(self).depth + 1 <= MAX_BRANCH_DEPTH ==> r is Ok && final(self).depth == old(self).depth
                + 1,
            final(self).seen@ == old(self).seen@,
    {
        if self.depth >= MAX_BRANCH_DEPTH {
            return Err(StoreError::BranchDepthExceeded);
        }
        self.depth = self.depth + 1;
        Ok(())
    }
}

/// A branch with descendants cannot be deleted.
pub fn check_no_descendants(descendants: i64) -> (r: Result<(), StoreError>)
    ensures
        descendants > 0 ==> is_invalid_input(r, "branch has descendants and cannot be deleted"),
        descendants <= 0 ==> r is Ok,
{
    if descendants > 0 {
        Err(StoreError::InvalidInput("branch has descendants and cannot be deleted"))
    } else {
        Ok(())
    }
}

/// The parent of an appended commit: the one given, else the branch head.
pub fn commit_parent(explicit_parent: Option<String>, head_commit_id: Option<String>) -> (r: Option<String>)
    ensures
        r == match explicit_parent {
            Some(p) => Some(p),
            None => head_commit_id,
        },
{
    match explicit_parent {
        Some(p) => Some(p),
        None => head_commit_id,
    }
}

/// A branch's update time after a commit at `created_at_ms`: the later of the two.
pub fn advanced_updated_at(updated_at_ms: i64, created_at_ms: i64) -> (r: i64)
    ensures
        r == if updated_at_ms >= created_at_ms {
            updated_at_ms
        } else {
            created_at_ms
        },
{
    if updated_at_ms >= created_at_ms {
        updated_at_ms
    } else {
        created_at_ms
    }
}

/// A branch's update time never goes back when a commit is appended, and is never earlier
/// than the commit.
pub proof fn lemma_updated_at_monotone(updated_at_ms: i64, created_at_ms: i64)
    ensures
        ({
            let r = if updated_at_ms >= created_at_ms {
                updated_at_ms
            } else {
                created_at_ms
            };
            r >= updated_at_ms && r >= created_at_ms
        }),
{
}

/// What `is_constraint_violation` reads of a SQLite failure: whether SQLite's code was a
/// constraint violation, and the message it carried.
#[derive(Debug)]
pub struct SqlFailure {
    pub constraint_code: bool,
    pub message: Option<String>,
}

/// The SQLite failure inside a `rusqlite::Error`, when it is one (`Error::SqliteFailure`).
/// Nothing is promised: the error value is opaque here.
#[verifier::external_body]
pub(crate) fn sql_failure_of(err: &rusqlite::Error) -> Option<SqlFailure> {
    match err {
        rusqlite::Error::SqliteFailure(code, message) => Some(
            SqlFailure {
                constraint_code: code.code == rusqlite::ErrorCode::ConstraintViolation,
                message: message.clone(),
            },
        ),
        _ => None,
    }
}

/// A SQLite failure is a uniqueness conflict when its code says so, or its message names a
/// failed UNIQUE or PRIMARY KEY constraint.
pub open spec fn failure_is_constraint_spec(f: Option<SqlFailure>) -> bool {
    match f {
        None => false,
        Some(f) => f.constraint_code || match f.message {
            None => false,
            Some(m) => crate::text::contains_seq(m@, "UNIQUE constraint failed"@)
                || crate::text::contains_seq(m@, "PRIMARY KEY constraint failed"@),
        },
    }
}

pub fn failure_is_constraint(f: &Option<SqlFailure>) -> (r: bool)
    ensures
        r == failure_is_constraint_spec(*f),
{
    match f {
        None => false,
        Some(f) => {
            if f.constraint_code {
                return true;
            }
            match &f.message {
                None => false,
                Some(m) => {
                    let mv = chars_of(m.as_str());
                    crate::text::contains_str(mv.as_slice(), "UNIQUE constraint failed")
                        || crate::text::contains_str(mv.as_slice(), "PRIMARY KEY constraint failed")
                },
            }
        },
    }
}

/// Whether an outside SQLite error is a uniqueness conflict; what the error holds is read by
/// [`sql_failure_of`], of which nothing is promised, so neither is the answer.
pub fn is_constraint_violation(err: &rusqlite::Error) -> bool {
    let f = sql_failure_of(err);
    failure_is_constraint(&f)
}

/// An insert that failed: a uniqueness conflict means the record already exists; any other
/// failure is passed on.
pub fn map_insert_conflict(err: rusqlite::Error) -> (r: StoreError)
    ensures
        (r matches StoreError::BranchAlreadyExists) || r == StoreError::Sql(err),
{
    let f = sql_failure_of(&err);
    insert_conflict_from(&f, err)
}

/// The error an insert failure maps to, given what was read of it.
pub fn insert_conflict_from(failure: &Option<SqlFailure>, err: rusqlite::Error) -> (r: StoreError)
    ensures
        failure_is_constraint_spec(*failure) ==> r matches StoreError::BranchAlreadyExists,
        !failure_is_constraint_spec(*failure) ==> r == StoreError::Sql(err),
{
    if failure_is_constraint(failure) {
        StoreError::BranchAlreadyExists
    } else {
        StoreError::Sql(err)
    }
}

} // verus!
