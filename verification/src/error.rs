//! Errors of the task, document and graph store.

use vstd::prelude::*;

use crate::num::{dec_int, i64_to_dec};
use crate::store::error::{io_error_text, sql_error_text};
use crate::text::{append_chars, append_str, has_prefix, string_of};

verus! {

broadcast use vstd::string::group_string_axioms;

#[derive(Debug)]
pub enum StoreError {
    Io(std::io::Error),
    Sql(rusqlite::Error),
    InvalidInput(&'static str),
    RevisionMismatch { expected: i64, actual: i64 },
    UnknownId,
    UnknownBranch,
    UnknownConflict,
    ConflictAlreadyResolved,
    MergeNotSupported,
    BranchAlreadyExists,
    BranchCycle,
    BranchDepthExceeded,
    StepNotFound,
    CheckpointsNotConfirmed { criteria: bool, tests: bool },
}

pub open spec fn bool_text(b: bool) -> Seq<char> {
    if b {
        "true"@
    } else {
        "false"@
    }
}

/// How an error reads for people, apart from the outside error's own text.
pub open spec fn message_spec(e: StoreError) -> Seq<char> {
    match e {
        StoreError::Io(_) => "io: "@,
        StoreError::Sql(_) => "sqlite: "@,
        StoreError::InvalidInput(m) => "invalid input: "@ + m@,
        StoreError::RevisionMismatch { expected, actual } => "revision mismatch (expected="@
            + dec_int(expected as int) + ", actual="@ + dec_int(actual as int) + ")"@,
        StoreError::UnknownId => "unknown id"@,
        StoreError::UnknownBranch => "unknown branch"@,
        StoreError::UnknownConflict => "unknown conflict"@,
        StoreError::ConflictAlreadyResolved => "conflict already resolved"@,
        StoreError::MergeNotSupported => "merge not supported"@,
        StoreError::BranchAlreadyExists => "branch already exists"@,
        StoreError::BranchCycle => "branch base cycle"@,
        StoreError::BranchDepthExceeded => "branch base depth exceeded"@,
        StoreError::StepNotFound => "step not found"@,
        StoreError::CheckpointsNotConfirmed { criteria, tests } => "checkpoints not confirmed (criteria="@
            + bool_text(criteria) + ", tests="@ + bool_text(tests) + ")"@,
    }
}

fn push_bool(out: &mut Vec<char>, b: bool)
    ensures
        final(out)@ == old(out)@ + bool_text(b),
{
    if b {
        append_str(out, "true");
    } else {
        append_str(out, "false");
    }
}

impl StoreError {
    /// The text `Display` shows for this error.
    pub fn message(&self) -> (r: String)
        ensures
            match self {
                StoreError::Io(_) | StoreError::Sql(_) => has_prefix(r@, message_spec(*self)),
                _ => r@ == message_spec(*self),
            },
    {
        let mut out: Vec<char> = Vec::new();
        match self {
            StoreError::Io(err) => {
                append_str(&mut out, "io: ");
                let t = io_error_text(err);
                append_str(&mut out, t.as_str());
            },
            StoreError::Sql(err) => {
                append_str(&mut out, "sqlite: ");
                let t = sql_error_text(err);
                append_str(&mut out, t.as_str());
            },
            StoreError::InvalidInput(m) => {
                append_str(&mut out, "invalid input: ");
                append_str(&mut out, m);
            },
            StoreError::RevisionMismatch { expected, actual } => {
                append_str(&mut out, "revision mismatch (expected=");
                let e = i64_to_dec(*expected);
                append_chars(&mut out, e.as_slice());
                append_str(&mut out, ", actual=");
                let a = i64_to_dec(*actual);
                append_chars(&mut out, a.as_slice());
                append_str(&mut out, ")");
            },
            StoreError::UnknownId => append_str(&mut out, "unknown id"),
            StoreError::UnknownBranch => append_str(&mut out, "unknown branch"),
            StoreError::UnknownConflict => append_str(&mut out, "unknown conflict"),
            StoreError::ConflictAlreadyResolved => append_str(&mut out, "conflict already resolved"),
            StoreError::MergeNotSupported => append_str(&mut out, "merge not supported"),
            StoreError::BranchAlreadyExists => append_str(&mut out, "branch already exists"),
            StoreError::BranchCycle => append_str(&mut out, "branch base cycle"),
            StoreError::BranchDepthExceeded => append_str(&mut out, "branch base depth exceeded"),
            StoreError::StepNotFound => append_str(&mut out, "step not found"),
            StoreError::CheckpointsNotConfirmed { criteria, tests } => {
                append_str(&mut out, "checkpoints not confirmed (criteria=");
                push_bool(&mut out, *criteria);
                append_str(&mut out, ", tests=");
                push_bool(&mut out, *tests);
                append_str(&mut out, ")");
            },
        }
        proof {
            match self {
                StoreError::Io(_) | StoreError::Sql(_) => {
                    assert(out@.take(message_spec(*self).len() as int) =~= message_spec(*self));
                },
                _ => {
                    assert(out@ =~= message_spec(*self));
                },
            }
        }
        string_of(out.as_slice())
    }
}

} // verus!
