//! Errors of the branch / commit / merge store.

use vstd::prelude::*;

use crate::text::{chars_of, has_prefix, starts_with_str};

verus! {

/// `rusqlite::Error`, carried through unchanged.
#[verifier::external_type_specification]
#[verifier::external_body]
pub struct ExRusqliteError(rusqlite::Error);

/// `std::io::Error`, carried through unchanged.
#[verifier::external_type_specification]
#[verifier::external_body]
pub struct ExIoError(std::io::Error);

#[derive(Debug)]
pub enum StoreError {
    Io(std::io::Error),
    Sql(rusqlite::Error),
    InvalidInput(&'static str),
    UnknownId,
    UnknownBranch,
    BranchAlreadyExists,
    BranchCycle,
    BranchDepthExceeded,
}

/// The error is `InvalidInput` with exactly the message `msg`.
pub open spec fn is_invalid_input<T>(r: Result<T, StoreError>, msg: &str) -> bool {
    r matches Err(StoreError::InvalidInput(m)) && m@ == msg@
}

/// Messages that ask the user to wipe legacy storage.
pub open spec fn is_reset_message(message: &str) -> bool {
    has_prefix(message@, "RESET_REQUIRED"@)
}

/// The stable code reported for an error.
pub open spec fn spec_code(e: StoreError) -> &'static str {
    match e {
        StoreError::Io(_) | StoreError::Sql(_) => "INTERNAL",
        StoreError::InvalidInput(m) => if is_reset_message(m) {
            "RESET_REQUIRED"
        } else {
            "INVALID_INPUT"
        },
        StoreError::UnknownId | StoreError::UnknownBranch => "NOT_FOUND",
        StoreError::BranchAlreadyExists => "ALREADY_EXISTS",
        StoreError::BranchCycle => "BRANCH_CYCLE",
        StoreError::BranchDepthExceeded => "BRANCH_DEPTH_EXCEEDED",
    }
}

/// The recovery hint reported for an error, when there is one.
pub open spec fn spec_recovery_hint(e: StoreError) -> Option<&'static str> {
    match e {
        StoreError::InvalidInput(m) => if is_reset_message(m) {
            Some("legacy storage is not supported: backup data, wipe storage dir, then re-open")
        } else {
            None
        },
        StoreError::BranchAlreadyExists => Some("use a different identifier or delete existing record"),
        StoreError::UnknownId | StoreError::UnknownBranch => Some("create required entity before retry"),
        _ => None,
    }
}

/// Every error that a caller can recover from says how: errors whose code is
/// `RESET_REQUIRED`, `NOT_FOUND` or `ALREADY_EXISTS` carry a recovery hint, and no other
/// error does.
pub proof fn lemma_hint_follows_code(e: StoreError)
    ensures
        spec_recovery_hint(e) is Some <==> (spec_code(e)@ == "RESET_REQUIRED"@ || spec_code(e)@
            == "NOT_FOUND"@ || spec_code(e)@ == "ALREADY_EXISTS"@),
{
    reveal_strlit("RESET_REQUIRED");
    reveal_strlit("NOT_FOUND");
    reveal_strlit("ALREADY_EXISTS");
    reveal_strlit("INTERNAL");
    reveal_strlit("INVALID_INPUT");
    reveal_strlit("BRANCH_CYCLE");
    reveal_strlit("BRANCH_DEPTH_EXCEEDED");
    assert("INTERNAL"@[0] != "RESET_REQUIRED"@[0] && "INTERNAL"@[0] != "NOT_FOUND"@[0]
        && "INTERNAL"@[0] != "ALREADY_EXISTS"@[0]);
    assert("INVALID_INPUT"@[0] != "RESET_REQUIRED"@[0] && "INVALID_INPUT"@[0] != "NOT_FOUND"@[0]
        && "INVALID_INPUT"@[0] != "ALREADY_EXISTS"@[0]);
    assert("BRANCH_CYCLE"@[0] != "RESET_REQUIRED"@[0] && "BRANCH_CYCLE"@[0] != "NOT_FOUND"@[0]
        && "BRANCH_CYCLE"@[0] != "ALREADY_EXISTS"@[0]);
    assert("BRANCH_DEPTH_EXCEEDED"@[0] != "RESET_REQUIRED"@[0] && "BRANCH_DEPTH_EXCEEDED"@[0]
        != "NOT_FOUND"@[0] && "BRANCH_DEPTH_EXCEEDED"@[0] != "ALREADY_EXISTS"@[0]);
}

fn message_is_reset(message: &str) -> (r: bool)
    ensures
        r == is_reset_message(message),
{
    let v = chars_of(message);
    starts_with_str(v.as_slice(), "RESET_REQUIRED")
}

impl StoreError {
    pub fn code(&self) -> (r: &'static str)
        ensures
            r == spec_code(*self),
    {
        match self {
            StoreError::Io(_) | StoreError::Sql(_) => "INTERNAL",
            StoreError::InvalidInput(message) => {
                if message_is_reset(message) {
                    "RESET_REQUIRED"
                } else {
                    "INVALID_INPUT"
                }
            },
            StoreError::UnknownId | StoreError::UnknownBranch => "NOT_FOUND",
            StoreError::BranchAlreadyExists => "ALREADY_EXISTS",
            StoreError::BranchCycle => "BRANCH_CYCLE",
            StoreError::BranchDepthExceeded => "BRANCH_DEPTH_EXCEEDED",
        }
    }

    pub fn recovery_hint(&self) -> (r: Option<&'static str>)
        ensures
            r == spec_recovery_hint(*self),
    {
        match self {
            StoreError::InvalidInput(message) => {
                if message_is_reset(message) {
                    Some(
                        "legacy storage is not supported: backup data, wipe storage dir, then re-open",
                    )
                } else {
                    None
                }
            },
            StoreError::BranchAlreadyExists => Some(
                "use a different identifier or delete existing record",
            ),
            StoreError::UnknownId | StoreError::UnknownBranch => Some(
                "create required entity before retry",
            ),
            _ => None,
        }
    }
}

/// A string-or-error result equals the outcome `s`: the same text, or `InvalidInput` with the
/// same message.
pub open spec fn result_matches(r: Result<String, StoreError>, s: Result<Seq<char>, Seq<char>>) -> bool {
    match (r, s) {
        (Ok(v), Ok(w)) => v@ == w,
        (Err(StoreError::InvalidInput(m)), Err(w)) => m@ == w,
        _ => false,
    }
}

/// An optional-string-or-error result equals the outcome `s`.
pub open spec fn opt_result_matches(
    r: Result<Option<String>, StoreError>,
    s: Result<Option<Seq<char>>, Seq<char>>,
) -> bool {
    match (r, s) {
        (Ok(None), Ok(None)) => true,
        (Ok(Some(v)), Ok(Some(w))) => v@ == w,
        (Err(StoreError::InvalidInput(m)), Err(w)) => m@ == w,
        _ => false,
    }
}

/// A list-or-error result equals the outcome `s`.
pub open spec fn list_result_matches(
    r: Result<Vec<String>, StoreError>,
    s: Result<Seq<Seq<char>>, Seq<char>>,
) -> bool {
    match (r, s) {
        (Ok(v), Ok(w)) => crate::text::strs(v@) == w,
        (Err(StoreError::InvalidInput(m)), Err(w)) => m@ == w,
        _ => false,
    }
}

/// `Display` for an outside error (`io::Error`, `rusqlite::Error`). Nothing is promised of
/// the text: it depends on the error value, which is opaque here.
#[verifier::external_body]
pub(crate) fn io_error_text(err: &std::io::Error) -> String {
    err.to_string()
}

/// `Display` for a `rusqlite::Error`. Nothing is promised of the text.
#[verifier::external_body]
pub(crate) fn sql_error_text(err: &rusqlite::Error) -> String {
    err.to_string()
}

/// How an error reads for people, apart from the outside error's own text.
pub open spec fn message_spec(e: StoreError) -> Seq<char> {
    match e {
        StoreError::Io(_) => "io: "@,
        StoreError::Sql(_) => "sqlite: "@,
        StoreError::InvalidInput(m) => "invalid input: "@ + m@,
        StoreError::UnknownId => "unknown id"@,
        StoreError::UnknownBranch => "unknown branch"@,
        StoreError::BranchAlreadyExists => "branch already exists"@,
        StoreError::BranchCycle => "branch parent cycle"@,
        StoreError::BranchDepthExceeded => "branch depth exceeded"@,
    }
}

impl StoreError {
    /// The text `Display` shows for this error.
    pub fn message(&self) -> (r: String)
        ensures
            match self {
                StoreError::Io(_) | StoreError::Sql(_) => crate::text::has_prefix(
                    r@,
                    message_spec(*self),
                ),
                _ => r@ == message_spec(*self),
            },
    {
        let mut out: Vec<char> = Vec::new();
        match self {
            StoreError::Io(err) => {
                crate::text::append_str(&mut out, "io: ");
                let t = io_error_text(err);
                crate::text::append_str(&mut out, t.as_str());
            },
            StoreError::Sql(err) => {
                crate::text::append_str(&mut out, "sqlite: ");
                let t = sql_error_text(err);
                crate::text::append_str(&mut out, t.as_str());
            },
            StoreError::InvalidInput(m) => {
                crate::text::append_str(&mut out, "invalid input: ");
                crate::text::append_str(&mut out, m);
            },
            StoreError::UnknownId => crate::text::append_str(&mut out, "unknown id"),
            StoreError::UnknownBranch => crate::text::append_str(&mut out, "unknown branch"),
            StoreError::BranchAlreadyExists => crate::text::append_str(&mut out, "branch already exists"),
            StoreError::BranchCycle => crate::text::append_str(&mut out, "branch parent cycle"),
            StoreError::BranchDepthExceeded => crate::text::append_str(&mut out, "branch depth exceeded"),
        }
        proof {
            match self {
                StoreError::Io(_) | StoreError::Sql(_) => {
                    assert(out@.take(message_spec(*self).len() as int) =~= message_spec(*self));
                },
                _ => {
                    assert(out@ =~= message_spec(*self));
                },
            }
        }
        crate::text::string_of(out.as_slice())
    }
}

} // verus!
