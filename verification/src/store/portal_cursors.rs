//! Portal cursors: how far a tool has read a target's lane, and the checks on their keys.

use vstd::prelude::*;

use super::error::StoreError;
use crate::text::{string_of, trim_seq, trim_str};

verus! {

broadcast use vstd::string::group_string_axioms;

/// The first blank part of a cursor's key (tool, target, lane): its error.
pub open spec fn cursor_key_error(tool: Seq<char>, target_id: Seq<char>, lane: Seq<char>) -> Option<Seq<char>> {
    if trim_seq(tool).len() == 0 {
        Some("tool must not be empty"@)
    } else if trim_seq(target_id).len() == 0 {
        Some("target_id must not be empty"@)
    } else if trim_seq(lane).len() == 0 {
        Some("lane must not be empty"@)
    } else {
        None
    }
}

/// The key of a cursor, its parts trimmed; each must be non-blank.
pub fn portal_cursor_key(tool: &str, target_id: &str, lane: &str) -> (r: Result<
    (String, String, String),
    StoreError,
>)
    ensures
        match cursor_key_error(tool@, target_id@, lane@) {
            Some(m) => r matches Err(StoreError::InvalidInput(x)) && x@ == m,
            None => r matches Ok((a, b, c)) && a@ == trim_seq(tool@) && b@ == trim_seq(target_id@)
                && c@ == trim_seq(lane@),
        },
{
    let t = trim_str(tool);
    let g = trim_str(target_id);
    let l = trim_str(lane);
    if t.len() == 0 {
        return Err(StoreError::InvalidInput("tool must not be empty"));
    }
    if g.len() == 0 {
        return Err(StoreError::InvalidInput("target_id must not be empty"));
    }
    if l.len() == 0 {
        return Err(StoreError::InvalidInput("lane must not be empty"));
    }
    Ok((string_of(t.as_slice()), string_of(g.as_slice()), string_of(l.as_slice())))
}

/// A cursor is set to a key that passes and a position that is not negative.
pub fn check_portal_cursor_set(tool: &str, target_id: &str, lane: &str, last_seq: i64) -> (r: Result<
    (String, String, String),
    StoreError,
>)
    ensures
        match cursor_key_error(tool@, target_id@, lane@) {
            Some(m) => r matches Err(StoreError::InvalidInput(x)) && x@ == m,
            None => if last_seq < 0 {
                r matches Err(StoreError::InvalidInput(x)) && x@ == "last_seq must be >= 0"@
            } else {
                r matches Ok((a, b, c)) && a@ == trim_seq(tool@) && b@ == trim_seq(target_id@)
                    && c@ == trim_seq(lane@)
            },
        },
{
    let key = portal_cursor_key(tool, target_id, lane)?;
    if last_seq < 0 {
        return Err(StoreError::InvalidInput("last_seq must be >= 0"));
    }
    Ok(key)
}

} // verus!
