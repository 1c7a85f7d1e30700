//! Shared field normalization: trimmed, non-empty, bounded text.

use vstd::prelude::*;

use super::error::{opt_result_matches, result_matches, StoreError};
use crate::text::{string_of, take_chars, take_chars_string, trim_seq, trim_str, utf8_len, utf8_len_exceeds};

verus! {

/// The trimmed text; `empty` when nothing is left, `too_long` when over `max` bytes.
pub open spec fn bounded_trimmed_spec(
    raw: Seq<char>,
    max: nat,
    empty: Seq<char>,
    too_long: Seq<char>,
) -> Result<Seq<char>, Seq<char>> {
    let t = trim_seq(raw);
    if t.len() == 0 {
        Err(empty)
    } else if utf8_len(t) > max {
        Err(too_long)
    } else {
        Ok(t)
    }
}

pub fn bounded_trimmed(raw: &str, max: usize, empty: &'static str, too_long: &'static str) -> (r:
    Result<String, StoreError>)
    ensures
        result_matches(r, bounded_trimmed_spec(raw@, max as nat, empty@, too_long@)),
{
    let t = trim_str(raw);
    if t.len() == 0 {
        return Err(StoreError::InvalidInput(empty));
    }
    if utf8_len_exceeds(t.as_slice(), max) {
        return Err(StoreError::InvalidInput(too_long));
    }
    Ok(string_of(t.as_slice()))
}

/// The trimmed text cut to its first `max` characters; `empty` when nothing is left.
pub open spec fn clipped_trimmed_spec(raw: Seq<char>, max: nat, empty: Seq<char>) -> Result<
    Seq<char>,
    Seq<char>,
> {
    let t = trim_seq(raw);
    if t.len() == 0 {
        Err(empty)
    } else {
        Ok(take_chars(t, max))
    }
}

pub fn clipped_trimmed(raw: &str, max: usize, empty: &'static str) -> (r: Result<String, StoreError>)
    ensures
        result_matches(r, clipped_trimmed_spec(raw@, max as nat, empty@)),
{
    let t = trim_str(raw);
    if t.len() == 0 {
        return Err(StoreError::InvalidInput(empty));
    }
    Ok(take_chars_string(t.as_slice(), max))
}

/// The trimmed text, or the error `field` when nothing is left.
pub fn normalize_non_empty(value: &str, field: &'static str) -> (r: Result<String, StoreError>)
    ensures
        result_matches(
            r,
            if trim_seq(value@).len() == 0 {
                Err(field@)
            } else {
                Ok(trim_seq(value@))
            },
        ),
{
    let t = trim_str(value);
    if t.len() == 0 {
        return Err(StoreError::InvalidInput(field));
    }
    Ok(string_of(t.as_slice()))
}

/// An optional filter: its trimmed text, unless it is missing or blank.
pub fn present_filter(raw: Option<&str>) -> (r: Option<String>)
    ensures
        match raw {
            Some(s) if trim_seq(s@).len() > 0 => r matches Some(v) && v@ == trim_seq(s@),
            _ => r is None,
        },
{
    match raw {
        Some(s) => {
            let t = trim_str(s);
            if t.len() > 0 {
                Some(string_of(t.as_slice()))
            } else {
                None
            }
        },
        None => None,
    }
}

} // verus!
