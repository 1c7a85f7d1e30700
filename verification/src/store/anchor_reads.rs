//! Reading anchors: the filters of a listing, how a stored anchor is read back, and the page
//! of a listing.

use vstd::prelude::*;

use super::anchor_upsert::{anchor_ids_of, anchor_ids_spec, sorted_from, sorted_strings, AnchorRow};
use super::anchors::{decode_json_string_list, decode_string_list_spec};
use super::error::StoreError;
use crate::graph::opt_view;
use crate::text::{append_chars, append_str, chars_of, lower_seq, string_of, strs, to_ascii_lower, trim_seq, trim_str};

verus! {

broadcast use vstd::string::group_string_axioms;

/// The most anchors a listing returns.
pub const MAX_ANCHOR_LIST_LIMIT: usize = 200;

/// A listing of anchors: a text searched in ids and titles, a kind, a status (a blank one is
/// no filter), and a limit.
#[derive(Clone, Debug)]
pub struct AnchorsListRequest {
    pub text: Option<String>,
    pub kind: Option<String>,
    pub status: Option<String>,
    pub limit: usize,
}

/// The filters as the store applies them: a `LIKE` pattern for the text, the lowered kind
/// and status, the limit, and how many rows are read to learn whether more are there.
#[derive(Clone, Debug)]
pub struct AnchorsListFilter {
    pub text_like: Option<String>,
    pub kind: Option<String>,
    pub status: Option<String>,
    pub limit: usize,
    pub query_limit: usize,
}

/// A page of anchors, by id.
#[derive(Debug)]
pub struct AnchorsListResult {
    pub anchors: Vec<AnchorRow>,
    pub has_more: bool,
}

/// `o` trimmed and lowered, when something is left.
pub open spec fn lowered_filter(o: Option<String>) -> Option<Seq<char>> {
    match o {
        Some(s) => if trim_seq(s@).len() > 0 {
            Some(lower_seq(trim_seq(s@)))
        } else {
            None
        },
        None => None,
    }
}

fn lowered(o: &Option<String>) -> (r: Option<String>)
    ensures
        opt_view(r) == lowered_filter(*o),
{
    match o {
        Some(s) => {
            let t = trim_str(s.as_str());
            if t.len() > 0 {
                Some(string_of(to_ascii_lower(t.as_slice()).as_slice()))
            } else {
                None
            }
        },
        None => None,
    }
}

/// The filters of a listing: the text becomes `%text%` (trimmed, lowered), kind and status are
/// trimmed and lowered, and the limit is held within 0..=200, with one row more read.
pub fn plan_anchors_list(request: &AnchorsListRequest) -> (r: AnchorsListFilter)
    ensures
        opt_view(r.text_like) == match lowered_filter(request.text) {
            Some(t) => Some("%"@ + t + "%"@),
            None => None::<Seq<char>>,
        },
        opt_view(r.kind) == lowered_filter(request.kind),
        opt_view(r.status) == lowered_filter(request.status),
        r.limit == if request.limit > MAX_ANCHOR_LIST_LIMIT {
            MAX_ANCHOR_LIST_LIMIT
        } else {
            request.limit
        },
        r.query_limit == r.limit + 1,
{
    let text_like = match lowered(&request.text) {
        Some(t) => {
            let mut p: Vec<char> = Vec::new();
            append_str(&mut p, "%");
            append_chars(&mut p, chars_of(t.as_str()).as_slice());
            append_str(&mut p, "%");
            Some(string_of(p.as_slice()))
        },
        None => None,
    };
    let limit = if request.limit > MAX_ANCHOR_LIST_LIMIT {
        MAX_ANCHOR_LIST_LIMIT
    } else {
        request.limit
    };
    AnchorsListFilter {
        text_like,
        kind: lowered(&request.kind),
        status: lowered(&request.status),
        limit,
        query_limit: limit + 1,
    }
}

/// An anchor read back from its row: its stored reference and dependency lists are decoded
/// (an unreadable one is refused, the references first) and each is sorted, once each.
pub fn stored_anchor(row: AnchorRow, refs_json: Option<String>, depends_on_json: Option<String>) -> (r:
    Result<AnchorRow, StoreError>)
    ensures
        ({
            let refs = decode_string_list_spec(opt_view(refs_json));
            let deps = decode_string_list_spec(opt_view(depends_on_json));
            match (refs, deps) {
                (Err(m), _) => r matches Err(StoreError::InvalidInput(x)) && x@ == m,
                (Ok(_), Err(m)) => r matches Err(StoreError::InvalidInput(x)) && x@ == m,
                (Ok(rs), Ok(ds)) => r matches Ok(a) && a.id@ == row.id@ && a.title@ == row.title@
                    && a.kind@ == row.kind@ && opt_view(a.description) == opt_view(row.description)
                    && strs(a.aliases@) == strs(row.aliases@) && opt_view(a.parent_id) == opt_view(
                    row.parent_id,
                ) && a.status@ == row.status@ && a.created_at_ms == row.created_at_ms
                    && a.updated_at_ms == row.updated_at_ms && sorted_from(strs(a.refs@), rs)
                    && sorted_from(strs(a.depends_on@), ds),
            }
        }),
{
    let refs = decode_json_string_list(refs_json)?;
    let deps = decode_json_string_list(depends_on_json)?;
    let mut a = row;
    a.refs = sorted_strings(&refs);
    a.depends_on = sorted_strings(&deps);
    Ok(a)
}

/// The page cut from anchors read one more than the limit at most: the first `limit`, and
/// whether more were there.
pub fn anchors_page(anchors: Vec<AnchorRow>, limit: usize) -> (r: AnchorsListResult)
    ensures
        r.has_more == (anchors@.len() > limit),
        r.anchors@ == if r.has_more {
            anchors@.take(limit as int)
        } else {
            anchors@
        },
{
    let mut anchors = anchors;
    let has_more = anchors.len() > limit;
    anchors.truncate(limit);
    AnchorsListResult { anchors, has_more }
}

/// An anchor with its aliases, sorted and once each.
pub fn with_aliases(anchor: AnchorRow, aliases: Vec<String>) -> (r: AnchorRow)
    ensures
        r.id@ == anchor.id@,
        sorted_from(strs(r.aliases@), strs(aliases@)),
        strs(r.refs@) == strs(anchor.refs@),
        strs(r.depends_on@) == strs(anchor.depends_on@),
        r.title@ == anchor.title@,
        r.status@ == anchor.status@,
{
    let mut a = anchor;
    a.aliases = sorted_strings(&aliases);
    a
}

/// The anchors a request names, each normalized, sorted and once; the first raw id that is
/// not an anchor id is refused.
pub fn anchor_id_set(raws: &Vec<String>) -> (r: Result<Vec<String>, StoreError>)
    ensures
        match (r, anchor_ids_spec(strs(raws@))) {
            (Ok(v), Ok(w)) => sorted_from(strs(v@), w),
            (Err(StoreError::InvalidInput(m)), Err(w)) => m@ == w,
            _ => false,
        },
{
    let ids = anchor_ids_of(raws)?;
    Ok(sorted_strings(&ids))
}

} // verus!
