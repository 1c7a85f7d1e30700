//! Documents of a branch: the checks on document requests, how stored kinds are read back,
//! and how a page of entries read newest first is returned.

use vstd::prelude::*;

use crate::error::StoreError;
use crate::model::{DocEntryKind, DocEntryRow, DocSlice, DocumentKind};
use crate::text::{chars_eq_str, chars_of, trim_seq, trim_str};

verus! {

broadcast use vstd::string::group_string_axioms;

/// The invalid-input error `m`.
pub open spec fn fails_with<T>(r: Result<T, StoreError>, m: Seq<char>) -> bool {
    r matches Err(StoreError::InvalidInput(x)) && x@ == m
}

/// A document is named by a branch and a document name, neither blank.
pub fn check_doc_target(branch: &str, doc: &str) -> (r: Result<(), StoreError>)
    ensures
        trim_seq(branch@).len() == 0 ==> fails_with(r, "branch must not be empty"@),
        trim_seq(branch@).len() > 0 && trim_seq(doc@).len() == 0 ==> fails_with(
            r,
            "doc must not be empty"@,
        ),
        trim_seq(branch@).len() > 0 && trim_seq(doc@).len() > 0 ==> r is Ok,
{
    if trim_str(branch).len() == 0 {
        return Err(StoreError::InvalidInput("branch must not be empty"));
    }
    if trim_str(doc).len() == 0 {
        return Err(StoreError::InvalidInput("doc must not be empty"));
    }
    Ok(())
}

/// An entry to append: a named document and some content.
pub fn check_doc_append(branch: &str, doc: &str, content: &str) -> (r: Result<(), StoreError>)
    ensures
        trim_seq(branch@).len() == 0 ==> fails_with(r, "branch must not be empty"@),
        trim_seq(branch@).len() > 0 && trim_seq(doc@).len() == 0 ==> fails_with(
            r,
            "doc must not be empty"@,
        ),
        trim_seq(branch@).len() > 0 && trim_seq(doc@).len() > 0 && trim_seq(content@).len()
            == 0 ==> fails_with(r, "content must not be empty"@),
        trim_seq(branch@).len() > 0 && trim_seq(doc@).len() > 0 && trim_seq(content@).len() > 0
            ==> r is Ok,
{
    check_doc_target(branch, doc)?;
    if trim_str(content).len() == 0 {
        return Err(StoreError::InvalidInput("content must not be empty"));
    }
    Ok(())
}

/// A diff between two branches' views of a document: both branches and the document named.
pub fn check_doc_diff(from_branch: &str, to_branch: &str, doc: &str) -> (r: Result<(), StoreError>)
    ensures
        trim_seq(from_branch@).len() == 0 ==> fails_with(r, "from_branch must not be empty"@),
        trim_seq(from_branch@).len() > 0 && trim_seq(to_branch@).len() == 0 ==> fails_with(
            r,
            "to_branch must not be empty"@,
        ),
        trim_seq(from_branch@).len() > 0 && trim_seq(to_branch@).len() > 0 && trim_seq(doc@).len()
            == 0 ==> fails_with(r, "doc must not be empty"@),
        trim_seq(from_branch@).len() > 0 && trim_seq(to_branch@).len() > 0 && trim_seq(doc@).len()
            > 0 ==> r is Ok,
{
    if trim_str(from_branch).len() == 0 {
        return Err(StoreError::InvalidInput("from_branch must not be empty"));
    }
    if trim_str(to_branch).len() == 0 {
        return Err(StoreError::InvalidInput("to_branch must not be empty"));
    }
    if trim_str(doc).len() == 0 {
        return Err(StoreError::InvalidInput("doc must not be empty"));
    }
    Ok(())
}

/// Where a page of a document's tail starts and how long it is: before the cursor (from the
/// newest entry without one), between 1 and 200 entries.
pub fn doc_tail_window(cursor: Option<i64>, limit: usize) -> (r: (i64, usize))
    ensures
        r.0 == match cursor {
            Some(c) => c,
            None => i64::MAX,
        },
        r.1 == if limit < 1 {
            1
        } else if limit > 200 {
            200
        } else {
            limit
        },
{
    let before = match cursor {
        Some(c) => c,
        None => i64::MAX,
    };
    let l = if limit < 1 {
        1
    } else if limit > 200 {
        200
    } else {
        limit
    };
    (before, l)
}

/// The kind of an entry as stored: `note`, or anything else read as an event.
pub fn doc_entry_kind_of(stored: &str) -> (r: DocEntryKind)
    ensures
        r == if stored@ == "note"@ {
            DocEntryKind::Note
        } else {
            DocEntryKind::Event
        },
{
    let v = chars_of(stored);
    if chars_eq_str(v.as_slice(), "note") {
        DocEntryKind::Note
    } else {
        DocEntryKind::Event
    }
}

/// The kind of a document as stored: `trace` or `graph`, anything else read as notes.
pub fn document_kind_of(stored: &str) -> (r: DocumentKind)
    ensures
        r == if stored@ == "trace"@ {
            DocumentKind::Trace
        } else if stored@ == "graph"@ {
            DocumentKind::Graph
        } else {
            DocumentKind::Notes
        },
{
    let v = chars_of(stored);
    if chars_eq_str(v.as_slice(), "trace") {
        DocumentKind::Trace
    } else if chars_eq_str(v.as_slice(), "graph") {
        DocumentKind::Graph
    } else {
        DocumentKind::Notes
    }
}

/// A page of a document's tail: `newest_first` holds up to `limit + 1` entries read newest
/// first. At most `limit` are kept, returned oldest first; when there were more, the cursor
/// of the next page is the oldest entry kept.
pub fn doc_tail_page(newest_first: Vec<DocEntryRow>, limit: usize) -> (r: DocSlice)
    ensures
        r.has_more == (newest_first@.len() > limit),
        ({
            let kept = if newest_first@.len() > limit {
                newest_first@.subrange(0, limit as int)
            } else {
                newest_first@
            };
            &&& r.entries@ == kept.reverse()
            &&& r.next_cursor == if r.has_more && kept.len() > 0 {
                Some(kept.last().seq)
            } else {
                None::<i64>
            }
        }),
{
    let has_more = newest_first.len() > limit;
    let mut kept = newest_first;
    if has_more {
        kept.truncate(limit);
    }
    let next_cursor = if has_more && kept.len() > 0 {
        Some(kept[kept.len() - 1].seq)
    } else {
        None
    };
    let ghost kept_view = kept@;
    let mut entries: Vec<DocEntryRow> = Vec::new();
    assert(kept_view.subrange(0, kept_view.len() as int) =~= kept_view);
    while kept.len() > 0
        invariant
            kept@.len() <= kept_view.len(),
            kept@ == kept_view.subrange(0, kept@.len() as int),
            entries@ == kept_view.subrange(kept@.len() as int, kept_view.len() as int).reverse(),
        decreases kept@.len(),
    {
        let ghost i = kept@.len() - 1;
        let e = kept.pop().unwrap();
        proof {
            assert(kept_view.subrange(i, kept_view.len() as int).reverse() =~= kept_view.subrange(
                i + 1,
                kept_view.len() as int,
            ).reverse().push(kept_view[i]));
            assert(kept@ =~= kept_view.subrange(0, i));
        }
        entries.push(e);
    }
    assert(kept_view.subrange(0, kept_view.len() as int) =~= kept_view);
    DocSlice { entries, next_cursor, has_more }
}

/// A read of entries after a position: the document named, and the position not negative.
pub fn check_entries_since(branch: &str, doc: &str, since_seq: i64) -> (r: Result<(), StoreError>)
    ensures
        trim_seq(branch@).len() == 0 ==> fails_with(r, "branch must not be empty"@),
        trim_seq(branch@).len() > 0 && trim_seq(doc@).len() == 0 ==> fails_with(
            r,
            "doc must not be empty"@,
        ),
        trim_seq(branch@).len() > 0 && trim_seq(doc@).len() > 0 && since_seq < 0 ==> fails_with(
            r,
            "since_seq must be >= 0"@,
        ),
        trim_seq(branch@).len() > 0 && trim_seq(doc@).len() > 0 && since_seq >= 0 ==> r is Ok,
{
    check_doc_target(branch, doc)?;
    if since_seq < 0 {
        return Err(StoreError::InvalidInput("since_seq must be >= 0"));
    }
    Ok(())
}

/// A read of one entry by its position: the position is not negative.
pub fn check_entry_seq(seq: i64) -> (r: Result<(), StoreError>)
    ensures
        seq < 0 ==> fails_with(r, "seq must be >= 0"@),
        seq >= 0 ==> r is Ok,
{
    if seq < 0 {
        return Err(StoreError::InvalidInput("seq must be >= 0"));
    }
    Ok(())
}

} // verus!
