//! Reading the graph of a document page by page: a query of its cards, the list of its
//! merge conflicts, and the cards written since a sequence number.

use vstd::prelude::*;

use crate::docs::fails_with;
use crate::error::StoreError;
use crate::graph::GraphNode;
use crate::text::{trim_seq, trim_str};

verus! {

broadcast use vstd::string::group_string_axioms;

/// A query of the cards of a document. The store reads the newest version of each card
/// before the cursor; the filters narrow that set.
#[derive(Clone, Debug)]
pub struct GraphQueryRequest {
    pub ids: Option<Vec<String>>,
    pub types: Option<Vec<String>>,
    pub status: Option<String>,
    pub tags_any: Option<Vec<String>>,
    pub tags_all: Option<Vec<String>>,
    pub text: Option<String>,
    pub cursor: Option<i64>,
    pub limit: usize,
    pub include_edges: bool,
    pub edges_limit: usize,
}

/// The bounds of a query as the store runs it.
#[derive(Clone, Copy, Debug)]
pub struct GraphQueryBounds {
    /// Only versions written before this sequence number are read.
    pub before_seq: i64,
    /// At most this many cards are returned.
    pub limit: usize,
    /// At most this many edges are returned around them.
    pub edges_limit: usize,
}

/// `x` held within `lo..=hi`.
pub open spec fn clamp_spec(x: int, lo: int, hi: int) -> int {
    if x < lo {
        lo
    } else if x > hi {
        hi
    } else {
        x
    }
}

/// A query names its branch and document; its cursor defaults to the end of the document,
/// its card limit is held within 1..=200 and its edge limit within 0..=1000.
pub fn graph_query_bounds(branch: &str, doc: &str, request: &GraphQueryRequest) -> (r: Result<
    GraphQueryBounds,
    StoreError,
>)
    ensures
        trim_seq(branch@).len() == 0 ==> fails_with(r, "branch must not be empty"@),
        trim_seq(branch@).len() > 0 && trim_seq(doc@).len() == 0 ==> fails_with(
            r,
            "doc must not be empty"@,
        ),
        trim_seq(branch@).len() > 0 && trim_seq(doc@).len() > 0 ==> (r matches Ok(b) && b.before_seq
            == (match request.cursor {
            Some(c) => c,
            None => i64::MAX,
        }) && b.limit == clamp_spec(request.limit as int, 1, 200) && b.edges_limit == clamp_spec(
            request.edges_limit as int,
            0,
            1000,
        )),
{
    if trim_str(branch).len() == 0 {
        return Err(StoreError::InvalidInput("branch must not be empty"));
    }
    if trim_str(doc).len() == 0 {
        return Err(StoreError::InvalidInput("doc must not be empty"));
    }
    let before_seq = match request.cursor {
        Some(c) => c,
        None => i64::MAX,
    };
    let limit = if request.limit < 1 {
        1
    } else if request.limit > 200 {
        200
    } else {
        request.limit
    };
    let edges_limit = if request.edges_limit > 1000 {
        1000
    } else {
        request.edges_limit
    };
    Ok(GraphQueryBounds { before_seq, limit, edges_limit })
}

/// The page cut from cards read newest first, one more than the limit at most: the first
/// `limit` of them, whether more were there, and, when there were, the sequence number of
/// the last card kept, from which the next page reads on.
pub fn cards_page(nodes: Vec<GraphNode>, limit: usize) -> (r: (Vec<GraphNode>, Option<i64>, bool))
    requires
        limit >= 1,
    ensures
        r.2 == (nodes@.len() > limit),
        r.0@ == if r.2 {
            nodes@.take(limit as int)
        } else {
            nodes@
        },
        r.1 == if r.2 {
            Some(nodes@[limit - 1].last_seq)
        } else {
            None::<i64>
        },
{
    let mut nodes = nodes;
    let has_more = nodes.len() > limit;
    if has_more {
        nodes.truncate(limit);
    }
    let next_cursor = if has_more {
        Some(nodes[limit - 1].last_seq)
    } else {
        None
    };
    (nodes, next_cursor, has_more)
}

/// The edges around the cards of a page are read only when the query asks for them, the page
/// holds a card, and the edge limit is above zero.
pub fn edges_wanted(request: &GraphQueryRequest, page_len: usize, edges_limit: usize) -> (r: bool)
    ensures
        r == (request.include_edges && page_len > 0 && edges_limit > 0),
{
    request.include_edges && page_len > 0 && edges_limit > 0
}

/// One line of the list of merge conflicts.
#[derive(Clone, Debug)]
pub struct GraphConflictSummary {
    pub conflict_id: String,
    pub kind: String,
    pub key: String,
    pub status: String,
    pub created_at_ms: i64,
}

/// The bounds of a listing of conflicts as the store runs it.
#[derive(Clone, Debug)]
pub struct ConflictListBounds {
    /// Only conflicts created before this time are listed.
    pub before_created_at: i64,
    /// At most this many are returned.
    pub limit: usize,
    /// The status listed.
    pub status: String,
}

/// A listing of conflicts names the branch merged into and the document; it lists the open
/// conflicts unless told another status, from the newest, at most 1..=200 of them.
pub fn conflict_list_bounds(
    into_branch: &str,
    doc: &str,
    status: Option<&str>,
    cursor: Option<i64>,
    limit: usize,
) -> (r: Result<ConflictListBounds, StoreError>)
    ensures
        trim_seq(into_branch@).len() == 0 ==> fails_with(r, "into_branch must not be empty"@),
        trim_seq(into_branch@).len() > 0 && trim_seq(doc@).len() == 0 ==> fails_with(
            r,
            "doc must not be empty"@,
        ),
        trim_seq(into_branch@).len() > 0 && trim_seq(doc@).len() > 0 ==> (r matches Ok(b)
            && b.before_created_at == (match cursor {
            Some(c) => c,
            None => i64::MAX,
        }) && b.limit == clamp_spec(limit as int, 1, 200) && b.status@ == (match status {
            Some(s) => s@,
            None => "open"@,
        })),
{
    if trim_str(into_branch).len() == 0 {
        return Err(StoreError::InvalidInput("into_branch must not be empty"));
    }
    if trim_str(doc).len() == 0 {
        return Err(StoreError::InvalidInput("doc must not be empty"));
    }
    let before_created_at = match cursor {
        Some(c) => c,
        None => i64::MAX,
    };
    let limit = if limit < 1 {
        1
    } else if limit > 200 {
        200
    } else {
        limit
    };
    let status = match status {
        Some(s) => s.to_owned(),
        None => "open".to_owned(),
    };
    Ok(ConflictListBounds { before_created_at, limit, status })
}

/// The page cut from conflicts read newest first, one more than the limit at most: the first
/// `limit`, whether more were there, and, when there were, the creation time of the last one
/// kept.
pub fn conflicts_page(rows: Vec<GraphConflictSummary>, limit: usize) -> (r: (
    Vec<GraphConflictSummary>,
    Option<i64>,
    bool,
))
    requires
        limit >= 1,
    ensures
        r.2 == (rows@.len() > limit),
        r.0@ == if r.2 {
            rows@.take(limit as int)
        } else {
            rows@
        },
        r.1 == if r.2 {
            Some(rows@[limit - 1].created_at_ms)
        } else {
            None::<i64>
        },
{
    let mut rows = rows;
    let has_more = rows.len() > limit;
    if has_more {
        rows.truncate(limit);
    }
    let next_cursor = if has_more {
        Some(rows[limit - 1].created_at_ms)
    } else {
        None
    };
    (rows, next_cursor, has_more)
}

/// The cards written on a branch's document after `since_seq`: the branch and document are
/// named, `since_seq` is not negative, and at most 0..=200 cards are read (none when the
/// limit is zero).
pub fn cards_since_limit(branch: &str, doc: &str, since_seq: i64, limit: usize) -> (r: Result<
    usize,
    StoreError,
>)
    ensures
        trim_seq(branch@).len() == 0 ==> fails_with(r, "branch must not be empty"@),
        trim_seq(branch@).len() > 0 && trim_seq(doc@).len() == 0 ==> fails_with(
            r,
            "doc must not be empty"@,
        ),
        trim_seq(branch@).len() > 0 && trim_seq(doc@).len() > 0 && since_seq < 0 ==> fails_with(
            r,
            "since_seq must be >= 0"@,
        ),
        trim_seq(branch@).len() > 0 && trim_seq(doc@).len() > 0 && since_seq >= 0 ==> r == Ok::<
            usize,
            StoreError,
        >(clamp_spec(limit as int, 0, 200) as usize),
{
    if trim_str(branch).len() == 0 {
        return Err(StoreError::InvalidInput("branch must not be empty"));
    }
    if trim_str(doc).len() == 0 {
        return Err(StoreError::InvalidInput("doc must not be empty"));
    }
    if since_seq < 0 {
        return Err(StoreError::InvalidInput("since_seq must be >= 0"));
    }
    Ok(if limit > 200 {
        200
    } else {
        limit
    })
}

/// The cards of `rows` that are not deleted, in their order.
pub open spec fn live_of(rows: Seq<GraphNode>) -> Seq<GraphNode> {
    rows.filter(|n: GraphNode| !n.deleted)
}

/// The cards of a read that are not deleted, in the order read.
pub fn live_cards(rows: Vec<GraphNode>) -> (r: Vec<GraphNode>)
    ensures
        r@ == live_of(rows@),
{
    let mut out: Vec<GraphNode> = Vec::new();
    let mut rest = rows;
    let ghost all = rest@;
    let ghost mut i: int = 0;
    while rest.len() > 0
        invariant
            0 <= i <= all.len(),
            rest@ == all.skip(i),
            out@ == live_of(all.take(i)),
        decreases rest@.len(),
    {
        let n = rest.remove(0);
        proof {
            assert(all.take(i + 1).drop_last() =~= all.take(i));
            assert(all.take(i + 1).last() == n);
            assert(rest@ =~= all.skip(i + 1));
            reveal(Seq::filter);
            assert(live_of(all.take(i + 1)) == if !n.deleted {
                live_of(all.take(i)).push(n)
            } else {
                live_of(all.take(i))
            });
        }
        if !n.deleted {
            out.push(n);
        }
        proof {
            i = i + 1;
        }
    }
    proof {
        assert(all.take(i) =~= all);
    }
    out
}

} // verus!
