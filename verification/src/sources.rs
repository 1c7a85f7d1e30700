//! The effective view of a branch: the branch itself, then its bases up the chain, each read
//! up to the sequence number at which its child forked off.

use vstd::prelude::*;

use crate::error::StoreError;
use crate::graph::{GraphEdge, GraphNode};
use crate::num::{dec_int, i64_to_dec};
use crate::text::{append_chars, append_str, chars_eq, chars_of, string_of, strs};

verus! {

broadcast use vstd::string::group_string_axioms;

/// How many bases up a branch's view may reach.
pub const MAX_SOURCE_DEPTH: usize = 32;

/// One branch of a view, read up to `cutoff_seq` (all of it when `None`).
#[derive(Debug)]
pub struct BranchSource {
    pub branch: String,
    pub cutoff_seq: Option<i64>,
}

/// Walking up from a branch to collect its view, one base row at a time.
#[derive(Debug)]
pub struct SourcesWalk {
    pub sources: Vec<BranchSource>,
    pub depth: usize,
}

/// The cutoffs only shrink going up: every base is read no further than any base below it.
pub open spec fn cutoffs_shrink(s: Seq<BranchSource>) -> bool {
    forall|i: int, j: int|
        1 <= i < j < s.len() ==> (#[trigger] s[i]).cutoff_seq is Some && (#[trigger] s[j]).cutoff_seq is Some
            && s[j].cutoff_seq->0 <= s[i].cutoff_seq->0
}

/// A walk so far: it starts at the branch itself (read in full), names each branch once, its
/// bases carry cutoffs that only shrink, and it took one step per base.
pub open spec fn walk_ok(w: SourcesWalk) -> bool {
    &&& w.sources@.len() >= 1
    &&& w.sources@[0].cutoff_seq is None
    &&& forall|i: int| 1 <= i < w.sources@.len() ==> (#[trigger] w.sources@[i]).cutoff_seq is Some
    &&& cutoffs_shrink(w.sources@)
    &&& forall|i: int, j: int|
        0 <= i < j < w.sources@.len() ==> (#[trigger] w.sources@[i]).branch@ != (#[trigger] w.sources@[j]).branch@
    &&& w.sources@.len() == w.depth + 1
    &&& w.depth < MAX_SOURCE_DEPTH
}

/// The branch the next base row is read for.
pub open spec fn walk_current(w: SourcesWalk) -> Seq<char> {
    w.sources@.last().branch@
}

/// The cutoff of a base reached from `w` at `base_seq`: the smaller of it and the cutoff of
/// the branch it is the base of.
pub open spec fn next_cutoff(w: SourcesWalk, base_seq: i64) -> i64 {
    match w.sources@.last().cutoff_seq {
        None => base_seq,
        Some(prev) => if prev <= base_seq {
            prev
        } else {
            base_seq
        },
    }
}

fn copy_string(s: &String) -> (r: String)
    ensures
        r@ == s@,
{
    string_of(chars_of(s.as_str()).as_slice())
}

impl SourcesWalk {
    /// A walk that has only reached `branch` itself.
    pub fn start(branch: &str) -> (w: SourcesWalk)
        ensures
            walk_ok(w),
            w.sources@.len() == 1,
            w.sources@[0].branch@ == branch@,
            w.depth == 0,
    {
        let mut sources: Vec<BranchSource> = Vec::new();
        sources.push(BranchSource { branch: string_of(chars_of(branch).as_slice()), cutoff_seq: None });
        SourcesWalk { sources, depth: 0 }
    }

    /// The branch whose base row is read next.
    pub fn current(&self) -> (r: String)
        requires
            walk_ok(*self),
        ensures
            r@ == walk_current(*self),
    {
        copy_string(&self.sources[self.sources.len() - 1].branch)
    }

    /// Takes the base row of the current branch (`None` when it has none): gives `Ok(false)`
    /// when the view is complete (no base, or a branch based on itself), `Ok(true)` when a base
    /// was added and the walk goes on, and refuses a base already in the view and a chain
    /// that reaches `MAX_SOURCE_DEPTH` bases.
    #[verifier::loop_isolation(false)]
    pub fn step(&mut self, row: Option<(String, i64)>) -> (r: Result<bool, StoreError>)
        requires
            walk_ok(*old(self)),
        ensures
            match row {
                None => r == Ok::<bool, StoreError>(false) && final(self).sources@ == old(self).sources@,
                Some((base, base_seq)) => if base@ == walk_current(*old(self)) {
                    r == Ok::<bool, StoreError>(false) && final(self).sources@ == old(self).sources@
                } else if exists|i: int| 0 <= i < old(self).sources@.len() && #[trigger] old(self).sources@[i].branch@ == base@ {
                    r matches Err(StoreError::BranchCycle)
                } else if old(self).depth == MAX_SOURCE_DEPTH - 1 {
                    r matches Err(StoreError::BranchDepthExceeded)
                } else {
                    &&& r == Ok::<bool, StoreError>(true)
                    &&& final(self).sources@.len() == old(self).sources@.len() + 1
                    &&& final(self).sources@.drop_last() == old(self).sources@
                    &&& final(self).sources@.last().branch@ == base@
                    &&& final(self).sources@.last().cutoff_seq == Some(next_cutoff(*old(self), base_seq))
                    &&& final(self).depth == old(self).depth + 1
                },
            },
            r matches Ok(_) ==> walk_ok(*final(self)),
    {
        let (base, base_seq) = match row {
            None => {
                return Ok(false);
            },
            Some(r) => r,
        };
        let n = self.sources.len();
        let basev = chars_of(base.as_str());
        let cur = chars_of(self.sources[n - 1].branch.as_str());
        if chars_eq(basev.as_slice(), cur.as_slice()) {
            return Ok(false);
        }
        let mut i: usize = 0;
        while i < n
            invariant
                n == self.sources@.len(),
                i <= n,
                basev@ == base@,
                forall|k: int| 0 <= k < i ==> #[trigger] self.sources@[k].branch@ != base@,
            decreases n - i,
        {
            let b = chars_of(self.sources[i].branch.as_str());
            if chars_eq(b.as_slice(), basev.as_slice()) {
                assert(self.sources@[i as int].branch@ == base@);
                return Err(StoreError::BranchCycle);
            }
            i = i + 1;
        }
        let effective = match self.sources[n - 1].cutoff_seq {
            None => base_seq,
            Some(prev) => if prev <= base_seq {
                prev
            } else {
                base_seq
            },
        };
        if self.depth == MAX_SOURCE_DEPTH - 1 {
            return Err(StoreError::BranchDepthExceeded);
        }
        let ghost before = self.sources@;
        self.sources.push(BranchSource { branch: base, cutoff_seq: Some(effective) });
        self.depth = self.depth + 1;
        proof {
            let s = self.sources@;
            assert(s.drop_last() =~= before);
            assert forall|a: int, b: int| 1 <= a < b < s.len() implies (#[trigger] s[a]).cutoff_seq is Some
                && (#[trigger] s[b]).cutoff_seq is Some && s[b].cutoff_seq->0 <= s[a].cutoff_seq->0 by {
                if b == s.len() - 1 {
                    assert(s[a] == before[a]);
                    if a < before.len() - 1 {
                        assert(before[before.len() - 1].cutoff_seq->0 <= before[a].cutoff_seq->0);
                    }
                } else {
                    assert(s[a] == before[a] && s[b] == before[b]);
                }
            }
            assert forall|a: int, b: int| 0 <= a < b < s.len() implies (#[trigger] s[a]).branch@ != (#[trigger] s[b]).branch@ by {
                if b == s.len() - 1 {
                    assert(s[a] == before[a]);
                } else {
                    assert(s[a] == before[a] && s[b] == before[b]);
                }
            }
        }
        Ok(true)
    }
}

/// Whatever the base rows read, every cutoff of a view is at most those below it, and each
/// branch appears in it once.
pub proof fn lemma_walk_keeps_order(w: SourcesWalk)
    requires
        walk_ok(w),
    ensures
        forall|i: int, j: int|
            1 <= i < j < w.sources@.len() ==> (#[trigger] w.sources@[j]).cutoff_seq->0 <= (#[trigger] w.sources@[i]).cutoff_seq->0,
        forall|i: int| 1 <= i < w.sources@.len() ==> (#[trigger] w.sources@[i]).cutoff_seq is Some,
        w.sources@[0].cutoff_seq is None,
        w.sources@.len() <= MAX_SOURCE_DEPTH,
{
}

/// A bound value of a statement.
#[derive(Debug)]
pub enum SqlParam {
    Text(String),
    Integer(i64),
}

/// The condition for one source, `(branch=? AND seq <= ?)` when it has a cutoff.
pub open spec fn source_cond(s: BranchSource) -> Seq<char> {
    "(branch=?"@ + if s.cutoff_seq is Some {
        " AND seq <= ?"@
    } else {
        Seq::empty()
    } + ")"@
}

/// The conditions of the sources joined by ` OR `.
pub open spec fn sources_cond(s: Seq<BranchSource>) -> Seq<char>
    decreases s.len(),
{
    if s.len() == 0 {
        Seq::empty()
    } else if s.len() == 1 {
        source_cond(s[0])
    } else {
        sources_cond(s.drop_last()) + " OR "@ + source_cond(s.last())
    }
}

/// What a parameter holds, as plain values.
pub open spec fn param_view(p: SqlParam) -> (bool, Seq<char>, i64) {
    match p {
        SqlParam::Text(t) => (true, t@, 0),
        SqlParam::Integer(v) => (false, Seq::empty(), v),
    }
}

pub open spec fn params_view(s: Seq<SqlParam>) -> Seq<(bool, Seq<char>, i64)> {
    s.map_values(|p: SqlParam| param_view(p))
}

/// The parameters of the sources: each branch, then its cutoff when it has one.
pub open spec fn sources_params(s: Seq<BranchSource>) -> Seq<(bool, Seq<char>, i64)>
    decreases s.len(),
{
    if s.len() == 0 {
        Seq::empty()
    } else {
        let last = s.last();
        let head = sources_params(s.drop_last()).push((true, last.branch@, 0i64));
        match last.cutoff_seq {
            Some(c) => head.push((false, Seq::empty(), c)),
            None => head,
        }
    }
}

/// Appends `(<cond> OR <cond> ...)` selecting the rows of a view to `sql`, and the values it
/// binds to `params`.
pub fn append_sources_clause(sql: &mut Vec<char>, params: &mut Vec<SqlParam>, sources: &[BranchSource])
    ensures
        final(sql)@ == old(sql)@ + "("@ + sources_cond(sources@) + ")"@,
        params_view(final(params)@) == params_view(old(params)@) + sources_params(sources@),
{
    let ghost sql0 = sql@;
    let ghost pv0 = params_view(params@);
    append_str(sql, "(");
    let mut i: usize = 0;
    assert(sources@.take(0) =~= Seq::<BranchSource>::empty());
    while i < sources.len()
        invariant
            i <= sources@.len(),
            sql@ == sql0 + "("@ + sources_cond(sources@.take(i as int)),
            params_view(params@) == pv0 + sources_params(sources@.take(i as int)),
        decreases sources@.len() - i,
    {
        let ghost sql_before = sql@;
        let ghost p_before = params@;
        assert(sources@.take(i + 1).drop_last() =~= sources@.take(i as int));
        if i > 0 {
            append_str(sql, " OR ");
        }
        append_str(sql, "(branch=?");
        params.push(SqlParam::Text(copy_string(&sources[i].branch)));
        let ghost item = (true, sources@[i as int].branch@, 0i64);
        assert(params_view(params@) =~= params_view(p_before).push(item));
        match sources[i].cutoff_seq {
            Some(c) => {
                append_str(sql, " AND seq <= ?");
                let ghost p_mid = params@;
                params.push(SqlParam::Integer(c));
                assert(params_view(params@) =~= params_view(p_mid).push((false, Seq::<char>::empty(), c)));
            },
            None => {},
        }
        append_str(sql, ")");
        proof {
            reveal_strlit(" OR ");
            reveal_strlit("(branch=?");
            reveal_strlit(" AND seq <= ?");
            reveal_strlit(")");
            let t = sources@.take(i + 1);
            if i == 0 {
                assert(sql@ =~= sql0 + "("@ + source_cond(sources@[0]));
                assert(sources_cond(t) == source_cond(t[0]));
            } else {
                assert(sql@ =~= sql_before + " OR "@ + source_cond(sources@[i as int]));
            }
            assert(t.last() == sources@[i as int]);
            assert(params_view(params@) =~= pv0 + sources_params(t));
        }
        i = i + 1;
    }
    assert(sources@.take(sources@.len() as int) =~= sources@);
    append_str(sql, ")");
}

/// The revision a task moves to when it is changed: one more than its current one. Fails
/// for an unknown task, and when the caller expected another revision.
pub fn next_task_revision(current: Option<i64>, expected: Option<i64>) -> (r: Result<i64, StoreError>)
    requires
        current matches Some(c) ==> c < i64::MAX,
    ensures
        current is None ==> r matches Err(StoreError::UnknownId),
        current matches Some(c) ==> match expected {
            Some(e) if e != c => r matches Err(StoreError::RevisionMismatch { expected: x, actual: y }) && x == e
                && y == c,
            _ => r matches Ok(v) && v == c + 1,
        },
{
    let c = match current {
        None => {
            return Err(StoreError::UnknownId);
        },
        Some(c) => c,
    };
    match expected {
        Some(e) => {
            if e != c {
                return Err(StoreError::RevisionMismatch { expected: e, actual: c });
            }
        },
        None => {},
    }
    Ok(c + 1)
}

/// A node or edge changed on a branch since it forked, as a merge looks at it.
#[derive(Debug)]
pub enum GraphMergeCandidate {
    Node { theirs: GraphNode },
    Edge { theirs: GraphEdge },
}

impl GraphMergeCandidate {
    /// The sequence number of the change.
    pub fn last_seq(&self) -> (r: i64)
        ensures
            r == match self {
                GraphMergeCandidate::Node { theirs } => theirs.last_seq,
                GraphMergeCandidate::Edge { theirs } => theirs.last_seq,
            },
    {
        match self {
            GraphMergeCandidate::Node { theirs } => theirs.last_seq,
            GraphMergeCandidate::Edge { theirs } => theirs.last_seq,
        }
    }
}

/// A node or edge as it is on the target of a diff.
#[derive(Debug)]
pub enum GraphDiffCandidate {
    Node { to: GraphNode },
    Edge { from: String, rel: String, target: String, to: GraphEdge },
}

impl GraphDiffCandidate {
    /// The sequence number of the version.
    pub fn last_seq(&self) -> (r: i64)
        ensures
            r == match self {
                GraphDiffCandidate::Node { to } => to.last_seq,
                GraphDiffCandidate::Edge { to, .. } => to.last_seq,
            },
    {
        match self {
            GraphDiffCandidate::Node { to } => to.last_seq,
            GraphDiffCandidate::Edge { to, .. } => to.last_seq,
        }
    }
}

} // verus!
