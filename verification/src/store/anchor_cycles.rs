//! Cycles of parent links between anchors.
//!
//! Each anchor names at most one parent, so following parents from an anchor either stops
//! (no parent, or a parent that is not an anchor) or runs into a cycle. A cycle is reported
//! once, by its smallest anchor id.

use vstd::prelude::*;

use super::anchors_lint::{is_anchor_id, LintAnchor};
use crate::text::{chars_eq, chars_of, sub_chars, lemma_lex_irreflexive, lemma_lex_total, lemma_lex_transitive, lex_less, lex_lt, seqs};

verus! {

broadcast use vstd::string::group_string_axioms;

/// The parent of anchor `x`: that of the last row for `x` that has one.
pub open spec fn parent_of(anchors: Seq<LintAnchor>, x: Seq<char>) -> Option<Seq<char>>
    decreases anchors.len(),
{
    if anchors.len() == 0 {
        None
    } else if anchors.last().id@ == x && anchors.last().parent_id is Some {
        Some(anchors.last().parent_id->0@)
    } else {
        parent_of(anchors.drop_last(), x)
    }
}

/// One step up: the parent of `x`, when that parent is an anchor.
pub open spec fn parent_step(anchors: Seq<LintAnchor>, x: Seq<char>) -> Option<Seq<char>> {
    match parent_of(anchors, x) {
        Some(p) => if is_anchor_id(anchors, p) {
            Some(p)
        } else {
            None
        },
        None => None,
    }
}

/// Where `n` steps up from `x` lead, if they can all be taken.
pub open spec fn reach(anchors: Seq<LintAnchor>, x: Seq<char>, n: nat) -> Option<Seq<char>>
    decreases n,
{
    if n == 0 {
        Some(x)
    } else {
        match reach(anchors, x, (n - 1) as nat) {
            Some(y) => parent_step(anchors, y),
            None => None,
        }
    }
}

/// Going up from `m` leads back to `m`.
pub open spec fn on_parent_cycle(anchors: Seq<LintAnchor>, m: Seq<char>) -> bool {
    exists|n: nat| n >= 1 && #[trigger] reach(anchors, m, n) == Some(m)
}

/// `m` is on a parent cycle and no anchor on that cycle has a smaller id.
pub open spec fn is_cycle_min(anchors: Seq<LintAnchor>, m: Seq<char>) -> bool {
    &&& on_parent_cycle(anchors, m)
    &&& forall|n: nat| #[trigger] reach(anchors, m, n) is Some ==> !lex_lt(reach(anchors, m, n)->0, m)
}

proof fn lemma_parent_of_take(anchors: Seq<LintAnchor>, i: int, x: Seq<char>)
    requires
        0 < i <= anchors.len(),
    ensures
        parent_of(anchors.take(i), x) == if anchors[i - 1].id@ == x && anchors[i - 1].parent_id is Some {
            Some(anchors[i - 1].parent_id->0@)
        } else {
            parent_of(anchors.take(i - 1), x)
        },
{
    assert(anchors.take(i).drop_last() =~= anchors.take(i - 1));
}

/// A parent comes from a row for `x` that names one.
proof fn lemma_parent_of_row(anchors: Seq<LintAnchor>, x: Seq<char>)
    requires
        parent_of(anchors, x) is Some,
    ensures
        exists|i: int| 0 <= i < anchors.len() && #[trigger] anchors[i].id@ == x && anchors[i].parent_id is Some,
    decreases anchors.len(),
{
    let last = anchors.len() - 1;
    if anchors.last().id@ == x && anchors.last().parent_id is Some {
        assert(anchors[last].id@ == x);
    } else {
        lemma_parent_of_row(anchors.drop_last(), x);
        let i = choose|i: int| 0 <= i < anchors.drop_last().len() && #[trigger] anchors.drop_last()[i].id@ == x
            && anchors.drop_last()[i].parent_id is Some;
        assert(anchors[i].id@ == x);
    }
}

proof fn lemma_reach_add(anchors: Seq<LintAnchor>, x: Seq<char>, a: nat, b: nat)
    ensures
        reach(anchors, x, a + b) == match reach(anchors, x, a) {
            Some(y) => reach(anchors, y, b),
            None => None,
        },
    decreases b,
{
    if b > 0 {
        lemma_reach_add(anchors, x, a, (b - 1) as nat);
        assert((a + b - 1) as nat == a + (b - 1) as nat);
        if reach(anchors, x, a) is None {
            assert(reach(anchors, x, (a + b - 1) as nat) is None);
        }
    }
}

proof fn lemma_reach_none_stays(anchors: Seq<LintAnchor>, x: Seq<char>, a: nat, b: nat)
    requires
        reach(anchors, x, a) is None,
        a <= b,
    ensures
        reach(anchors, x, b) is None,
    decreases b - a,
{
    if a < b {
        lemma_reach_none_stays(anchors, x, a, (b - 1) as nat);
    }
}

/// Around a cycle of length `p` any number of times.
proof fn lemma_reach_cycle_mul(anchors: Seq<LintAnchor>, m: Seq<char>, p: nat, k: nat)
    requires
        reach(anchors, m, p) == Some(m),
    ensures
        reach(anchors, m, k * p) == Some(m),
    decreases k,
{
    if k > 0 {
        lemma_reach_cycle_mul(anchors, m, p, (k - 1) as nat);
        lemma_reach_add(anchors, m, ((k - 1) * p) as nat, p);
        assert(((k - 1) * p) as nat + p == k * p) by (nonlinear_arith)
            requires
                k > 0,
        ;
    } else {
        assert(k * p == 0) by (nonlinear_arith)
            requires
                k == 0,
        ;
    }
}

/// From an anchor on a cycle every number of steps can be taken.
proof fn lemma_cycle_reach_some(anchors: Seq<LintAnchor>, m: Seq<char>, p: nat, n: nat)
    requires
        p >= 1,
        reach(anchors, m, p) == Some(m),
    ensures
        reach(anchors, m, n) is Some,
{
    lemma_reach_cycle_mul(anchors, m, p, n);
    assert(n * p >= n) by (nonlinear_arith)
        requires
            p >= 1,
    ;
    if reach(anchors, m, n) is None {
        lemma_reach_none_stays(anchors, m, n, n * p);
    }
}

/// A walk up from `x`: `path[k]` is where `k + 1` steps lead.
pub open spec fn is_walk(anchors: Seq<LintAnchor>, x: Seq<char>, path: Seq<Seq<char>>) -> bool {
    forall|k: int| 0 <= k < path.len() ==> reach(anchors, x, (k + 1) as nat) == Some(#[trigger] path[k])
}

/// A walk that steps from its last entry back to entry `s`: from any entry of the loop
/// `path[s..]`, every number of steps stays in it.
proof fn lemma_loop_closed(anchors: Seq<LintAnchor>, x: Seq<char>, path: Seq<Seq<char>>, s: int, j: int, n: nat)
    requires
        is_walk(anchors, x, path),
        0 <= s <= j < path.len(),
        reach(anchors, x, (path.len() + 1) as nat) == Some(path[s]),
    ensures
        exists|t: int| s <= t < path.len() && reach(anchors, path[j], n) == Some(#[trigger] path[t]),
    decreases n,
{
    if n == 0 {
        assert(reach(anchors, path[j], 0) == Some(path[j]));
    } else {
        lemma_loop_closed(anchors, x, path, s, j, (n - 1) as nat);
        let t = choose|t: int| s <= t < path.len() && reach(anchors, path[j], (n - 1) as nat) == Some(#[trigger] path[t]);
        lemma_step_in_loop(anchors, x, path, s, t);
    }
}

/// One step from entry `t` of the loop: to `t + 1`, or from the last entry back to `s`.
proof fn lemma_step_in_loop(anchors: Seq<LintAnchor>, x: Seq<char>, path: Seq<Seq<char>>, s: int, t: int)
    requires
        is_walk(anchors, x, path),
        0 <= s <= t < path.len(),
        reach(anchors, x, (path.len() + 1) as nat) == Some(path[s]),
    ensures
        parent_step(anchors, path[t]) == if t + 1 < path.len() {
            Some(path[t + 1])
        } else {
            Some(path[s])
        },
{
    assert(reach(anchors, x, (t + 1) as nat) == Some(path[t]));
    assert(reach(anchors, x, (t + 2) as nat) == parent_step(anchors, path[t]));
    if t + 1 < path.len() {
        assert(reach(anchors, x, ((t + 1) + 1) as nat) == Some(path[t + 1]));
    }
}

/// Going forward along the walk: from entry `j`, `t - j` steps lead to entry `t`.
proof fn lemma_walk_forward(anchors: Seq<LintAnchor>, x: Seq<char>, path: Seq<Seq<char>>, j: int, t: int)
    requires
        is_walk(anchors, x, path),
        0 <= j <= t < path.len(),
    ensures
        reach(anchors, path[j], (t - j) as nat) == Some(path[t]),
    decreases t - j,
{
    if t > j {
        lemma_walk_forward(anchors, x, path, j, t - 1);
        assert(reach(anchors, x, (t - 1 + 1) as nat) == Some(path[t - 1]));
        assert(reach(anchors, x, (t + 1) as nat) == Some(path[t]));
        assert(reach(anchors, x, (t + 1) as nat) == parent_step(anchors, path[t - 1]));
    }
}

/// Every entry of a closed loop is on a cycle.
proof fn lemma_loop_on_cycle(anchors: Seq<LintAnchor>, x: Seq<char>, path: Seq<Seq<char>>, s: int, j: int)
    requires
        is_walk(anchors, x, path),
        0 <= s <= j < path.len(),
        reach(anchors, x, (path.len() + 1) as nat) == Some(path[s]),
    ensures
        on_parent_cycle(anchors, path[j]),
{
    let len = path.len() as int;
    lemma_walk_forward(anchors, x, path, j, len - 1);
    lemma_step_in_loop(anchors, x, path, s, len - 1);
    lemma_reach_add(anchors, path[j], (len - 1 - j) as nat, 1);
    assert(reach(anchors, path[len - 1], 1) == parent_step(anchors, path[len - 1]));
    assert(reach(anchors, path[j], (len - j) as nat) == Some(path[s]));
    lemma_walk_forward(anchors, x, path, s, j);
    lemma_reach_add(anchors, path[j], (len - j) as nat, (j - s) as nat);
    assert(reach(anchors, path[j], (len - s) as nat) == Some(path[j]));
    assert(((len - s) as nat) >= 1);
}

/// The smallest entry of a closed loop is the smallest anchor of its cycle.
proof fn lemma_loop_min(anchors: Seq<LintAnchor>, x: Seq<char>, path: Seq<Seq<char>>, s: int, jm: int)
    requires
        is_walk(anchors, x, path),
        0 <= s <= jm < path.len(),
        reach(anchors, x, (path.len() + 1) as nat) == Some(path[s]),
        forall|t: int| s <= t < path.len() ==> !lex_lt(#[trigger] path[t], path[jm]),
    ensures
        is_cycle_min(anchors, path[jm]),
{
    lemma_loop_on_cycle(anchors, x, path, s, jm);
    assert forall|n: nat| #[trigger] reach(anchors, path[jm], n) is Some implies !lex_lt(
        reach(anchors, path[jm], n)->0,
        path[jm],
    ) by {
        lemma_loop_closed(anchors, x, path, s, jm, n);
    }
}

/// A walk from an anchor on a cycle that closes a loop: that anchor is in the loop.
proof fn lemma_start_in_loop(anchors: Seq<LintAnchor>, x: Seq<char>, path: Seq<Seq<char>>, s: int)
    requires
        is_walk(anchors, x, path),
        0 <= s < path.len(),
        reach(anchors, x, (path.len() + 1) as nat) == Some(path[s]),
        on_parent_cycle(anchors, x),
    ensures
        exists|t: int| s <= t < path.len() && path[t] == x,
{
    let p = choose|n: nat| n >= 1 && #[trigger] reach(anchors, x, n) == Some(x);
    let k = (s + 1) as nat;
    lemma_reach_cycle_mul(anchors, x, p, k);
    assert(k * p >= k) by (nonlinear_arith)
        requires
            p >= 1,
    ;
    lemma_reach_add(anchors, x, k, (k * p - k) as nat);
    assert(reach(anchors, x, k) == Some(path[s]));
    assert(k + (k * p - k) as nat == k * p);
    assert(reach(anchors, path[s], (k * p - k) as nat) == Some(x));
    lemma_loop_closed(anchors, x, path, s, s, (k * p - k) as nat);
}

proof fn lemma_distinct_ids_bound(anchors: Seq<LintAnchor>, path: Seq<Seq<char>>)
    requires
        path.no_duplicates(),
        forall|k: int| 0 <= k < path.len() ==> is_anchor_id(anchors, #[trigger] path[k]),
    ensures
        path.len() <= anchors.len(),
{
    broadcast use vstd::seq_lib::seq_to_set_is_finite;

    let ids = anchors.map_values(|a: LintAnchor| a.id@);
    path.unique_seq_to_set();
    ids.lemma_cardinality_of_set();
    assert(path.to_set().subset_of(ids.to_set())) by {
        assert forall|e: Seq<char>| path.to_set().contains(e) implies ids.to_set().contains(e) by {
            let k = choose|k: int| 0 <= k < path.len() && path[k] == e;
            assert(is_anchor_id(anchors, path[k]));
            let i = choose|i: int| 0 <= i < anchors.len() && #[trigger] anchors[i].id@ == path[k];
            assert(ids[i] == e);
        }
    }
    vstd::set_lib::lemma_len_subset(path.to_set(), ids.to_set());
}

/// One step up from `x`, computed.
fn step_up(anchors: &[LintAnchor], x: &[char]) -> (r: Option<Vec<char>>)
    ensures
        match r {
            Some(p) => parent_step(anchors@, x@) == Some(p@),
            None => parent_step(anchors@, x@) is None,
        },
{
    let mut i: usize = anchors.len();
    assert(anchors@.take(anchors@.len() as int) =~= anchors@);
    while i > 0
        invariant
            i <= anchors@.len(),
            parent_of(anchors@, x@) == parent_of(anchors@.take(i as int), x@),
        decreases i,
    {
        proof {
            lemma_parent_of_take(anchors@, i as int, x@);
        }
        let row = &anchors[i - 1];
        let idv = chars_of(row.id.as_str());
        if chars_eq(idv.as_slice(), x) {
            match &row.parent_id {
                Some(p) => {
                    let pv = chars_of(p.as_str());
                    if super::anchors_lint::has_anchor_id(anchors, p.as_str()) {
                        return Some(pv);
                    } else {
                        return None;
                    }
                },
                None => {},
            }
        }
        i = i - 1;
    }
    assert(anchors@.take(0) =~= Seq::<LintAnchor>::empty());
    None
}

fn position_of(path: &Vec<Vec<char>>, p: &[char]) -> (r: Option<usize>)
    ensures
        match r {
            Some(s) => s < path@.len() && seqs(path@)[s as int] == p@,
            None => !seqs(path@).contains(p@),
        },
{
    let mut i: usize = 0;
    while i < path.len()
        invariant
            i <= path@.len(),
            forall|k: int| 0 <= k < i ==> #[trigger] seqs(path@)[k] != p@,
        decreases path@.len() - i,
    {
        if chars_eq(path[i].as_slice(), p) {
            return Some(i);
        }
        i = i + 1;
    }
    None
}

/// The index of a smallest entry of `path[s..]`.
fn loop_min(path: &Vec<Vec<char>>, s: usize) -> (r: usize)
    requires
        s < path@.len(),
    ensures
        s <= r < path@.len(),
        forall|t: int| s <= t < path@.len() ==> !lex_lt(#[trigger] seqs(path@)[t], seqs(path@)[r as int]),
{
    let len = path.len();
    let mut best: usize = s;
    let mut i: usize = s + 1;
    proof {
        lemma_lex_irreflexive(seqs(path@)[s as int]);
    }
    while i < path.len()
        invariant
            s <= best < i <= path@.len(),
            forall|t: int| s <= t < i ==> !lex_lt(#[trigger] seqs(path@)[t], seqs(path@)[best as int]),
        decreases path@.len() - i,
    {
        if lex_less(path[i].as_slice(), path[best].as_slice()) {
            proof {
                let sp = seqs(path@);
                assert forall|t: int| s <= t < i + 1 implies !lex_lt(#[trigger] sp[t], sp[i as int]) by {
                    if t < i {
                        if lex_lt(sp[t], sp[i as int]) {
                            lemma_lex_transitive(sp[t], sp[i as int], sp[best as int]);
                        }
                    } else {
                        lemma_lex_irreflexive(sp[i as int]);
                    }
                }
            }
            best = i;
        }
        i = i + 1;
    }
    best
}

/// Walks up from `x` until it stops or closes a loop; gives the smallest id of the loop.
/// What it gives is the smallest anchor of a cycle, and from an anchor that is the smallest
/// of its cycle it gives that anchor.
pub fn cycle_from(anchors: &[LintAnchor], x: &[char]) -> (r: Option<Vec<char>>)
    ensures
        r matches Some(m) ==> is_cycle_min(anchors@, m@),
        is_cycle_min(anchors@, x@) ==> (r matches Some(m) && m@ == x@),
{
    let mut path: Vec<Vec<char>> = Vec::new();
    let mut cur: Vec<char> = sub_chars(x, 0, x.len());
    assert(cur@ =~= x@);
    loop
        invariant
            is_walk(anchors@, x@, seqs(path@)),
            seqs(path@).no_duplicates(),
            forall|k: int| 0 <= k < path@.len() ==> is_anchor_id(anchors@, #[trigger] seqs(path@)[k]),
            reach(anchors@, x@, path@.len() as nat) == Some(cur@),
            path@.len() <= anchors@.len(),
        decreases anchors@.len() - path@.len(),
    {
        let ghost sp = seqs(path@);
        let step = step_up(anchors, cur.as_slice());
        let p = match step {
            None => {
                proof {
                    if is_cycle_min(anchors@, x@) {
                        let n = choose|n: nat| n >= 1 && #[trigger] reach(anchors@, x@, n) == Some(x@);
                        lemma_cycle_reach_some(anchors@, x@, n, (path@.len() + 1) as nat);
                    }
                }
                return None;
            },
            Some(p) => p,
        };
        assert(reach(anchors@, x@, (path@.len() + 1) as nat) == Some(p@));
        match position_of(&path, p.as_slice()) {
            Some(s) => {
                let jm = loop_min(&path, s);
                proof {
                    lemma_loop_min(anchors@, x@, sp, s as int, jm as int);
                    if is_cycle_min(anchors@, x@) {
                        lemma_start_in_loop(anchors@, x@, sp, s as int);
                        let t = choose|t: int| s <= t < sp.len() && sp[t] == x@;
                        assert(!lex_lt(sp[t], sp[jm as int]));
                        lemma_loop_closed(anchors@, x@, sp, s as int, t, 0);
                        let n = (jm - t) as nat;
                        if jm >= t {
                            lemma_walk_forward(anchors@, x@, sp, t, jm as int);
                        } else {
                            let len = sp.len() as int;
                            lemma_walk_forward(anchors@, x@, sp, t, len - 1);
                            lemma_step_in_loop(anchors@, x@, sp, s as int, len - 1);
                            lemma_reach_add(anchors@, x@, (len - 1 - t) as nat, 1);
                            lemma_walk_forward(anchors@, x@, sp, s as int, jm as int);
                            lemma_reach_add(anchors@, x@, (len - t) as nat, (jm - s) as nat);
                            assert(reach(anchors@, x@, 1) == parent_step(anchors@, x@));
                        }
                        let k = choose|k: nat| #[trigger] reach(anchors@, x@, k) == Some(sp[jm as int]);
                        assert(!lex_lt(sp[jm as int], x@));
                        lemma_lex_total(sp[jm as int], x@);
                    }
                }
                return Some(path[jm].clone());
            },
            None => {},
        }
        let ghost newp = sp.push(p@);
        proof {
            assert forall|k: int| 0 <= k < newp.len() implies is_anchor_id(anchors@, #[trigger] newp[k]) by {
                if k == sp.len() {
                    assert(parent_step(anchors@, cur@) == Some(p@));
                }
            }
            assert(newp.no_duplicates()) by {
                assert forall|a: int, b: int| 0 <= a < b < newp.len() implies newp[a] != newp[b] by {
                    if b == sp.len() {
                        assert(sp[a] == newp[a]);
                        if newp[a] == newp[b] {
                            assert(sp[a] == p@);
                            assert(sp.contains(p@));
                        }
                    }
                }
            }
            lemma_distinct_ids_bound(anchors@, newp);
        }
        let pc = p.clone();
        path.push(p);
        assert(seqs(path@) =~= newp);
        cur = pc;
    }
}

fn contains_id(list: &Vec<Vec<char>>, x: &[char]) -> (r: bool)
    ensures
        r == seqs(list@).contains(x@),
{
    match position_of(list, x) {
        Some(_) => true,
        None => false,
    }
}

/// The smallest id of each parent cycle, once each.
pub fn parent_cycle_anchors(anchors: &[LintAnchor]) -> (r: Vec<Vec<char>>)
    ensures
        seqs(r@).no_duplicates(),
        forall|m: Seq<char>| seqs(r@).contains(m) <==> is_cycle_min(anchors@, m),
{
    let mut reported: Vec<Vec<char>> = Vec::new();
    let mut i: usize = 0;
    while i < anchors.len()
        invariant
            i <= anchors@.len(),
            seqs(reported@).no_duplicates(),
            forall|m: Seq<char>| seqs(reported@).contains(m) ==> is_cycle_min(anchors@, m),
            forall|k: int|
                0 <= k < i && anchors@[k].parent_id is Some && is_cycle_min(anchors@, #[trigger] anchors@[k].id@)
                    ==> seqs(reported@).contains(anchors@[k].id@),
        decreases anchors@.len() - i,
    {
        let a = &anchors[i];
        if a.parent_id.is_some() {
            let x = chars_of(a.id.as_str());
            if !contains_id(&reported, x.as_slice()) {
                match cycle_from(anchors, x.as_slice()) {
                    Some(m) => {
                        if !contains_id(&reported, m.as_slice()) {
                            let ghost before = seqs(reported@);
                            reported.push(m);
                            proof {
                                let now = seqs(reported@);
                                assert(now =~= before.push(now.last()));
                                assert forall|u: int, v: int| 0 <= u < v < now.len() implies now[u] != now[v] by {
                                    if v == now.len() - 1 {
                                        assert(before[u] == now[u]);
                                    }
                                }
                                assert forall|mm: Seq<char>| now.contains(mm) implies is_cycle_min(anchors@, mm) by {
                                    let w = choose|w: int| 0 <= w < now.len() && now[w] == mm;
                                    if w < before.len() {
                                        assert(before[w] == mm);
                                    }
                                }
                                assert forall|k: int|
                                    0 <= k < i + 1 && anchors@[k].parent_id is Some && is_cycle_min(
                                        anchors@,
                                        #[trigger] anchors@[k].id@,
                                    ) implies now.contains(anchors@[k].id@) by {
                                    if k < i {
                                        let w = choose|w: int| 0 <= w < before.len() && before[w] == anchors@[k].id@;
                                        assert(now[w] == before[w]);
                                    } else {
                                        assert(now[now.len() - 1] == anchors@[k].id@);
                                    }
                                }
                            }
                        }
                    },
                    None => {},
                }
            }
        }
        i = i + 1;
    }
    proof {
        assert forall|m: Seq<char>| is_cycle_min(anchors@, m) implies seqs(reported@).contains(m) by {
            let n = choose|n: nat| n >= 1 && #[trigger] reach(anchors@, m, n) == Some(m);
            lemma_reach_add(anchors@, m, 1, (n - 1) as nat);
            assert(reach(anchors@, m, 0) == Some(m));
            assert(reach(anchors@, m, 1) == parent_step(anchors@, m));
            lemma_parent_of_row(anchors@, m);
            let k = choose|k: int| 0 <= k < anchors@.len() && #[trigger] anchors@[k].id@ == m && anchors@[k].parent_id is Some;
        }
    }
    reported
}

} // verus!
