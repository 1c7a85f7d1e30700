//! Graph documents: nodes, edges, tag encoding, operation events and conflicts.

use vstd::prelude::*;

use crate::json::{json_escape_seq, looks_like_json_object, looks_like_object_seq, push_json_escaped};
use crate::num::{hex_char, hex_digits, u64_hex16};
use crate::text::{
    append_chars, append_str, chars_eq, chars_of, has_char, join_chars, join_seq, seqs, split_chars,
    split_seq, string_of, strs, trim_seq, trim_str,
};
use vstd::utf8::encode_utf8;

verus! {

broadcast use vstd::string::group_string_axioms;

#[derive(Clone, Debug)]
pub struct GraphNode {
    pub id: String,
    pub node_type: String,
    pub title: Option<String>,
    pub text: Option<String>,
    pub tags: Vec<String>,
    pub status: Option<String>,
    pub meta_json: Option<String>,
    pub deleted: bool,
    pub last_seq: i64,
    pub last_ts_ms: i64,
}

#[derive(Clone, Debug)]
pub struct GraphEdge {
    pub from: String,
    pub rel: String,
    pub to: String,
    pub meta_json: Option<String>,
    pub deleted: bool,
    pub last_seq: i64,
    pub last_ts_ms: i64,
}

pub type GraphNodeRow = GraphNode;

pub type GraphEdgeRow = GraphEdge;

#[derive(Clone, Debug)]
pub struct GraphNodeUpsert {
    pub id: String,
    pub node_type: String,
    pub title: Option<String>,
    pub text: Option<String>,
    pub tags: Vec<String>,
    pub status: Option<String>,
    pub meta_json: Option<String>,
}

#[derive(Clone, Debug)]
pub struct GraphEdgeUpsert {
    pub from: String,
    pub rel: String,
    pub to: String,
    pub meta_json: Option<String>,
}

#[derive(Clone, Debug)]
pub enum GraphOp {
    NodeUpsert(GraphNodeUpsert),
    NodeDelete { id: String },
    EdgeUpsert(GraphEdgeUpsert),
    EdgeDelete { from: String, rel: String, to: String },
}

/// The tags column: `None` for no tags, else each tag on its own line, framed by newlines.
pub open spec fn encode_tags_spec(tags: Seq<Seq<char>>) -> Option<Seq<char>> {
    if tags.len() == 0 {
        None
    } else {
        Some(seq!['\n'] + join_seq(tags, seq!['\n']) + seq!['\n'])
    }
}

/// The pieces that are not empty, in order.
pub open spec fn keep_nonempty(parts: Seq<Seq<char>>) -> Seq<Seq<char>>
    decreases parts.len(),
{
    if parts.len() == 0 {
        Seq::empty()
    } else {
        let rest = keep_nonempty(parts.drop_last());
        if parts.last().len() > 0 {
            rest.push(parts.last())
        } else {
            rest
        }
    }
}

/// The tags read back from the tags column: its non-empty lines.
pub open spec fn decode_tags_spec(raw: Option<Seq<char>>) -> Seq<Seq<char>> {
    match raw {
        None => Seq::empty(),
        Some(r) => keep_nonempty(split_seq(r, '\n')),
    }
}

pub fn encode_tags(tags: &[String]) -> (r: Option<String>)
    ensures
        match r {
            None => encode_tags_spec(strs(tags@)) is None,
            Some(s) => encode_tags_spec(strs(tags@)) == Some(s@),
        },
{
    if tags.len() == 0 {
        return None;
    }
    let mut parts: Vec<Vec<char>> = Vec::new();
    let mut i: usize = 0;
    while i < tags.len()
        invariant
            i <= tags@.len(),
            seqs(parts@) == strs(tags@).take(i as int),
        decreases tags@.len() - i,
    {
        let c = chars_of(tags[i].as_str());
        assert(c@ == strs(tags@)[i as int]);
        let ghost before = seqs(parts@);
        parts.push(c);
        assert(seqs(parts@) =~= before.push(c@));
        assert(strs(tags@).take(i + 1) =~= strs(tags@).take(i as int).push(c@));
        i = i + 1;
        assert(seqs(parts@) =~= strs(tags@).take(i as int));
    }
    assert(strs(tags@).take(tags@.len() as int) =~= strs(tags@));
    let mut nl: Vec<char> = Vec::new();
    nl.push('\n');
    let body = join_chars(&parts, nl.as_slice());
    let mut out: Vec<char> = Vec::new();
    out.push('\n');
    append_chars(&mut out, body.as_slice());
    out.push('\n');
    assert(nl@ =~= seq!['\n']);
    assert(out@ =~= seq!['\n'] + join_seq(strs(tags@), seq!['\n']) + seq!['\n']);
    Some(string_of(out.as_slice()))
}

pub fn decode_tags(raw: Option<&str>) -> (r: Vec<String>)
    ensures
        strs(r@) == decode_tags_spec(
            match raw {
                None => None,
                Some(s) => Some(s@),
            },
        ),
{
    let raw = match raw {
        None => {
            return Vec::new();
        },
        Some(s) => s,
    };
    let v = chars_of(raw);
    let parts = split_chars(v.as_slice(), '\n');
    let mut out: Vec<String> = Vec::new();
    let mut i: usize = 0;
    while i < parts.len()
        invariant
            i <= parts@.len(),
            strs(out@) == keep_nonempty(seqs(parts@).take(i as int)),
        decreases parts@.len() - i,
    {
        assert(seqs(parts@).take(i + 1).drop_last() =~= seqs(parts@).take(i as int));
        if parts[i].len() > 0 {
            out.push(string_of(parts[i].as_slice()));
        }
        i = i + 1;
        assert(strs(out@) =~= keep_nonempty(seqs(parts@).take(i as int)));
    }
    assert(seqs(parts@).take(parts@.len() as int) =~= seqs(parts@));
    out
}

/// Splitting `a`, a separator, then `b` gives the pieces of `a` followed by those of `b`.
pub proof fn lemma_split_concat(a: Seq<char>, sep: char, b: Seq<char>)
    ensures
        split_seq(a + seq![sep] + b, sep) == split_seq(a, sep) + split_seq(b, sep),
    decreases b.len(),
{
    if b.len() == 0 {
        assert(a + seq![sep] + b =~= a + seq![sep]);
        assert((a + seq![sep]).drop_last() =~= a);
        assert(split_seq(a, sep) + split_seq(b, sep) =~= split_seq(a, sep).push(Seq::empty()));
    } else {
        let s = a + seq![sep] + b;
        assert(s.drop_last() =~= a + seq![sep] + b.drop_last());
        lemma_split_concat(a, sep, b.drop_last());
        crate::text::lemma_split_nonempty(b.drop_last(), sep);
        let x = split_seq(a, sep);
        let y = split_seq(b.drop_last(), sep);
        if b.last() == sep {
            assert((x + y).push(Seq::empty()) =~= x + y.push(Seq::empty()));
        } else {
            assert((x + y).update((x + y).len() - 1, (x + y).last().push(b.last())) =~= x + y.update(
                y.len() - 1,
                y.last().push(b.last()),
            ));
        }
    }
}

/// Text without the separator is a single piece.
pub proof fn lemma_split_single(t: Seq<char>, sep: char)
    requires
        !has_char(t, sep),
    ensures
        split_seq(t, sep) == seq![t],
    decreases t.len(),
{
    if t.len() > 0 {
        assert(!has_char(t.drop_last(), sep)) by {
            if has_char(t.drop_last(), sep) {
                let i = choose|i: int| 0 <= i < t.drop_last().len() && t.drop_last()[i] == sep;
                assert(t[i] == sep);
            }
        }
        lemma_split_single(t.drop_last(), sep);
        assert(t.last() != sep) by {
            assert(t[t.len() - 1] == t.last());
        }
        assert(t.drop_last().push(t.last()) =~= t);
        assert(seq![t.drop_last()].update(0, t.drop_last().push(t.last())) =~= seq![t]);
    } else {
        assert(t =~= Seq::<char>::empty());
    }
}

/// Splitting a join gives back the parts when no part holds the separator.
pub proof fn lemma_split_join(ts: Seq<Seq<char>>, sep: char)
    requires
        ts.len() >= 1,
        forall|i: int| 0 <= i < ts.len() ==> !has_char(#[trigger] ts[i], sep),
    ensures
        split_seq(join_seq(ts, seq![sep]), sep) == ts,
    decreases ts.len(),
{
    if ts.len() == 1 {
        lemma_split_single(ts[0], sep);
        assert(seq![ts[0]] =~= ts);
    } else {
        let init = ts.drop_last();
        assert forall|i: int| 0 <= i < init.len() implies !has_char(#[trigger] init[i], sep) by {
            assert(init[i] == ts[i]);
        }
        lemma_split_join(init, sep);
        lemma_split_concat(join_seq(init, seq![sep]), sep, ts.last());
        lemma_split_single(ts.last(), sep);
        assert(init + seq![ts.last()] =~= ts);
    }
}

pub proof fn lemma_keep_nonempty_concat(a: Seq<Seq<char>>, b: Seq<Seq<char>>)
    ensures
        keep_nonempty(a + b) == keep_nonempty(a) + keep_nonempty(b),
    decreases b.len(),
{
    if b.len() == 0 {
        assert(a + b =~= a);
        assert(keep_nonempty(a) + keep_nonempty(b) =~= keep_nonempty(a));
    } else {
        assert((a + b).drop_last() =~= a + b.drop_last());
        lemma_keep_nonempty_concat(a, b.drop_last());
        if b.last().len() > 0 {
            assert((keep_nonempty(a) + keep_nonempty(b.drop_last())).push(b.last()) =~= keep_nonempty(a)
                + keep_nonempty(b.drop_last()).push(b.last()));
        }
    }
}

pub proof fn lemma_keep_nonempty_all(ts: Seq<Seq<char>>)
    requires
        forall|i: int| 0 <= i < ts.len() ==> (#[trigger] ts[i]).len() > 0,
    ensures
        keep_nonempty(ts) == ts,
    decreases ts.len(),
{
    if ts.len() > 0 {
        let init = ts.drop_last();
        assert forall|i: int| 0 <= i < init.len() implies (#[trigger] init[i]).len() > 0 by {
            assert(init[i] == ts[i]);
        }
        lemma_keep_nonempty_all(init);
        assert(ts.last() == ts[ts.len() - 1]);
        assert(init.push(ts.last()) =~= ts);
    }
}

/// Tags written by `encode_tags` are read back by `decode_tags`, when each tag is non-empty
/// and on one line.
pub proof fn lemma_tags_roundtrip(tags: Seq<Seq<char>>)
    requires
        forall|i: int| 0 <= i < tags.len() ==> (#[trigger] tags[i]).len() > 0 && !has_char(tags[i], '\n'),
    ensures
        decode_tags_spec(encode_tags_spec(tags)) == tags,
{
    if tags.len() > 0 {
        let j = join_seq(tags, seq!['\n']);
        let e = Seq::<char>::empty();
        assert(seq!['\n'] + j + seq!['\n'] =~= (e + seq!['\n'] + j) + seq!['\n'] + e);
        lemma_split_concat(e + seq!['\n'] + j, '\n', e);
        lemma_split_concat(e, '\n', j);
        lemma_split_join(tags, '\n');
        let one = split_seq(e, '\n');
        assert(one =~= seq![e]);
        lemma_keep_nonempty_concat(one + tags, one);
        lemma_keep_nonempty_concat(one, tags);
        lemma_keep_nonempty_all(tags);
        assert(keep_nonempty(one) =~= Seq::<Seq<char>>::empty()) by {
            assert(one.drop_last() =~= Seq::<Seq<char>>::empty());
            assert(keep_nonempty(Seq::<Seq<char>>::empty()) == Seq::<Seq<char>>::empty());
            assert(one.last() == e);
        }
        assert(Seq::<Seq<char>>::empty() + tags + Seq::<Seq<char>>::empty() =~= tags);
    }
}

/// The text held by an optional string.
pub open spec fn opt_view(o: Option<String>) -> Option<Seq<char>> {
    match o {
        None => None,
        Some(s) => Some(s@),
    }
}

/// The text held by an optional string, trimmed.
pub open spec fn opt_trimmed(o: Option<String>) -> Option<Seq<char>> {
    match o {
        None => None,
        Some(s) => Some(trim_seq(s@)),
    }
}

/// Two node versions say the same thing (sequence numbers and times aside; meta compared trimmed).
pub open spec fn node_semantic_eq_spec(left: Option<GraphNode>, right: Option<GraphNode>) -> bool {
    match (left, right) {
        (None, None) => true,
        (Some(a), Some(b)) => {
            &&& a.id@ == b.id@
            &&& a.deleted == b.deleted
            &&& a.node_type@ == b.node_type@
            &&& opt_view(a.title) == opt_view(b.title)
            &&& opt_view(a.text) == opt_view(b.text)
            &&& strs(a.tags@) == strs(b.tags@)
            &&& opt_view(a.status) == opt_view(b.status)
            &&& opt_trimmed(a.meta_json) == opt_trimmed(b.meta_json)
        },
        _ => false,
    }
}

/// Two edge versions say the same thing.
pub open spec fn edge_semantic_eq_spec(left: Option<GraphEdge>, right: Option<GraphEdge>) -> bool {
    match (left, right) {
        (None, None) => true,
        (Some(a), Some(b)) => {
            &&& a.from@ == b.from@
            &&& a.rel@ == b.rel@
            &&& a.to@ == b.to@
            &&& a.deleted == b.deleted
            &&& opt_trimmed(a.meta_json) == opt_trimmed(b.meta_json)
        },
        _ => false,
    }
}

fn string_eq(a: &String, b: &String) -> (r: bool)
    ensures
        r == (a@ == b@),
{
    let av = chars_of(a.as_str());
    let bv = chars_of(b.as_str());
    chars_eq(av.as_slice(), bv.as_slice())
}

fn opt_string_eq(a: &Option<String>, b: &Option<String>) -> (r: bool)
    ensures
        r == (opt_view(*a) == opt_view(*b)),
{
    match (a, b) {
        (None, None) => true,
        (Some(x), Some(y)) => string_eq(x, y),
        _ => false,
    }
}

fn opt_trimmed_eq(a: &Option<String>, b: &Option<String>) -> (r: bool)
    ensures
        r == (opt_trimmed(*a) == opt_trimmed(*b)),
{
    match (a, b) {
        (None, None) => true,
        (Some(x), Some(y)) => {
            let xt = trim_str(x.as_str());
            let yt = trim_str(y.as_str());
            chars_eq(xt.as_slice(), yt.as_slice())
        },
        _ => false,
    }
}

fn strings_eq(a: &Vec<String>, b: &Vec<String>) -> (r: bool)
    ensures
        r == (strs(a@) == strs(b@)),
{
    if a.len() != b.len() {
        assert(strs(a@).len() != strs(b@).len());
        return false;
    }
    let mut i: usize = 0;
    while i < a.len()
        invariant
            i <= a@.len() == b@.len(),
            forall|k: int| 0 <= k < i ==> strs(a@)[k] == strs(b@)[k],
        decreases a@.len() - i,
    {
        if !string_eq(&a[i], &b[i]) {
            assert(strs(a@)[i as int] != strs(b@)[i as int]);
            return false;
        }
        i = i + 1;
    }
    assert(strs(a@) =~= strs(b@));
    true
}

pub fn graph_node_semantic_eq(left: Option<&GraphNode>, right: Option<&GraphNode>) -> (r: bool)
    ensures
        r == node_semantic_eq_spec(
            match left {
                None => None,
                Some(a) => Some(*a),
            },
            match right {
                None => None,
                Some(b) => Some(*b),
            },
        ),
{
    match (left, right) {
        (None, None) => true,
        (Some(a), Some(b)) => {
            string_eq(&a.id, &b.id) && a.deleted == b.deleted && string_eq(
                &a.node_type,
                &b.node_type,
            ) && opt_string_eq(&a.title, &b.title) && opt_string_eq(&a.text, &b.text)
                && strings_eq(&a.tags, &b.tags) && opt_string_eq(&a.status, &b.status)
                && opt_trimmed_eq(&a.meta_json, &b.meta_json)
        },
        _ => false,
    }
}

pub fn graph_edge_semantic_eq(left: Option<&GraphEdge>, right: Option<&GraphEdge>) -> (r: bool)
    ensures
        r == edge_semantic_eq_spec(
            match left {
                None => None,
                Some(a) => Some(*a),
            },
            match right {
                None => None,
                Some(b) => Some(*b),
            },
        ),
{
    match (left, right) {
        (None, None) => true,
        (Some(a), Some(b)) => {
            string_eq(&a.from, &b.from) && string_eq(&a.rel, &b.rel) && string_eq(&a.to, &b.to)
                && a.deleted == b.deleted && opt_trimmed_eq(&a.meta_json, &b.meta_json)
        },
        _ => false,
    }
}

/// Semantic equality of node versions is reflexive and symmetric.
pub proof fn lemma_node_semantic_eq_equivalence(a: Option<GraphNode>, b: Option<GraphNode>)
    ensures
        node_semantic_eq_spec(a, a),
        node_semantic_eq_spec(a, b) == node_semantic_eq_spec(b, a),
{
}

/// Semantic equality of edge versions is reflexive and symmetric.
pub proof fn lemma_edge_semantic_eq_equivalence(a: Option<GraphEdge>, b: Option<GraphEdge>)
    ensures
        edge_semantic_eq_spec(a, a),
        edge_semantic_eq_spec(a, b) == edge_semantic_eq_spec(b, a),
{
}

pub const FNV_OFFSET: u64 = 14695981039346656037u64;

pub const FNV_PRIME: u64 = 1099511628211u64;

pub const FNV_SECOND_SEED: u64 = 0x9e3779b97f4a7c15u64;

/// One FNV-1a step: xor the byte in, then multiply by the prime modulo 2^64.
pub open spec fn fnv_step(h: u64, b: u8) -> u64 {
    (((h ^ (b as u64)) as int * FNV_PRIME as int) % 0x1_0000_0000_0000_0000int) as u64
}

pub open spec fn fnv_bytes(h: u64, bs: Seq<u8>) -> u64
    decreases bs.len(),
{
    if bs.len() == 0 {
        h
    } else {
        fnv_step(fnv_bytes(h, bs.drop_last()), bs.last())
    }
}

/// Hashes a string's UTF-8 bytes, then a 0xff terminator.
pub open spec fn fnv_str(h: u64, s: Seq<char>) -> u64 {
    fnv_step(fnv_bytes(h, encode_utf8(s)), 0xff)
}

/// The little-endian bytes of the low `n` bytes of `u`.
pub open spec fn le_bytes(u: nat, n: nat) -> Seq<u8>
    decreases n,
{
    if n == 0 {
        Seq::empty()
    } else {
        seq![(u % 256) as u8] + le_bytes(u / 256, (n - 1) as nat)
    }
}

/// Hashes the eight little-endian bytes of `v`, then a 0xff terminator.
pub open spec fn fnv_i64(h: u64, v: i64) -> u64 {
    fnv_step(fnv_bytes(h, le_bytes((v as u64) as nat, 8)), 0xff)
}

pub open spec fn conflict_hash(
    init: u64,
    lane: u8,
    workspace: Seq<char>,
    from_branch: Seq<char>,
    into_branch: Seq<char>,
    doc: Seq<char>,
    kind: Seq<char>,
    key: Seq<char>,
    base_cutoff_seq: i64,
    theirs_seq: i64,
    ours_seq: i64,
) -> u64 {
    let h = fnv_str(init, workspace);
    let h = fnv_str(h, from_branch);
    let h = fnv_str(h, into_branch);
    let h = fnv_str(h, doc);
    let h = fnv_str(h, kind);
    let h = fnv_str(h, key);
    let h = fnv_i64(h, base_cutoff_seq);
    let h = fnv_i64(h, theirs_seq);
    let h = fnv_i64(h, ours_seq);
    fnv_step(h, lane)
}

/// `CONFLICT-` and two 64-bit FNV-1a lanes over the conflict's coordinates, in hexadecimal.
pub open spec fn graph_conflict_id_spec(
    workspace: Seq<char>,
    from_branch: Seq<char>,
    into_branch: Seq<char>,
    doc: Seq<char>,
    kind: Seq<char>,
    key: Seq<char>,
    base_cutoff_seq: i64,
    theirs_seq: i64,
    ours_seq: i64,
) -> Seq<char> {
    let h1 = conflict_hash(
        FNV_OFFSET,
        0,
        workspace,
        from_branch,
        into_branch,
        doc,
        kind,
        key,
        base_cutoff_seq,
        theirs_seq,
        ours_seq,
    );
    let h2 = conflict_hash(
        FNV_OFFSET ^ FNV_SECOND_SEED,
        1,
        workspace,
        from_branch,
        into_branch,
        doc,
        kind,
        key,
        base_cutoff_seq,
        theirs_seq,
        ours_seq,
    );
    "CONFLICT-"@ + hex_digits(h1 as nat, 16) + hex_digits(h2 as nat, 16)
}

fn fnv_mix(h: u64, b: u8) -> (r: u64)
    ensures
        r == fnv_step(h, b),
{
    let x = (h ^ (b as u64)) as u128;
    ((x * (FNV_PRIME as u128)) % 0x1_0000_0000_0000_0000u128) as u64
}

fn update_str(h: u64, value: &str) -> (r: u64)
    ensures
        r == fnv_str(h, value@),
{
    let bytes = value.as_bytes();
    let mut acc = h;
    let mut i: usize = 0;
    while i < bytes.len()
        invariant
            i <= bytes@.len(),
            bytes@ == encode_utf8(value@),
            acc == fnv_bytes(h, bytes@.take(i as int)),
        decreases bytes@.len() - i,
    {
        assert(bytes@.take(i + 1).drop_last() =~= bytes@.take(i as int));
        acc = fnv_mix(acc, bytes[i]);
        i = i + 1;
    }
    assert(bytes@.take(bytes@.len() as int) =~= bytes@);
    fnv_mix(acc, 0xff)
}

fn update_i64(h: u64, value: i64) -> (r: u64)
    ensures
        r == fnv_i64(h, value),
{
    let mut q: u64 = value as u64;
    let ghost all = le_bytes((value as u64) as nat, 8);
    proof {
        lemma_le_bytes_len((value as u64) as nat, 8);
        assert(all.subrange(0, 8) =~= all);
    }
    let mut acc = h;
    let mut k: usize = 0;
    while k < 8
        invariant
            k <= 8,
            all == le_bytes((value as u64) as nat, 8),
            all.len() == 8,
            all.subrange(k as int, 8) == le_bytes(q as nat, (8 - k) as nat),
            acc == fnv_bytes(h, all.take(k as int)),
        decreases 8 - k,
    {
        let b = (q % 256) as u8;
        proof {
            lemma_le_bytes_len(q as nat, (8 - k) as nat);
        }
        assert(le_bytes(q as nat, (8 - k) as nat)[0] == b);
        assert(all[k as int] == b);
        assert(all.take(k + 1).drop_last() =~= all.take(k as int));
        acc = fnv_mix(acc, b);
        assert(all.subrange(k + 1, 8) =~= all.subrange(k as int, 8).drop_first());
        assert(le_bytes(q as nat, (8 - k) as nat).drop_first() =~= le_bytes((q / 256) as nat, (8 - k - 1) as nat));
        q = q / 256;
        k = k + 1;
    }
    assert(all.take(8) =~= all);
    fnv_mix(acc, 0xff)
}

proof fn lemma_le_bytes_len(u: nat, n: nat)
    ensures
        le_bytes(u, n).len() == n,
    decreases n,
{
    if n > 0 {
        lemma_le_bytes_len(u / 256, (n - 1) as nat);
    }
}

fn conflict_lane(
    init: u64,
    lane: u8,
    workspace: &str,
    from_branch: &str,
    into_branch: &str,
    doc: &str,
    kind: &str,
    key: &str,
    base_cutoff_seq: i64,
    theirs_seq: i64,
    ours_seq: i64,
) -> (r: u64)
    ensures
        r == conflict_hash(
            init,
            lane,
            workspace@,
            from_branch@,
            into_branch@,
            doc@,
            kind@,
            key@,
            base_cutoff_seq,
            theirs_seq,
            ours_seq,
        ),
{
    let h = update_str(init, workspace);
    let h = update_str(h, from_branch);
    let h = update_str(h, into_branch);
    let h = update_str(h, doc);
    let h = update_str(h, kind);
    let h = update_str(h, key);
    let h = update_i64(h, base_cutoff_seq);
    let h = update_i64(h, theirs_seq);
    let h = update_i64(h, ours_seq);
    fnv_mix(h, lane)
}

/// `c` is a lowercase hexadecimal digit.
pub open spec fn is_lower_hex(c: char) -> bool {
    ('0' <= c && c <= '9') || ('a' <= c && c <= 'f')
}

/// Every digit of `n` hexadecimal places is a lowercase hexadecimal digit, and there are `n`
/// of them.
pub proof fn lemma_hex_digits_shape(h: nat, n: nat)
    ensures
        hex_digits(h, n).len() == n,
        forall|i: int| 0 <= i < n ==> is_lower_hex(#[trigger] hex_digits(h, n)[i]),
    decreases n,
{
    if n > 0 {
        lemma_hex_digits_shape(h / 16, (n - 1) as nat);
        let d = h % 16;
        let t = seq!['0', '1', '2', '3', '4', '5', '6', '7', '8', '9', 'a', 'b', 'c', 'd', 'e', 'f'];
        assert(forall|k: int| 0 <= k < 16 ==> is_lower_hex(#[trigger] t[k]));
        assert(is_lower_hex(hex_char(d)));
        assert(hex_digits(h, n) == hex_digits(h / 16, (n - 1) as nat).push(hex_char(d)));
    }
}

/// A conflict id is `CONFLICT-` followed by 32 lowercase hexadecimal digits (41 characters
/// in all). Being a function of its coordinates alone, it is the same on every call with the
/// same coordinates.
pub proof fn lemma_conflict_id_shape(
    workspace: Seq<char>,
    from_branch: Seq<char>,
    into_branch: Seq<char>,
    doc: Seq<char>,
    kind: Seq<char>,
    key: Seq<char>,
    base_cutoff_seq: i64,
    theirs_seq: i64,
    ours_seq: i64,
)
    ensures
        ({
            let id = graph_conflict_id_spec(
                workspace,
                from_branch,
                into_branch,
                doc,
                kind,
                key,
                base_cutoff_seq,
                theirs_seq,
                ours_seq,
            );
            &&& id.len() == 41
            &&& id.take(9) == "CONFLICT-"@
            &&& forall|i: int| 9 <= i < 41 ==> is_lower_hex(#[trigger] id[i])
        }),
{
    reveal_strlit("CONFLICT-");
    let id = graph_conflict_id_spec(
        workspace,
        from_branch,
        into_branch,
        doc,
        kind,
        key,
        base_cutoff_seq,
        theirs_seq,
        ours_seq,
    );
    let h1 = conflict_hash(FNV_OFFSET, 0, workspace, from_branch, into_branch, doc, kind, key, base_cutoff_seq, theirs_seq, ours_seq);
    let h2 = conflict_hash(FNV_OFFSET ^ FNV_SECOND_SEED, 1, workspace, from_branch, into_branch, doc, kind, key, base_cutoff_seq, theirs_seq, ours_seq);
    let a = hex_digits(h1 as nat, 16);
    let b = hex_digits(h2 as nat, 16);
    lemma_hex_digits_shape(h1 as nat, 16);
    lemma_hex_digits_shape(h2 as nat, 16);
    assert(id == "CONFLICT-"@ + a + b);
    assert(id.take(9) =~= "CONFLICT-"@);
    assert forall|i: int| 9 <= i < 41 implies is_lower_hex(#[trigger] id[i]) by {
        if i < 25 {
            assert(id[i] == a[i - 9]);
        } else {
            assert(id[i] == b[i - 25]);
        }
    }
}

pub fn graph_conflict_id(
    workspace: &str,
    from_branch: &str,
    into_branch: &str,
    doc: &str,
    kind: &str,
    key: &str,
    base_cutoff_seq: i64,
    theirs_seq: i64,
    ours_seq: i64,
) -> (r: String)
    ensures
        r@ == graph_conflict_id_spec(
            workspace@,
            from_branch@,
            into_branch@,
            doc@,
            kind@,
            key@,
            base_cutoff_seq,
            theirs_seq,
            ours_seq,
        ),
{
    let h1 = conflict_lane(
        FNV_OFFSET,
        0,
        workspace,
        from_branch,
        into_branch,
        doc,
        kind,
        key,
        base_cutoff_seq,
        theirs_seq,
        ours_seq,
    );
    let h2 = conflict_lane(
        FNV_OFFSET ^ FNV_SECOND_SEED,
        1,
        workspace,
        from_branch,
        into_branch,
        doc,
        kind,
        key,
        base_cutoff_seq,
        theirs_seq,
        ours_seq,
    );
    let mut out: Vec<char> = Vec::new();
    append_str(&mut out, "CONFLICT-");
    let a = u64_hex16(h1);
    append_chars(&mut out, a.as_slice());
    let b = u64_hex16(h2);
    append_chars(&mut out, b.as_slice());
    string_of(out.as_slice())
}

/// `,"<key>":"<escaped value>"` when the value is present.
pub open spec fn opt_str_field(key: Seq<char>, value: Option<Seq<char>>) -> Seq<char> {
    match value {
        None => Seq::empty(),
        Some(v) => ",\""@ + key + "\":\""@ + json_escape_seq(v) + "\""@,
    }
}

/// The meta of an operation: embedded as an object when it looks like one, else as a string.
pub open spec fn opt_meta_field(meta_json: Option<Seq<char>>) -> Seq<char> {
    match meta_json {
        None => Seq::empty(),
        Some(m) => {
            let t = trim_seq(m);
            if looks_like_object_seq(t) {
                ",\"meta\":"@ + t
            } else {
                ",\"meta_raw\":\""@ + json_escape_seq(t) + "\""@
            }
        },
    }
}

/// The quoted, escaped tags separated by commas.
pub open spec fn tag_list_seq(tags: Seq<Seq<char>>) -> Seq<char>
    decreases tags.len(),
{
    if tags.len() == 0 {
        Seq::empty()
    } else if tags.len() == 1 {
        "\""@ + json_escape_seq(tags[0]) + "\""@
    } else {
        tag_list_seq(tags.drop_last()) + ","@ + "\""@ + json_escape_seq(tags.last()) + "\""@
    }
}

pub open spec fn tags_field(tags: Seq<Seq<char>>) -> Seq<char> {
    if tags.len() == 0 {
        Seq::empty()
    } else {
        ",\"tags\":["@ + tag_list_seq(tags) + "]"@
    }
}

/// The event type and JSON payload recorded for a graph operation.
pub open spec fn graph_op_event_spec(op: GraphOp) -> (Seq<char>, Seq<char>) {
    match op {
        GraphOp::NodeUpsert(u) => (
            "graph_node_upsert"@,
            "{\"op\":\"node_upsert\",\"id\":\""@ + json_escape_seq(u.id@) + "\",\"type\":\""@
                + json_escape_seq(u.node_type@) + "\""@ + opt_str_field("title"@, opt_view(u.title))
                + opt_str_field("text"@, opt_view(u.text)) + opt_str_field(
                "status"@,
                opt_view(u.status),
            ) + tags_field(strs(u.tags@)) + opt_meta_field(opt_view(u.meta_json)) + "}"@,
        ),
        GraphOp::NodeDelete { id } => (
            "graph_node_delete"@,
            "{\"op\":\"node_delete\",\"id\":\""@ + json_escape_seq(id@) + "\"}"@,
        ),
        GraphOp::EdgeUpsert(u) => (
            "graph_edge_upsert"@,
            "{\"op\":\"edge_upsert\",\"from\":\""@ + json_escape_seq(u.from@) + "\",\"rel\":\""@
                + json_escape_seq(u.rel@) + "\",\"to\":\""@ + json_escape_seq(u.to@) + "\""@
                + opt_meta_field(opt_view(u.meta_json)) + "}"@,
        ),
        GraphOp::EdgeDelete { from, rel, to } => (
            "graph_edge_delete"@,
            "{\"op\":\"edge_delete\",\"from\":\""@ + json_escape_seq(from@) + "\",\"rel\":\""@
                + json_escape_seq(rel@) + "\",\"to\":\""@ + json_escape_seq(to@) + "\"}"@,
        ),
    }
}

fn push_opt_str(out: &mut Vec<char>, key: &str, value: &Option<String>)
    ensures
        final(out)@ == old(out)@ + opt_str_field(key@, opt_view(*value)),
{
    if let Some(v) = value {
        append_str(out, ",\"");
        append_str(out, key);
        append_str(out, "\":\"");
        push_json_escaped(out, v.as_str());
        append_str(out, "\"");
    }
    assert(final(out)@ =~= old(out)@ + opt_str_field(key@, opt_view(*value)));
}

fn push_opt_meta(out: &mut Vec<char>, meta_json: &Option<String>)
    ensures
        final(out)@ == old(out)@ + opt_meta_field(opt_view(*meta_json)),
{
    if let Some(m) = meta_json {
        let t = trim_str(m.as_str());
        let ts = string_of(t.as_slice());
        if looks_like_json_object(ts.as_str()) {
            append_str(out, ",\"meta\":");
            append_chars(out, t.as_slice());
        } else {
            append_str(out, ",\"meta_raw\":\"");
            push_json_escaped(out, ts.as_str());
            append_str(out, "\"");
        }
    }
    assert(final(out)@ =~= old(out)@ + opt_meta_field(opt_view(*meta_json)));
}

fn push_tags(out: &mut Vec<char>, tags: &Vec<String>)
    ensures
        final(out)@ == old(out)@ + tags_field(strs(tags@)),
{
    if tags.len() == 0 {
        assert(final(out)@ =~= old(out)@ + tags_field(strs(tags@)));
        return;
    }
    append_str(out, ",\"tags\":[");
    let ghost head = out@;
    let mut i: usize = 0;
    while i < tags.len()
        invariant
            i <= tags@.len(),
            out@ == head + tag_list_seq(strs(tags@).take(i as int)),
        decreases tags@.len() - i,
    {
        assert(strs(tags@).take(i + 1).drop_last() =~= strs(tags@).take(i as int));
        if i != 0 {
            append_str(out, ",");
        }
        append_str(out, "\"");
        push_json_escaped(out, tags[i].as_str());
        append_str(out, "\"");
        i = i + 1;
        assert(out@ =~= head + tag_list_seq(strs(tags@).take(i as int)));
    }
    assert(strs(tags@).take(tags@.len() as int) =~= strs(tags@));
    append_str(out, "]");
    assert(final(out)@ =~= old(out)@ + tags_field(strs(tags@)));
}

pub fn build_graph_op_event(op: &GraphOp) -> (r: (&'static str, String))
    ensures
        (r.0@, r.1@) == graph_op_event_spec(*op),
{
    let mut out: Vec<char> = Vec::new();
    match op {
        GraphOp::NodeUpsert(upsert) => {
            append_str(&mut out, "{\"op\":\"node_upsert\",\"id\":\"");
            push_json_escaped(&mut out, upsert.id.as_str());
            append_str(&mut out, "\",\"type\":\"");
            push_json_escaped(&mut out, upsert.node_type.as_str());
            append_str(&mut out, "\"");
            push_opt_str(&mut out, "title", &upsert.title);
            push_opt_str(&mut out, "text", &upsert.text);
            push_opt_str(&mut out, "status", &upsert.status);
            push_tags(&mut out, &upsert.tags);
            push_opt_meta(&mut out, &upsert.meta_json);
            append_str(&mut out, "}");
            ("graph_node_upsert", string_of(out.as_slice()))
        },
        GraphOp::NodeDelete { id } => {
            append_str(&mut out, "{\"op\":\"node_delete\",\"id\":\"");
            push_json_escaped(&mut out, id.as_str());
            append_str(&mut out, "\"}");
            ("graph_node_delete", string_of(out.as_slice()))
        },
        GraphOp::EdgeUpsert(upsert) => {
            append_str(&mut out, "{\"op\":\"edge_upsert\",\"from\":\"");
            push_json_escaped(&mut out, upsert.from.as_str());
            append_str(&mut out, "\",\"rel\":\"");
            push_json_escaped(&mut out, upsert.rel.as_str());
            append_str(&mut out, "\",\"to\":\"");
            push_json_escaped(&mut out, upsert.to.as_str());
            append_str(&mut out, "\"");
            push_opt_meta(&mut out, &upsert.meta_json);
            append_str(&mut out, "}");
            ("graph_edge_upsert", string_of(out.as_slice()))
        },
        GraphOp::EdgeDelete { from, rel, to } => {
            append_str(&mut out, "{\"op\":\"edge_delete\",\"from\":\"");
            push_json_escaped(&mut out, from.as_str());
            append_str(&mut out, "\",\"rel\":\"");
            push_json_escaped(&mut out, rel.as_str());
            append_str(&mut out, "\",\"to\":\"");
            push_json_escaped(&mut out, to.as_str());
            append_str(&mut out, "\"}");
            ("graph_edge_delete", string_of(out.as_slice()))
        },
    }
}

} // verus!
