//! What holds of every canonical thread id: it is a fixed point of normalization, and its
//! segments are clean; a direct-message thread names the same thread whichever agent comes
//! first.

use vstd::prelude::*;

use super::job_bus::{slashes, thread_id_spec, thread_parts_spec, MAX_THREAD_ID_LEN};
use crate::text::{
    ascii_lower, char_width, is_ws, join_seq, lemma_lex_total, lemma_trim_end_shape,
    lemma_trim_idempotent, lemma_trim_noop, lemma_trim_start_shape, lex_lt, lower_seq, split_seq,
    trim_end_seq, trim_seq, trim_start_seq, utf8_len,
};

verus! {

/// `s` does not hold `c`.
pub open spec fn lacks(s: Seq<char>, c: char) -> bool {
    forall|i: int| 0 <= i < s.len() ==> s[i] != c
}

/// A clean segment of a thread id: not blank, trimmed, neither `.` nor `..`, and without
/// slash or backslash.
pub open spec fn clean_segment(p: Seq<char>) -> bool {
    &&& p.len() > 0
    &&& trim_seq(p) == p
    &&& p != "."@
    &&& p != ".."@
    &&& lacks(p, '/')
    &&& lacks(p, '\\')
}

/// Every segment of `parts` is clean.
pub open spec fn all_clean(parts: Seq<Seq<char>>) -> bool {
    forall|k: int| 0 <= k < parts.len() ==> clean_segment(#[trigger] parts[k])
}

proof fn lemma_utf8_len_concat(a: Seq<char>, b: Seq<char>)
    ensures
        utf8_len(a + b) == utf8_len(a) + utf8_len(b),
    decreases b.len(),
{
    if b.len() == 0 {
        assert(a + b =~= a);
    } else {
        lemma_utf8_len_concat(a, b.drop_last());
        assert((a + b).drop_last() =~= a + b.drop_last());
        assert((a + b).last() == b.last());
    }
}

proof fn lemma_utf8_len_drop_first(s: Seq<char>)
    requires
        s.len() > 0,
    ensures
        utf8_len(s.drop_first()) <= utf8_len(s),
{
    assert(s =~= seq![s[0]] + s.drop_first());
    lemma_utf8_len_concat(seq![s[0]], s.drop_first());
}

proof fn lemma_trim_start_within(s: Seq<char>)
    ensures
        utf8_len(trim_start_seq(s)) <= utf8_len(s),
        forall|i: int| 0 <= i < trim_start_seq(s).len() ==> s.contains(#[trigger] trim_start_seq(s)[i]),
    decreases s.len(),
{
    if s.len() > 0 && is_ws(s[0]) {
        lemma_trim_start_within(s.drop_first());
        lemma_utf8_len_drop_first(s);
        let t = trim_start_seq(s);
        assert forall|i: int| 0 <= i < t.len() implies s.contains(#[trigger] t[i]) by {
            assert(s.drop_first().contains(t[i]));
            let j = choose|j: int| 0 <= j < s.drop_first().len() && s.drop_first()[j] == t[i];
            assert(s[j + 1] == t[i]);
        }
    } else {
        assert forall|i: int| 0 <= i < s.len() implies s.contains(#[trigger] s[i]) by {}
    }
}

/// Trimming keeps characters of the text only, and makes it no longer.
proof fn lemma_trim_within(s: Seq<char>)
    ensures
        utf8_len(trim_seq(s)) <= utf8_len(s),
        forall|i: int| 0 <= i < trim_seq(s).len() ==> s.contains(#[trigger] trim_seq(s)[i]),
{
    let a = trim_start_seq(s);
    lemma_trim_start_within(s);
    lemma_trim_end_shape(a);
    let u = trim_end_seq(a);
    crate::text::lemma_utf8_len_prefix_mono(a, u.len() as int);
    assert forall|i: int| 0 <= i < u.len() implies s.contains(#[trigger] u[i]) by {
        assert(u[i] == a[i]);
    }
}

/// A text without the separator is one piece.
proof fn lemma_split_single(y: Seq<char>, sep: char)
    requires
        lacks(y, sep),
    ensures
        split_seq(y, sep) == seq![y],
    decreases y.len(),
{
    if y.len() > 0 {
        lemma_split_single(y.drop_last(), sep);
        assert(y.last() != sep);
        assert(y.drop_last().push(y.last()) =~= y);
        assert(seq![y.drop_last()].update(0, y.drop_last().push(y.last())) =~= seq![y]);
    } else {
        assert(y =~= Seq::<char>::empty());
    }
}

/// Splitting `x`, a separator, then a piece without one, gives the pieces of `x` and that
/// piece.
proof fn lemma_split_append(x: Seq<char>, y: Seq<char>, sep: char)
    requires
        lacks(y, sep),
    ensures
        split_seq(x + seq![sep] + y, sep) == split_seq(x, sep).push(y),
    decreases y.len(),
{
    let s = x + seq![sep] + y;
    if y.len() == 0 {
        assert(s.drop_last() =~= x);
        assert(s.last() == sep);
        assert(y =~= Seq::<char>::empty());
    } else {
        lemma_split_append(x, y.drop_last(), sep);
        assert(s.drop_last() =~= x + seq![sep] + y.drop_last());
        assert(s.last() == y.last());
        assert(y.last() != sep);
        assert(y.drop_last().push(y.last()) =~= y);
        assert(split_seq(x, sep).push(y.drop_last()).update(
            split_seq(x, sep).len() as int,
            y.drop_last().push(y.last()),
        ) =~= split_seq(x, sep).push(y));
    }
}

/// Joining segments without the separator and splitting again gives the segments back.
proof fn lemma_split_join(parts: Seq<Seq<char>>, sep: char)
    requires
        parts.len() >= 1,
        forall|k: int| 0 <= k < parts.len() ==> lacks(#[trigger] parts[k], sep),
    ensures
        split_seq(join_seq(parts, seq![sep]), sep) == parts,
    decreases parts.len(),
{
    if parts.len() == 1 {
        lemma_split_single(parts[0], sep);
        assert(seq![parts[0]] =~= parts);
    } else {
        lemma_split_join(parts.drop_last(), sep);
        lemma_split_append(join_seq(parts.drop_last(), seq![sep]), parts.last(), sep);
        assert(parts.drop_last().push(parts.last()) =~= parts);
    }
}

/// Pieces of a split hold characters of the text only, never the separator.
proof fn lemma_split_chars(s: Seq<char>, sep: char)
    ensures
        forall|k: int, i: int|
            0 <= k < split_seq(s, sep).len() && 0 <= i < split_seq(s, sep)[k].len() ==> #[trigger] split_seq(
                s,
                sep,
            )[k][i] != sep && s.contains(split_seq(s, sep)[k][i]),
    decreases s.len(),
{
    crate::text::lemma_split_nonempty(s, sep);
    if s.len() > 0 {
        lemma_split_chars(s.drop_last(), sep);
        crate::text::lemma_split_nonempty(s.drop_last(), sep);
        let rest = split_seq(s.drop_last(), sep);
        let sp = split_seq(s, sep);
        assert forall|k: int, i: int| 0 <= k < sp.len() && 0 <= i < sp[k].len() implies #[trigger] sp[k][i]
            != sep && s.contains(sp[k][i]) by {
            if s.last() == sep {
                assert(sp == rest.push(Seq::empty()));
                assert(k < rest.len());
                assert(sp[k] == rest[k]);
                let j = choose|j: int| 0 <= j < s.drop_last().len() && s.drop_last()[j] == rest[k][i];
                assert(s[j] == sp[k][i]);
            } else {
                let last = rest.last().push(s.last());
                assert(sp == rest.update(rest.len() - 1, last));
                if k == rest.len() - 1 && i == rest.last().len() {
                    assert(sp[k][i] == s.last());
                    assert(s[s.len() - 1] == s.last());
                } else {
                    assert(sp[k][i] == rest[k][i]);
                    let j = choose|j: int| 0 <= j < s.drop_last().len() && s.drop_last()[j] == rest[k][i];
                    assert(s[j] == sp[k][i]);
                }
            }
        }
    }
}

/// Joining the pieces of a split with the separator gives the text back.
proof fn lemma_join_split(s: Seq<char>, sep: char)
    ensures
        join_seq(split_seq(s, sep), seq![sep]) == s,
    decreases s.len(),
{
    crate::text::lemma_split_nonempty(s, sep);
    if s.len() > 0 {
        lemma_join_split(s.drop_last(), sep);
        crate::text::lemma_split_nonempty(s.drop_last(), sep);
        let rest = split_seq(s.drop_last(), sep);
        if s.last() == sep {
            let sp = rest.push(Seq::empty());
            assert(sp.drop_last() =~= rest);
            assert(join_seq(sp, seq![sep]) == join_seq(rest, seq![sep]) + seq![sep] + Seq::<char>::empty());
            assert(s =~= s.drop_last() + seq![sep] + Seq::<char>::empty());
        } else {
            let sp = rest.update(rest.len() - 1, rest.last().push(s.last()));
            lemma_join_last(rest, seq![sep], s.last());
            assert(s =~= s.drop_last().push(s.last()));
        }
    } else {
        assert(split_seq(s, sep) == seq![Seq::<char>::empty()]);
        assert(s =~= Seq::<char>::empty());
    }
}

/// Adding a character to the last segment adds it to the end of the joined text.
proof fn lemma_join_last(parts: Seq<Seq<char>>, sep: Seq<char>, c: char)
    requires
        parts.len() >= 1,
    ensures
        join_seq(parts.update(parts.len() - 1, parts.last().push(c)), sep) == join_seq(parts, sep).push(c),
{
    let up = parts.update(parts.len() - 1, parts.last().push(c));
    if parts.len() == 1 {
    } else {
        assert(up.drop_last() =~= parts.drop_last());
        assert(up.last() == parts.last().push(c));
        assert(join_seq(up, sep) == join_seq(parts.drop_last(), sep) + sep + parts.last().push(c));
        assert(join_seq(parts.drop_last(), sep) + sep + parts.last().push(c) =~= (join_seq(
            parts.drop_last(),
            sep,
        ) + sep + parts.last()).push(c));
    }
}

/// Reading backslashes as slashes keeps the length and leaves no backslash.
proof fn lemma_slashes(t: Seq<char>)
    ensures
        utf8_len(slashes(t)) == utf8_len(t),
        lacks(slashes(t), '\\'),
        lacks(t, '\\') ==> slashes(t) == t,
    decreases t.len(),
{
    if t.len() > 0 {
        lemma_slashes(t.drop_last());
        assert(slashes(t).drop_last() =~= slashes(t.drop_last()));
        assert(slashes(t).last() == (if t.last() == '\\' { '/' } else { t.last() }));
        if lacks(t, '\\') {
            assert(lacks(t.drop_last(), '\\'));
            assert(slashes(t) =~= t);
        }
    } else {
        assert(slashes(t) =~= t);
    }
}

/// The slash as a text.
pub open spec fn slash() -> Seq<char> {
    seq!['/']
}

/// The segments kept from pieces without slash or backslash are clean, and joined they are
/// no longer than the pieces joined.
proof fn lemma_parts_clean(pieces: Seq<Seq<char>>)
    requires
        forall|k: int| 0 <= k < pieces.len() ==> lacks(#[trigger] pieces[k], '/') && lacks(pieces[k], '\\'),
        thread_parts_spec(pieces) is Ok,
    ensures
        all_clean(thread_parts_spec(pieces)->Ok_0),
        utf8_len(join_seq(thread_parts_spec(pieces)->Ok_0, slash())) <= utf8_len(join_seq(pieces, slash())),
    decreases pieces.len(),
{
    if pieces.len() > 0 {
        let d = pieces.drop_last();
        let last = pieces.last();
        assert(forall|k: int| 0 <= k < d.len() ==> #[trigger] d[k] == pieces[k]);
        lemma_parts_clean(d);
        let pp = thread_parts_spec(d)->Ok_0;
        let p = trim_seq(last);
        let parts = thread_parts_spec(pieces)->Ok_0;
        if pieces.len() > 1 {
            lemma_utf8_len_concat(join_seq(d, slash()) + slash(), last);
            lemma_utf8_len_concat(join_seq(d, slash()), slash());
        }
        if !(p.len() == 0 || p == "."@) {
            assert(parts == pp.push(p));
            lemma_trim_within(last);
            lemma_trim_idempotent(last);
            assert forall|i: int| 0 <= i < p.len() implies p[i] != '/' && p[i] != '\\' by {
                let j = choose|j: int| 0 <= j < last.len() && last[j] == p[i];
            }
            assert forall|k: int| 0 <= k < parts.len() implies clean_segment(#[trigger] parts[k]) by {
                if k < pp.len() {
                    assert(parts[k] == pp[k]);
                }
            }
            if pp.len() > 0 {
                assert(parts.drop_last() =~= pp);
                lemma_utf8_len_concat(join_seq(pp, slash()) + slash(), p);
                lemma_utf8_len_concat(join_seq(pp, slash()), slash());
                if pieces.len() == 1 {
                    assert(d.len() == 0);
                    assert(pp.len() == 0);
                }
            }
        } else {
            assert(parts == pp);
        }
    }
}

/// Clean segments are kept as they are.
proof fn lemma_parts_identity(parts: Seq<Seq<char>>)
    requires
        all_clean(parts),
    ensures
        thread_parts_spec(parts) == Ok::<Seq<Seq<char>>, Seq<char>>(parts),
    decreases parts.len(),
{
    if parts.len() > 0 {
        let d = parts.drop_last();
        assert forall|k: int| 0 <= k < d.len() implies clean_segment(#[trigger] d[k]) by {
            assert(d[k] == parts[k]);
        }
        lemma_parts_identity(d);
        assert(clean_segment(parts[parts.len() - 1]));
        assert(d.push(parts.last()) =~= parts);
    } else {
        assert(parts =~= Seq::<Seq<char>>::empty());
    }
}

/// Joining non-blank segments: the text starts with the first segment's first character,
/// ends with the last segment's last one, and holds no character that no segment holds but
/// the slash.
proof fn lemma_join_shape(parts: Seq<Seq<char>>, c: char)
    requires
        parts.len() >= 1,
        forall|k: int| 0 <= k < parts.len() ==> (#[trigger] parts[k]).len() > 0,
    ensures
        join_seq(parts, slash()).len() > 0,
        join_seq(parts, slash())[0] == parts[0][0],
        join_seq(parts, slash()).last() == parts.last().last(),
        c != '/' && (forall|k: int| 0 <= k < parts.len() ==> lacks(#[trigger] parts[k], c)) ==> lacks(
            join_seq(parts, slash()),
            c,
        ),
    decreases parts.len(),
{
    if parts.len() > 1 {
        let d = parts.drop_last();
        assert(forall|k: int| 0 <= k < d.len() ==> #[trigger] d[k] == parts[k]);
        lemma_join_shape(d, c);
        let j = join_seq(d, slash());
        let whole = j + slash() + parts.last();
        assert(join_seq(parts, slash()) == whole);
        assert(whole[0] == j[0]);
        if c != '/' && (forall|k: int| 0 <= k < parts.len() ==> lacks(#[trigger] parts[k], c)) {
            assert(lacks(parts[parts.len() - 1], c));
            assert forall|i: int| 0 <= i < whole.len() implies whole[i] != c by {
                if i < j.len() {
                } else if i == j.len() {
                } else {
                    assert(whole[i] == parts.last()[i - j.len() - 1]);
                }
            }
        }
    }
}

/// Clean segments joined by slashes read back as the same segments: the text is already
/// trimmed, holds no backslash, and neither starts nor ends with a slash.
proof fn lemma_reads_back(q: Seq<Seq<char>>)
    requires
        q.len() >= 1,
        all_clean(q),
    ensures
        ({
            let t = join_seq(q, slash());
            &&& t.len() > 0
            &&& trim_seq(t) == t
            &&& slashes(t) == t
            &&& lacks(t, '\\')
            &&& t[0] != '/'
            &&& t.last() != '/'
            &&& split_seq(t, '/') == q
            &&& thread_parts_spec(split_seq(slashes(trim_seq(t)), '/')) == Ok::<Seq<Seq<char>>, Seq<char>>(q)
        }),
{
    let t = join_seq(q, slash());
    assert(clean_segment(q[0]));
    assert(clean_segment(q[q.len() - 1]));
    lemma_join_shape(q, '\\');
    lemma_trim_idempotent(q[0]);
    lemma_trim_idempotent(q.last());
    lemma_trim_noop(t);
    lemma_slashes(t);
    lemma_split_join(q, '/');
    lemma_parts_identity(q);
}

proof fn lemma_dm_clean()
    ensures
        clean_segment("dm"@),
        lower_seq("dm"@) == "dm"@,
        utf8_len("dm"@) == 2,
{
    reveal_strlit("dm");
    reveal_strlit(".");
    reveal_strlit("..");
    lemma_trim_noop("dm"@);
    crate::text::lemma_lower_noop("dm"@);
    super::anchors::lemma_utf8_len_ascii("dm"@);
}

/// A text that lowers to `dm` is two one-byte characters.
proof fn lemma_dm_width(p: Seq<char>)
    requires
        lower_seq(p) == "dm"@,
    ensures
        utf8_len(p) == 2,
{
    reveal_strlit("dm");
    assert(lower_seq(p).len() == p.len());
    assert(p.len() == 2);
    assert(lower_seq(p)[0] == ascii_lower(p[0]));
    assert(lower_seq(p)[1] == ascii_lower(p[1]));
    assert(ascii_lower(p[0]) == 'd');
    assert(ascii_lower(p[1]) == 'm');
    super::anchors::lemma_utf8_len_ascii(p);
}

/// Every canonical thread id normalizes to itself, holds no backslash, neither starts nor
/// ends with a slash, and each of its segments is clean (not blank, trimmed, neither `.` nor
/// `..`).
pub proof fn lemma_thread_id_canonical(raw: Seq<char>)
    requires
        thread_id_spec(raw) is Ok,
    ensures
        ({
            let t = thread_id_spec(raw)->Ok_0;
            &&& thread_id_spec(t) == Ok::<Seq<char>, Seq<char>>(t)
            &&& lacks(t, '\\')
            &&& t.len() > 0
            &&& t[0] != '/'
            &&& t.last() != '/'
            &&& all_clean(split_seq(t, '/'))
        }),
{
    reveal_strlit("/");
    reveal_strlit("dm/");
    reveal_strlit("dm");
    assert("/"@ =~= slash());
    let tr = trim_seq(raw);
    let sl = slashes(tr);
    let pieces = split_seq(sl, '/');
    let parts = thread_parts_spec(pieces)->Ok_0;
    lemma_slashes(tr);
    lemma_split_chars(sl, '/');
    assert forall|k: int| 0 <= k < pieces.len() implies lacks(#[trigger] pieces[k], '/') && lacks(
        pieces[k],
        '\\',
    ) by {
        assert forall|i: int| 0 <= i < pieces[k].len() implies pieces[k][i] != '\\' by {
            assert(sl.contains(pieces[k][i]));
        }
    }
    lemma_parts_clean(pieces);
    lemma_join_split(sl, '/');
    let t = thread_id_spec(raw)->Ok_0;
    if parts.len() == 3 && lower_seq(parts[0]) == "dm"@ {
        let a = trim_seq(parts[1]);
        let b = trim_seq(parts[2]);
        assert(clean_segment(parts[1]) && clean_segment(parts[2]));
        lemma_lex_total(a, b);
        let (x, y) = if !lex_lt(b, a) {
            (a, b)
        } else {
            (b, a)
        };
        assert(!lex_lt(y, x));
        lemma_dm_clean();
        let q = seq!["dm"@, x, y];
        assert(all_clean(q));
        assert(q.drop_last() =~= seq!["dm"@, x]);
        assert(seq!["dm"@, x].drop_last() =~= seq!["dm"@]);
        assert(join_seq(seq!["dm"@], slash()) == "dm"@);
        assert(join_seq(seq!["dm"@, x], slash()) == join_seq(seq!["dm"@], slash()) + slash() + x);
        assert(join_seq(q, slash()) == join_seq(seq!["dm"@, x], slash()) + slash() + y);
        assert("dm/"@ =~= "dm"@ + slash());
        assert(t =~= join_seq(q, slash()));
        lemma_reads_back(q);
        // the length bound carries over: `dm` and the first segment are both two bytes.
        let pj = join_seq(parts, slash());
        assert(parts.drop_last() =~= seq![parts[0], parts[1]]);
        assert(seq![parts[0], parts[1]].drop_last() =~= seq![parts[0]]);
        assert(a == parts[1] && b == parts[2]);
        assert(join_seq(seq![parts[0]], slash()) == parts[0]);
        assert(join_seq(seq![parts[0], parts[1]], slash()) == join_seq(seq![parts[0]], slash()) + slash()
            + parts[1]);
        assert(pj == join_seq(seq![parts[0], parts[1]], slash()) + slash() + parts[2]);
        assert(pj =~= parts[0] + slash() + a + slash() + b);
        lemma_dm_width(parts[0]);
        lemma_utf8_len_concat(parts[0] + slash() + a + slash(), b);
        lemma_utf8_len_concat(parts[0] + slash() + a, slash());
        lemma_utf8_len_concat(parts[0] + slash(), a);
        lemma_utf8_len_concat(parts[0], slash());
        lemma_utf8_len_concat("dm"@ + slash() + x + slash(), y);
        lemma_utf8_len_concat("dm"@ + slash() + x, slash());
        lemma_utf8_len_concat("dm"@ + slash(), x);
        lemma_utf8_len_concat("dm"@, slash());
        assert(utf8_len(t) == utf8_len(pj));
        assert(thread_id_spec(t) == Ok::<Seq<char>, Seq<char>>("dm/"@ + x + "/"@ + y));
    } else {
        assert(t == join_seq(parts, "/"@));
        assert(parts.len() >= 1);
        lemma_reads_back(parts);
    }
}

/// Trimming the end of a text that ends with something other than blanks keeps what comes
/// before untouched.
proof fn lemma_trim_end_concat(x: Seq<char>, y: Seq<char>)
    requires
        trim_end_seq(y).len() > 0,
    ensures
        trim_end_seq(x + y) == x + trim_end_seq(y),
    decreases y.len(),
{
    if y.len() == 0 {
    } else if is_ws(y.last()) {
        assert((x + y).drop_last() =~= x + y.drop_last());
        assert((x + y).last() == y.last());
        lemma_trim_end_concat(x, y.drop_last());
    } else {
        assert((x + y).last() == y.last());
    }
}

/// Trimming the start of a text with one more character.
proof fn lemma_trim_start_push(x: Seq<char>, c: char)
    ensures
        trim_start_seq(x).len() > 0 ==> trim_start_seq(x.push(c)) == trim_start_seq(x).push(c),
        trim_start_seq(x).len() == 0 ==> trim_start_seq(x.push(c)) == trim_start_seq(seq![c]),
    decreases x.len(),
{
    if x.len() == 0 {
        assert(x.push(c) =~= seq![c]);
    } else if is_ws(x[0]) {
        assert(x.push(c).drop_first() =~= x.drop_first().push(c));
        lemma_trim_start_push(x.drop_first(), c);
    } else {
    }
}

/// Trimming the start then the end is trimming the end then the start.
proof fn lemma_trim_commutes(s: Seq<char>)
    ensures
        trim_start_seq(trim_end_seq(s)) == trim_end_seq(trim_start_seq(s)),
    decreases s.len(),
{
    if s.len() > 0 {
        let d = s.drop_last();
        let c = s.last();
        assert(d.push(c) =~= s);
        lemma_trim_start_push(d, c);
        let ts = trim_start_seq(s);
        assert(seq![c].drop_first() =~= Seq::<char>::empty());
        assert(trim_start_seq(Seq::<char>::empty()) == Seq::<char>::empty());
        if is_ws(c) {
            assert(trim_end_seq(s) == trim_end_seq(d));
            lemma_trim_commutes(d);
            if trim_start_seq(d).len() > 0 {
                assert(ts == trim_start_seq(d).push(c));
                assert(ts.drop_last() =~= trim_start_seq(d));
                assert(ts.last() == c);
                assert(trim_end_seq(ts) == trim_end_seq(ts.drop_last()));
            } else {
                assert(trim_start_seq(seq![c]) == trim_start_seq(seq![c].drop_first()));
                assert(ts == Seq::<char>::empty());
                assert(trim_end_seq(trim_start_seq(d)) == trim_start_seq(d));
            }
        } else {
            assert(trim_end_seq(s) == s);
            if trim_start_seq(d).len() > 0 {
                assert(ts == trim_start_seq(d).push(c));
            } else {
                assert(trim_start_seq(seq![c]) == seq![c]);
            }
            assert(ts.len() > 0 && ts.last() == c);
            assert(trim_end_seq(ts) == ts);
        }
    }
}

/// Trimming a text whose end was trimmed is trimming the text.
proof fn lemma_trim_of_trim_end(s: Seq<char>)
    ensures
        trim_seq(trim_end_seq(s)) == trim_seq(s),
        trim_seq(s).len() > 0 ==> trim_end_seq(s).len() > 0,
{
    lemma_trim_commutes(s);
    lemma_trim_end_shape(s);
    let e = trim_end_seq(s);
    lemma_trim_commutes(e);
    lemma_trim_end_shape(e);
    assert(trim_end_seq(e) == e);
    if e.len() == 0 {
        assert(trim_start_seq(e) == e);
    }
}

/// An agent id in a direct-message thread: something other than blanks, which trimmed is
/// neither `.` nor `..`, without slash or backslash.
pub open spec fn agent_segment(a: Seq<char>) -> bool {
    &&& trim_seq(a).len() > 0
    &&& trim_seq(a) != "."@
    &&& trim_seq(a) != ".."@
    &&& lacks(a, '/')
    &&& lacks(a, '\\')
}

/// The length of the trimmed `dm/<a>/<b>`: only `b`'s trailing blanks are trimmed away.
pub open spec fn dm_len(a: Seq<char>, b: Seq<char>) -> nat {
    4nat + utf8_len(a) + utf8_len(trim_end_seq(b))
}

/// The canonical direct-message thread of two agents: the smaller one first.
pub open spec fn dm_canonical(x: Seq<char>, y: Seq<char>) -> Seq<char> {
    if !lex_lt(y, x) {
        "dm/"@ + x + "/"@ + y
    } else {
        "dm/"@ + y + "/"@ + x
    }
}

/// How `dm/<u>/<v>` normalizes, for any two agent ids: refused as too long when its trimmed
/// text is over the limit, else the canonical thread of the two trimmed agents.
pub proof fn lemma_dm_thread_reads(u: Seq<char>, v: Seq<char>)
    requires
        agent_segment(u),
        agent_segment(v),
    ensures
        thread_id_spec("dm/"@ + u + "/"@ + v) == if dm_len(u, v) > MAX_THREAD_ID_LEN {
            Err::<Seq<char>, Seq<char>>("thread_id too long"@)
        } else {
            Ok::<Seq<char>, Seq<char>>(dm_canonical(trim_seq(u), trim_seq(v)))
        },
{
    reveal_strlit("/");
    reveal_strlit("dm/");
    reveal_strlit("dm");
    assert("/"@ =~= slash());
    assert("dm/"@ =~= "dm"@ + slash());
    lemma_dm_clean();
    let w = trim_end_seq(v);
    lemma_trim_of_trim_end(v);
    lemma_trim_end_shape(v);
    assert(w =~= v.take(w.len() as int));
    let prefix = "dm"@ + slash() + u + slash();
    let raw = "dm/"@ + u + "/"@ + v;
    assert(raw =~= prefix + v);
    lemma_trim_end_concat(prefix, v);
    let t = prefix + w;
    assert(raw[0] == 'd');
    assert(trim_start_seq(raw) == raw);
    assert(trim_seq(raw) == t);
    // the length of the trimmed text
    lemma_utf8_len_concat(prefix, w);
    lemma_utf8_len_concat("dm"@ + slash() + u, slash());
    lemma_utf8_len_concat("dm"@ + slash(), u);
    lemma_utf8_len_concat("dm"@, slash());
    super::anchors::lemma_utf8_len_ascii(slash());
    assert(utf8_len(t) == dm_len(u, v));
    if dm_len(u, v) <= MAX_THREAD_ID_LEN {
        // u is not blank: it holds the first character of its trim.
        assert(u.len() > 0) by {
            if u.len() == 0 {
                assert(trim_start_seq(u) == u);
                assert(trim_end_seq(u) == u);
            }
        }
        assert(lacks(w, '/') && lacks(w, '\\')) by {
            assert forall|i: int| 0 <= i < w.len() implies w[i] != '/' && w[i] != '\\' by {
                assert(w[i] == v[i]);
            }
        }
        let q = seq!["dm"@, u, w];
        assert forall|k: int| 0 <= k < q.len() implies (#[trigger] q[k]).len() > 0 by {}
        assert forall|k: int| 0 <= k < q.len() implies lacks(#[trigger] q[k], '/') by {}
        assert forall|k: int| 0 <= k < q.len() implies lacks(#[trigger] q[k], '\\') by {}
        assert(q.drop_last() =~= seq!["dm"@, u]);
        assert(seq!["dm"@, u].drop_last() =~= seq!["dm"@]);
        assert(seq!["dm"@].drop_last() =~= Seq::<Seq<char>>::empty());
        assert(join_seq(seq!["dm"@], slash()) == "dm"@);
        assert(join_seq(seq!["dm"@, u], slash()) == join_seq(seq!["dm"@], slash()) + slash() + u);
        assert(join_seq(q, slash()) == join_seq(seq!["dm"@, u], slash()) + slash() + w);
        assert(t =~= join_seq(q, slash()));
        lemma_join_shape(q, '\\');
        lemma_slashes(t);
        lemma_split_join(q, '/');
        assert(split_seq(slashes(trim_seq(raw)), '/') == q);
        // the segments kept, one by one
        lemma_trim_idempotent(u);
        lemma_trim_idempotent(v);
        let tu = trim_seq(u);
        let tv = trim_seq(v);
        assert(all_clean(seq!["dm"@]));
        lemma_parts_identity(seq!["dm"@]);
        assert(seq!["dm"@].push(tu) =~= seq!["dm"@, tu]);
        assert(thread_parts_spec(seq!["dm"@, u]) == Ok::<Seq<Seq<char>>, Seq<char>>(seq!["dm"@, tu]));
        assert(seq!["dm"@, tu].push(tv) =~= seq!["dm"@, tu, tv]);
        assert(thread_parts_spec(q) == Ok::<Seq<Seq<char>>, Seq<char>>(seq!["dm"@, tu, tv]));
        assert(trim_seq(tu) == tu && trim_seq(tv) == tv);
    }
}

/// A direct-message thread names the same thread whichever of its two agents is written
/// first, whenever both orders land on the same side of the length limit (only the last
/// agent's trailing blanks are trimmed away, so that is so when neither agent ends in blanks,
/// at any length, and whenever the two fit together within the limit).
pub proof fn lemma_dm_thread_symmetric(a: Seq<char>, b: Seq<char>)
    requires
        agent_segment(a),
        agent_segment(b),
        (dm_len(a, b) > MAX_THREAD_ID_LEN) == (dm_len(b, a) > MAX_THREAD_ID_LEN),
    ensures
        thread_id_spec("dm/"@ + a + "/"@ + b) == thread_id_spec("dm/"@ + b + "/"@ + a),
{
    lemma_dm_thread_reads(a, b);
    lemma_dm_thread_reads(b, a);
    lemma_lex_total(trim_seq(a), trim_seq(b));
}

/// Both orders of two agents land on the same side of the length limit when neither agent
/// ends in blanks, or when the two fit together within it.
pub proof fn lemma_dm_len_sides(a: Seq<char>, b: Seq<char>)
    requires
        (trim_end_seq(a) == a && trim_end_seq(b) == b) || utf8_len(a) + utf8_len(b) + 4 <= MAX_THREAD_ID_LEN,
    ensures
        (dm_len(a, b) > MAX_THREAD_ID_LEN) == (dm_len(b, a) > MAX_THREAD_ID_LEN),
{
    lemma_trim_end_shape(a);
    lemma_trim_end_shape(b);
    crate::text::lemma_utf8_len_prefix_mono(a, trim_end_seq(a).len() as int);
    crate::text::lemma_utf8_len_prefix_mono(b, trim_end_seq(b).len() as int);
}

} // verus!
