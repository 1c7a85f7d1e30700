//! Character-level text primitives with exact specifications.

use vstd::prelude::*;

verus! {

broadcast use vstd::string::group_string_axioms;

/// The characters of `s`, in order.
pub fn chars_of(s: &str) -> (v: Vec<char>)
    ensures
        v@ == s@,
{
    let mut v: Vec<char> = Vec::new();
    for c in it: s.chars()
        invariant
            it.seq() == s@,
            v@ == s@.take(it.index()),
    {
        v.push(c);
        assert(s@.take(it.index() + 1) =~= v@);
    }
    assert(v@ =~= s@);
    v
}

/// Appends one character to a string (`String::push`).
#[verifier::external_body]
fn push_char(s: &mut String, c: char)
    ensures
        final(s)@ == old(s)@.push(c),
{
    s.push(c);
}

/// The string whose characters are `v`.
pub fn string_of(v: &[char]) -> (s: String)
    ensures
        s@ == v@,
{
    let mut s = String::new();
    let mut i: usize = 0;
    while i < v.len()
        invariant
            i <= v.len(),
            s@ == v@.take(i as int),
        decreases v.len() - i,
    {
        push_char(&mut s, v[i]);
        i = i + 1;
        assert(s@ =~= v@.take(i as int));
    }
    assert(v@.take(v.len() as int) =~= v@);
    s
}


/// The character sequences held by a vector of character vectors.
pub open spec fn seqs(v: Seq<Vec<char>>) -> Seq<Seq<char>> {
    v.map_values(|x: Vec<char>| x@)
}

/// The character sequences held by a vector of strings.
pub open spec fn strs(v: Seq<String>) -> Seq<Seq<char>> {
    v.map_values(|x: String| x@)
}

/// `char::is_whitespace`: the Unicode `White_Space` property.
pub open spec fn is_ws(c: char) -> bool {
    ||| '\u{9}' <= c <= '\u{d}'
    ||| c == ' '
    ||| c == '\u{85}'
    ||| c == '\u{a0}'
    ||| c == '\u{1680}'
    ||| '\u{2000}' <= c <= '\u{200a}'
    ||| c == '\u{2028}'
    ||| c == '\u{2029}'
    ||| c == '\u{202f}'
    ||| c == '\u{205f}'
    ||| c == '\u{3000}'
}

pub fn is_whitespace(c: char) -> (b: bool)
    ensures
        b == is_ws(c),
{
    ('\u{9}' <= c && c <= '\u{d}') || c == ' ' || c == '\u{85}' || c == '\u{a0}' || c
        == '\u{1680}' || ('\u{2000}' <= c && c <= '\u{200a}') || c == '\u{2028}' || c
        == '\u{2029}' || c == '\u{202f}' || c == '\u{205f}' || c == '\u{3000}'
}

/// `str::trim_start`.
pub open spec fn trim_start_seq(s: Seq<char>) -> Seq<char>
    decreases s.len(),
{
    if s.len() > 0 && is_ws(s[0]) {
        trim_start_seq(s.drop_first())
    } else {
        s
    }
}

/// `str::trim_end`.
pub open spec fn trim_end_seq(s: Seq<char>) -> Seq<char>
    decreases s.len(),
{
    if s.len() > 0 && is_ws(s.last()) {
        trim_end_seq(s.drop_last())
    } else {
        s
    }
}

/// `str::trim`.
pub open spec fn trim_seq(s: Seq<char>) -> Seq<char> {
    trim_end_seq(trim_start_seq(s))
}

/// The characters of `v` from `from` up to (not including) `to`.
pub fn sub_chars(v: &[char], from: usize, to: usize) -> (r: Vec<char>)
    requires
        from <= to <= v@.len(),
    ensures
        r@ == v@.subrange(from as int, to as int),
{
    let mut r: Vec<char> = Vec::new();
    let mut i = from;
    while i < to
        invariant
            from <= i <= to <= v@.len(),
            r@ == v@.subrange(from as int, i as int),
        decreases to - i,
    {
        r.push(v[i]);
        i = i + 1;
        assert(r@ =~= v@.subrange(from as int, i as int));
    }
    r
}

/// `str::trim_start`, returning the position where the kept text begins.
pub fn trim_start_index(v: &[char]) -> (i: usize)
    ensures
        i <= v@.len(),
        trim_start_seq(v@) == v@.subrange(i as int, v@.len() as int),
{
    let mut i: usize = 0;
    assert(v@.subrange(0, v@.len() as int) =~= v@);
    while i < v.len() && is_whitespace(v[i])
        invariant
            i <= v@.len(),
            trim_start_seq(v@) == trim_start_seq(v@.subrange(i as int, v@.len() as int)),
        decreases v@.len() - i,
    {
        assert(v@.subrange(i as int, v@.len() as int).drop_first() =~= v@.subrange(
            i + 1,
            v@.len() as int,
        ));
        i = i + 1;
    }
    i
}

/// `str::trim`.
pub fn trim(v: &[char]) -> (r: Vec<char>)
    ensures
        r@ == trim_seq(v@),
{
    let i = trim_start_index(v);
    let mut j: usize = v.len();
    while j > i && is_whitespace(v[j - 1])
        invariant
            i <= j <= v@.len(),
            trim_end_seq(v@.subrange(i as int, v@.len() as int)) == trim_end_seq(
                v@.subrange(i as int, j as int),
            ),
        decreases j,
    {
        assert(v@.subrange(i as int, j as int).drop_last() =~= v@.subrange(i as int, j - 1));
        j = j - 1;
    }
    sub_chars(v, i, j)
}

/// The characters of `s` with surrounding whitespace removed.
pub fn trim_str(s: &str) -> (r: Vec<char>)
    ensures
        r@ == trim_seq(s@),
{
    let v = chars_of(s);
    trim(v.as_slice())
}

/// Whether two character sequences are equal.
pub fn chars_eq(a: &[char], b: &[char]) -> (r: bool)
    ensures
        r == (a@ == b@),
{
    if a.len() != b.len() {
        return false;
    }
    let mut i: usize = 0;
    while i < a.len()
        invariant
            i <= a@.len() == b@.len(),
            a@.take(i as int) == b@.take(i as int),
        decreases a@.len() - i,
    {
        if a[i] != b[i] {
            assert(a@[i as int] != b@[i as int]);
            return false;
        }
        assert(a@.take(i + 1) =~= a@.take(i as int).push(a@[i as int]));
        assert(b@.take(i + 1) =~= b@.take(i as int).push(b@[i as int]));
        i = i + 1;
    }
    assert(a@.take(a@.len() as int) =~= a@);
    assert(b@.take(b@.len() as int) =~= b@);
    true
}

/// Whether the characters of `a` spell the string `b`.
pub fn chars_eq_str(a: &[char], b: &str) -> (r: bool)
    ensures
        r == (a@ == b@),
{
    let bv = chars_of(b);
    chars_eq(a, bv.as_slice())
}

/// `char::to_ascii_lowercase`.
pub open spec fn ascii_lower(c: char) -> char {
    if 'A' <= c <= 'Z' {
        ((c as u32) + 32) as char
    } else {
        c
    }
}

/// `char::to_ascii_uppercase`.
pub open spec fn ascii_upper(c: char) -> char {
    if 'a' <= c <= 'z' {
        ((c as u32) - 32) as char
    } else {
        c
    }
}

/// `str::to_ascii_lowercase`.
pub open spec fn lower_seq(s: Seq<char>) -> Seq<char> {
    s.map_values(|c: char| ascii_lower(c))
}

/// `str::to_ascii_uppercase`.
pub open spec fn upper_seq(s: Seq<char>) -> Seq<char> {
    s.map_values(|c: char| ascii_upper(c))
}

pub fn to_ascii_lower_char(c: char) -> (r: char)
    ensures
        r == ascii_lower(c),
{
    if 'A' <= c && c <= 'Z' {
        ((c as u8) + 32) as char
    } else {
        c
    }
}

pub fn to_ascii_upper_char(c: char) -> (r: char)
    ensures
        r == ascii_upper(c),
{
    if 'a' <= c && c <= 'z' {
        ((c as u8) - 32) as char
    } else {
        c
    }
}

pub fn to_ascii_lower(v: &[char]) -> (r: Vec<char>)
    ensures
        r@ == lower_seq(v@),
{
    let mut r: Vec<char> = Vec::new();
    let mut i: usize = 0;
    while i < v.len()
        invariant
            i <= v@.len(),
            r@ == lower_seq(v@.take(i as int)),
        decreases v@.len() - i,
    {
        r.push(to_ascii_lower_char(v[i]));
        i = i + 1;
        assert(r@ =~= lower_seq(v@.take(i as int)));
    }
    assert(v@.take(v@.len() as int) =~= v@);
    r
}

pub fn to_ascii_upper(v: &[char]) -> (r: Vec<char>)
    ensures
        r@ == upper_seq(v@),
{
    let mut r: Vec<char> = Vec::new();
    let mut i: usize = 0;
    while i < v.len()
        invariant
            i <= v@.len(),
            r@ == upper_seq(v@.take(i as int)),
        decreases v@.len() - i,
    {
        r.push(to_ascii_upper_char(v[i]));
        i = i + 1;
        assert(r@ =~= upper_seq(v@.take(i as int)));
    }
    assert(v@.take(v@.len() as int) =~= v@);
    r
}

/// `p` is a prefix of `s`.
pub open spec fn has_prefix(s: Seq<char>, p: Seq<char>) -> bool {
    p.len() <= s.len() && s.take(p.len() as int) == p
}

/// `str::starts_with`.
pub fn starts_with(v: &[char], p: &[char]) -> (r: bool)
    ensures
        r == has_prefix(v@, p@),
{
    if p.len() > v.len() {
        return false;
    }
    let head = sub_chars(v, 0, p.len());
    assert(head@ =~= v@.take(p@.len() as int));
    chars_eq(head.as_slice(), p)
}

/// `str::starts_with` against a string literal or other `&str`.
pub fn starts_with_str(v: &[char], p: &str) -> (r: bool)
    ensures
        r == has_prefix(v@, p@),
{
    let pv = chars_of(p);
    starts_with(v, pv.as_slice())
}

/// Number of bytes in the UTF-8 encoding of `c` (`char::len_utf8`).
pub open spec fn char_width(c: char) -> nat {
    if '\u{80}' > c {
        1
    } else if '\u{800}' > c {
        2
    } else if '\u{10000}' > c {
        3
    } else {
        4
    }
}

/// Number of bytes in the UTF-8 encoding of `s` (`str::len`).
pub open spec fn utf8_len(s: Seq<char>) -> nat
    decreases s.len(),
{
    if s.len() == 0 {
        0
    } else {
        utf8_len(s.drop_last()) + char_width(s.last())
    }
}

pub fn char_len_utf8(c: char) -> (w: usize)
    ensures
        w == char_width(c),
        1 <= w <= 4,
{
    if '\u{80}' > c {
        1
    } else if '\u{800}' > c {
        2
    } else if '\u{10000}' > c {
        3
    } else {
        4
    }
}

/// Whether the UTF-8 length of `v` is greater than `max`.
pub fn utf8_len_exceeds(v: &[char], max: usize) -> (r: bool)
    ensures
        r == (utf8_len(v@) > max),
{
    let mut acc: usize = 0;
    let mut i: usize = 0;
    while i < v.len()
        invariant
            i <= v@.len(),
            acc == utf8_len(v@.take(i as int)),
            acc <= max,
        decreases v@.len() - i,
    {
        let w = char_len_utf8(v[i]);
        assert(v@.take(i + 1).drop_last() =~= v@.take(i as int));
        if w > max || acc > max - w {
            proof {
                lemma_utf8_len_prefix_mono(v@, i + 1);
            }
            return true;
        }
        acc = acc + w;
        i = i + 1;
    }
    assert(v@.take(v@.len() as int) =~= v@);
    false
}

/// The UTF-8 length of `v` (`str::len`), when it fits in `usize`.
pub fn utf8_len_of(v: &[char]) -> (r: usize)
    requires
        utf8_len(v@) <= usize::MAX,
    ensures
        r == utf8_len(v@),
{
    let mut acc: usize = 0;
    let mut i: usize = 0;
    while i < v.len()
        invariant
            i <= v@.len(),
            acc == utf8_len(v@.take(i as int)),
            utf8_len(v@) <= usize::MAX,
        decreases v@.len() - i,
    {
        let w = char_len_utf8(v[i]);
        assert(v@.take(i + 1).drop_last() =~= v@.take(i as int));
        proof {
            lemma_utf8_len_prefix_mono(v@, i + 1);
        }
        acc = acc + w;
        i = i + 1;
    }
    assert(v@.take(v@.len() as int) =~= v@);
    acc
}

/// A longer prefix never has a shorter encoding.
pub proof fn lemma_utf8_len_prefix_mono(s: Seq<char>, k: int)
    requires
        0 <= k <= s.len(),
    ensures
        utf8_len(s.take(k)) <= utf8_len(s),
    decreases s.len() - k,
{
    if k < s.len() {
        lemma_utf8_len_prefix_mono(s, k + 1);
        assert(s.take(k + 1).drop_last() =~= s.take(k));
    } else {
        assert(s.take(k) =~= s);
    }
}


/// `s.chars().take(n)`.
pub open spec fn take_chars(s: Seq<char>, n: nat) -> Seq<char> {
    if s.len() <= n {
        s
    } else {
        s.take(n as int)
    }
}

/// `s.chars().take(n).collect::<String>()`.
pub fn take_chars_string(v: &[char], n: usize) -> (r: String)
    ensures
        r@ == take_chars(v@, n as nat),
{
    let end = if v.len() <= n {
        v.len()
    } else {
        n
    };
    let t = sub_chars(v, 0, end);
    assert(v@.subrange(0, v@.len() as int) =~= v@);
    string_of(t.as_slice())
}

/// `char::is_ascii_lowercase`.
pub open spec fn is_ascii_lower(c: char) -> bool {
    'a' <= c <= 'z'
}

/// `char::is_ascii_digit`.
pub open spec fn is_ascii_digit(c: char) -> bool {
    '0' <= c <= '9'
}

/// `char::is_ascii_hexdigit`.
pub open spec fn is_ascii_hexdigit(c: char) -> bool {
    ('0' <= c <= '9') || ('a' <= c <= 'f') || ('A' <= c <= 'F')
}

/// `char::is_control`: the Unicode general category `Cc`.
pub open spec fn is_control(c: char) -> bool {
    c <= '\u{1f}' || '\u{7f}' <= c <= '\u{9f}'
}

pub fn char_is_control(c: char) -> (b: bool)
    ensures
        b == is_control(c),
{
    c <= '\u{1f}' || ('\u{7f}' <= c && c <= '\u{9f}')
}

/// `s` contains the character `c`.
pub open spec fn has_char(s: Seq<char>, c: char) -> bool {
    exists|i: int| 0 <= i < s.len() && s[i] == c
}

/// `str::split(sep)`: the pieces between occurrences of `sep`, in order.
pub open spec fn split_seq(s: Seq<char>, sep: char) -> Seq<Seq<char>>
    decreases s.len(),
{
    if s.len() == 0 {
        seq![Seq::empty()]
    } else {
        let rest = split_seq(s.drop_last(), sep);
        if s.last() == sep {
            rest.push(Seq::empty())
        } else {
            rest.update(rest.len() - 1, rest.last().push(s.last()))
        }
    }
}

pub proof fn lemma_split_nonempty(s: Seq<char>, sep: char)
    ensures
        split_seq(s, sep).len() >= 1,
    decreases s.len(),
{
    if s.len() > 0 {
        lemma_split_nonempty(s.drop_last(), sep);
    }
}


/// The pieces of `v` between occurrences of `sep` (`str::split`).
pub fn split_chars(v: &[char], sep: char) -> (r: Vec<Vec<char>>)
    ensures
        seqs(r@) == split_seq(v@, sep),
{
    let mut r: Vec<Vec<char>> = Vec::new();
    let mut cur: Vec<char> = Vec::new();
    let mut i: usize = 0;
    while i < v.len()
        invariant
            i <= v@.len(),
            seqs(r@).push(cur@) == split_seq(v@.take(i as int), sep),
        decreases v@.len() - i,
    {
        let c = v[i];
        let ghost old_r = seqs(r@);
        let ghost old_cur = cur@;
        assert(v@.take(i + 1).drop_last() =~= v@.take(i as int));
        assert(v@.take(i + 1).last() == c);
        if c == sep {
            r.push(cur);
            assert(seqs(r@) =~= old_r.push(old_cur));
            cur = Vec::new();
            assert(seqs(r@).push(cur@) =~= old_r.push(old_cur).push(Seq::empty()));
        } else {
            cur.push(c);
            assert(seqs(r@) =~= old_r);
            assert(seqs(r@).push(cur@) =~= old_r.push(old_cur).update(
                old_r.len() as int,
                old_cur.push(c),
            ));
        }
        i = i + 1;
    }
    assert(v@.take(v@.len() as int) =~= v@);
    let ghost old_r = seqs(r@);
    let ghost old_cur = cur@;
    r.push(cur);
    assert(seqs(r@) =~= old_r.push(old_cur));
    r
}

/// Joins `parts` with `sep` between consecutive ones (`[..].join(sep)`).
pub open spec fn join_seq(parts: Seq<Seq<char>>, sep: Seq<char>) -> Seq<char>
    decreases parts.len(),
{
    if parts.len() == 0 {
        Seq::empty()
    } else if parts.len() == 1 {
        parts[0]
    } else {
        join_seq(parts.drop_last(), sep) + sep + parts.last()
    }
}

pub fn join_chars(parts: &Vec<Vec<char>>, sep: &[char]) -> (r: Vec<char>)
    ensures
        r@ == join_seq(seqs(parts@), sep@),
{
    let mut r: Vec<char> = Vec::new();
    let mut i: usize = 0;
    while i < parts.len()
        invariant
            i <= parts@.len(),
            r@ == join_seq(seqs(parts@).take(i as int), sep@),
        decreases parts@.len() - i,
    {
        assert(seqs(parts@).take(i + 1).drop_last() =~= seqs(parts@).take(i as int));
        if i > 0 {
            append_chars(&mut r, sep);
        }
        append_chars(&mut r, parts[i].as_slice());
        i = i + 1;
        assert(r@ =~= join_seq(seqs(parts@).take(i as int), sep@));
    }
    assert(seqs(parts@).take(parts@.len() as int) =~= seqs(parts@));
    r
}

/// Appends `src` to `dst`.
pub fn append_chars(dst: &mut Vec<char>, src: &[char])
    ensures
        final(dst)@ == old(dst)@ + src@,
{
    let mut i: usize = 0;
    while i < src.len()
        invariant
            i <= src@.len(),
            dst@ == old(dst)@ + src@.take(i as int),
        decreases src@.len() - i,
    {
        dst.push(src[i]);
        i = i + 1;
        assert(dst@ =~= old(dst)@ + src@.take(i as int));
    }
    assert(src@.take(src@.len() as int) =~= src@);
}

/// Appends the characters of `src` to `dst`.
pub fn append_str(dst: &mut Vec<char>, src: &str)
    ensures
        final(dst)@ == old(dst)@ + src@,
{
    let v = chars_of(src);
    append_chars(dst, v.as_slice());
}

/// `p` occurs in `s` starting at position `i`.
pub open spec fn occurs_at(s: Seq<char>, p: Seq<char>, i: int) -> bool {
    0 <= i && i + p.len() <= s.len() && s.subrange(i, i + p.len()) == p
}

/// `str::contains` for a string pattern.
pub open spec fn contains_seq(s: Seq<char>, p: Seq<char>) -> bool {
    exists|i: int| occurs_at(s, p, i)
}

pub fn contains_chars(v: &[char], p: &[char]) -> (r: bool)
    ensures
        r == contains_seq(v@, p@),
{
    if p.len() > v.len() {
        return false;
    }
    let last = v.len() - p.len();
    let mut i: usize = 0;
    loop
        invariant
            p@.len() <= v@.len(),
            last == v@.len() - p@.len(),
            i <= last,
            forall|j: int| 0 <= j < i ==> !occurs_at(v@, p@, j),
        decreases last - i,
    {
        let w = sub_chars(v, i, v.len() - (last - i));
        if chars_eq(w.as_slice(), p) {
            assert(occurs_at(v@, p@, i as int));
            return true;
        }
        if i == last {
            assert forall|j: int| !occurs_at(v@, p@, j) by {
                if 0 <= j && j <= i {
                }
            }
            return false;
        }
        i = i + 1;
    }
}

pub fn contains_str(v: &[char], p: &str) -> (r: bool)
    ensures
        r == contains_seq(v@, p@),
{
    let pv = chars_of(p);
    contains_chars(v, pv.as_slice())
}

/// The order of `str` values (`Ord for str`): lexicographic by character.
pub open spec fn lex_lt(a: Seq<char>, b: Seq<char>) -> bool
    decreases a.len(),
{
    if a.len() == 0 {
        b.len() > 0
    } else if b.len() == 0 {
        false
    } else if a[0] != b[0] {
        a[0] < b[0]
    } else {
        lex_lt(a.drop_first(), b.drop_first())
    }
}

pub proof fn lemma_lex_irreflexive(a: Seq<char>)
    ensures
        !lex_lt(a, a),
    decreases a.len(),
{
    if a.len() > 0 {
        lemma_lex_irreflexive(a.drop_first());
    }
}

pub proof fn lemma_lex_total(a: Seq<char>, b: Seq<char>)
    ensures
        a == b || lex_lt(a, b) || lex_lt(b, a),
        !(lex_lt(a, b) && lex_lt(b, a)),
    decreases a.len(),
{
    if a.len() > 0 && b.len() > 0 {
        if a[0] == b[0] {
            lemma_lex_total(a.drop_first(), b.drop_first());
            if a.drop_first() == b.drop_first() {
                assert(a =~= seq![a[0]] + a.drop_first());
                assert(b =~= seq![b[0]] + b.drop_first());
            }
        }
    } else if a.len() == 0 && b.len() == 0 {
        assert(a =~= b);
    }
}

pub proof fn lemma_lex_transitive(a: Seq<char>, b: Seq<char>, c: Seq<char>)
    requires
        lex_lt(a, b),
        lex_lt(b, c),
    ensures
        lex_lt(a, c),
    decreases a.len(),
{
    if a.len() > 0 && b.len() > 0 && c.len() > 0 {
        if a[0] == b[0] && b[0] == c[0] {
            lemma_lex_transitive(a.drop_first(), b.drop_first(), c.drop_first());
        }
    }
}

/// Whether `a` orders before `b` as strings.
pub fn lex_less(a: &[char], b: &[char]) -> (r: bool)
    ensures
        r == lex_lt(a@, b@),
{
    let mut i: usize = 0;
    assert(a@.skip(0) =~= a@);
    assert(b@.skip(0) =~= b@);
    while i < a.len() && i < b.len() && a[i] == b[i]
        invariant
            i <= a@.len(),
            i <= b@.len(),
            lex_lt(a@, b@) == lex_lt(a@.skip(i as int), b@.skip(i as int)),
        decreases a@.len() - i,
    {
        assert(a@.skip(i as int).drop_first() =~= a@.skip(i + 1));
        assert(b@.skip(i as int).drop_first() =~= b@.skip(i + 1));
        i = i + 1;
    }
    if i == a.len() {
        i < b.len()
    } else if i == b.len() {
        false
    } else {
        a[i] < b[i]
    }
}

/// The sequence is strictly increasing as strings (sorted, without duplicates).
pub open spec fn sorted_strict(s: Seq<Seq<char>>) -> bool {
    forall|i: int, j: int| 0 <= i < j < s.len() ==> lex_lt(s[i], s[j])
}

/// Inserts `x` into a strictly increasing vector, keeping it so; does nothing when present.
pub fn insert_sorted(v: &mut Vec<Vec<char>>, x: Vec<char>)
    requires
        sorted_strict(seqs(old(v)@)),
    ensures
        sorted_strict(seqs(final(v)@)),
        seqs(final(v)@).to_set() == seqs(old(v)@).to_set().insert(x@),
{
    let mut k: usize = 0;
    while k < v.len() && lex_less(v[k].as_slice(), x.as_slice())
        invariant
            k <= v@.len(),
            forall|i: int| 0 <= i < k ==> lex_lt(#[trigger] seqs(v@)[i], x@),
        decreases v@.len() - k,
    {
        k = k + 1;
    }
    let ghost old_s = seqs(v@);
    if k < v.len() && chars_eq(v[k].as_slice(), x.as_slice()) {
        assert(old_s.to_set().insert(x@) =~= old_s.to_set()) by {
            assert(old_s[k as int] == x@);
        }
        return;
    }
    proof {
        if k < old_s.len() {
            lemma_lex_total(old_s[k as int], x@);
        }
    }
    v.insert(k, x);
    let ghost new_s = seqs(v@);
    assert(new_s =~= old_s.insert(k as int, x@));
    assert forall|i: int, j: int| 0 <= i < j < new_s.len() implies lex_lt(new_s[i], new_s[j]) by {
        if j < k {
        } else if j == k {
        } else if i < k {
            assert(new_s[j] == old_s[j - 1]);
            if i < k {
                assert(lex_lt(old_s[i], x@));
                if j - 1 > k as int {
                    lemma_lex_transitive(x@, old_s[k as int], old_s[j - 1]);
                }
                lemma_lex_transitive(old_s[i], x@, old_s[j - 1]);
            }
        } else if i == k {
            if j - 1 > k as int {
                lemma_lex_transitive(x@, old_s[k as int], old_s[j - 1]);
            }
        } else {
        }
    }
    assert(new_s.to_set() =~= old_s.to_set().insert(x@)) by {
        assert forall|e: Seq<char>| new_s.to_set().contains(e) implies old_s.to_set().insert(
            x@,
        ).contains(e) by {
            let i = choose|i: int| 0 <= i < new_s.len() && new_s[i] == e;
            if i < k {
                assert(old_s[i] == e);
            } else if i > k {
                assert(old_s[i - 1] == e);
            }
        }
        assert forall|e: Seq<char>| old_s.to_set().insert(x@).contains(e) implies new_s.to_set().contains(
            e,
        ) by {
            if e == x@ {
                assert(new_s[k as int] == e);
            } else {
                let i = choose|i: int| 0 <= i < old_s.len() && old_s[i] == e;
                if i < k {
                    assert(new_s[i] == e);
                } else {
                    assert(new_s[i + 1] == e);
                }
            }
        }
    }
}

/// Sorts and removes duplicates (as collecting into a `BTreeSet` or `sort` then `dedup` does).
pub fn sort_dedup(items: Vec<Vec<char>>) -> (r: Vec<Vec<char>>)
    ensures
        sorted_strict(seqs(r@)),
        seqs(r@).to_set() == seqs(items@).to_set(),
{
    let mut r: Vec<Vec<char>> = Vec::new();
    let mut i: usize = 0;
    assert(seqs(items@).take(0).to_set() =~= Set::<Seq<char>>::empty());
    assert(seqs(r@).to_set() =~= Set::<Seq<char>>::empty());
    while i < items.len()
        invariant
            i <= items@.len(),
            sorted_strict(seqs(r@)),
            seqs(r@).to_set() == seqs(items@).take(i as int).to_set(),
        decreases items@.len() - i,
    {
        let x = items[i].clone();
        insert_sorted(&mut r, x);
        proof {
            let t = seqs(items@).take(i + 1);
            assert(t =~= seqs(items@).take(i as int).push(items@[i as int]@));
            seqs(items@).take(i as int).lemma_push_to_set_commute(items@[i as int]@);
        }
        i = i + 1;
    }
    assert(seqs(items@).take(items@.len() as int) =~= seqs(items@));
    r
}

/// `str::trim_end`.
pub fn trim_end_chars(v: &[char]) -> (r: Vec<char>)
    ensures
        r@ == trim_end_seq(v@),
{
    let mut j: usize = v.len();
    assert(v@.subrange(0, v@.len() as int) =~= v@);
    while j > 0 && is_whitespace(v[j - 1])
        invariant
            j <= v@.len(),
            trim_end_seq(v@) == trim_end_seq(v@.subrange(0, j as int)),
        decreases j,
    {
        assert(v@.subrange(0, j as int).drop_last() =~= v@.subrange(0, j - 1));
        j = j - 1;
    }
    sub_chars(v, 0, j)
}

pub proof fn lemma_trim_start_shape(s: Seq<char>)
    ensures
        trim_start_seq(s).len() == 0 || !is_ws(trim_start_seq(s)[0]),
        trim_start_seq(s).len() <= s.len(),
    decreases s.len(),
{
    if s.len() > 0 && is_ws(s[0]) {
        lemma_trim_start_shape(s.drop_first());
    }
}

pub proof fn lemma_trim_end_shape(s: Seq<char>)
    ensures
        trim_end_seq(s).len() == 0 || !is_ws(trim_end_seq(s).last()),
        trim_end_seq(s).len() <= s.len(),
        trim_end_seq(s) == s.take(trim_end_seq(s).len() as int),
    decreases s.len(),
{
    if s.len() > 0 && is_ws(s.last()) {
        lemma_trim_end_shape(s.drop_last());
        let t = trim_end_seq(s.drop_last());
        assert(s.drop_last().take(t.len() as int) =~= s.take(t.len() as int));
    } else {
        assert(s.take(s.len() as int) =~= s);
    }
}

/// Trimming twice is trimming once.
pub proof fn lemma_trim_idempotent(s: Seq<char>)
    ensures
        trim_seq(trim_seq(s)) == trim_seq(s),
        trim_seq(s).len() <= s.len(),
        trim_seq(s).len() == 0 || (!is_ws(trim_seq(s)[0]) && !is_ws(trim_seq(s).last())),
{
    let a = trim_start_seq(s);
    let u = trim_end_seq(a);
    lemma_trim_start_shape(s);
    lemma_trim_end_shape(a);
    if u.len() > 0 {
        assert(u[0] == a[0]);
    }
    assert(trim_start_seq(u) == u);
    lemma_trim_end_shape(u);
    assert(trim_end_seq(u) == u);
}

/// Text without surrounding whitespace is its own trim.
pub proof fn lemma_trim_noop(s: Seq<char>)
    requires
        s.len() == 0 || (!is_ws(s[0]) && !is_ws(s.last())),
    ensures
        trim_seq(s) == s,
{
    assert(trim_start_seq(s) == s);
    assert(trim_end_seq(s) == s);
}

/// Lowercasing text that has no ASCII upper-case letter changes nothing.
pub proof fn lemma_lower_noop(s: Seq<char>)
    requires
        forall|i: int| 0 <= i < s.len() ==> !('A' <= #[trigger] s[i] <= 'Z'),
    ensures
        lower_seq(s) == s,
{
    assert(lower_seq(s) =~= s);
}

} // verus!
