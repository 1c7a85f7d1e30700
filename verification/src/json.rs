//! Hand-written JSON text: escaping and the small objects the store records.

use vstd::prelude::*;

use crate::num::{dec_int, hex_digits, i64_to_dec, u64_hex16};
use crate::text::{
    append_chars, append_str, char_is_control, chars_of, chars_eq_str, contains_str, has_prefix,
    is_control, lemma_trim_idempotent, string_of, sub_chars, trim, trim_end_chars, trim_end_seq,
    trim_seq, contains_seq,
};

verus! {

broadcast use vstd::string::group_string_axioms;

/// How `json_escape` writes one character.
pub open spec fn escape_char(c: char) -> Seq<char> {
    if c == '"' {
        seq!['\\', '"']
    } else if c == '\\' {
        seq!['\\', '\\']
    } else if c == '\n' {
        seq!['\\', 'n']
    } else if c == '\r' {
        seq!['\\', 'r']
    } else if c == '\t' {
        seq!['\\', 't']
    } else if is_control(c) {
        seq!['\\', 'u'] + hex_digits(c as nat, 4)
    } else {
        seq![c]
    }
}

/// The text of `s` escaped for use inside a JSON string literal.
pub open spec fn json_escape_seq(s: Seq<char>) -> Seq<char>
    decreases s.len(),
{
    if s.len() == 0 {
        Seq::empty()
    } else {
        json_escape_seq(s.drop_last()) + escape_char(s.last())
    }
}

proof fn lemma_hex_digits_printable(h: nat, n: nat)
    ensures
        forall|i: int| 0 <= i < hex_digits(h, n).len() ==> !is_control(#[trigger] hex_digits(h, n)[i]),
        hex_digits(h, n).len() == n,
    decreases n,
{
    if n > 0 {
        lemma_hex_digits_printable(h / 16, (n - 1) as nat);
        let t = seq!['0', '1', '2', '3', '4', '5', '6', '7', '8', '9', 'a', 'b', 'c', 'd', 'e', 'f'];
        assert(forall|d: int| 0 <= d < 16 ==> !is_control(#[trigger] t[d]));
        assert(crate::num::hex_char(h % 16) == t[(h % 16) as int]);
    }
}

/// Escaped text holds no control character: each one is written as an escape sequence.
pub proof fn lemma_json_escape_no_controls(s: Seq<char>)
    ensures
        forall|i: int| 0 <= i < json_escape_seq(s).len() ==> !is_control(#[trigger] json_escape_seq(s)[i]),
    decreases s.len(),
{
    if s.len() > 0 {
        lemma_json_escape_no_controls(s.drop_last());
        let c = s.last();
        lemma_hex_digits_printable(c as nat, 4);
        let e = escape_char(c);
        assert(forall|i: int| 0 <= i < e.len() ==> !is_control(#[trigger] e[i]));
        let prev = json_escape_seq(s.drop_last());
        assert forall|i: int| 0 <= i < json_escape_seq(s).len() implies !is_control(
            #[trigger] json_escape_seq(s)[i],
        ) by {
            if i < prev.len() {
                assert(json_escape_seq(s)[i] == prev[i]);
            } else {
                assert(json_escape_seq(s)[i] == e[i - prev.len()]);
            }
        }
    }
}

/// Appends the escape of `c` to `out`.
fn push_escaped(out: &mut Vec<char>, c: char)
    ensures
        final(out)@ == old(out)@ + escape_char(c),
{
    if c == '"' {
        out.push('\\');
        out.push('"');
    } else if c == '\\' {
        out.push('\\');
        out.push('\\');
    } else if c == '\n' {
        out.push('\\');
        out.push('n');
    } else if c == '\r' {
        out.push('\\');
        out.push('r');
    } else if c == '\t' {
        out.push('\\');
        out.push('t');
    } else if char_is_control(c) {
        out.push('\\');
        out.push('u');
        let h = u64_hex16(c as u32 as u64);
        proof {
            lemma_hex_len((c as u32 as u64) as nat, 16);
            lemma_hex_tail((c as u32 as u64) as nat);
        }
        let four = sub_chars(h.as_slice(), 12, 16);
        append_chars(out, four.as_slice());
    } else {
        out.push(c);
    }
    proof {
        if !(c == '"' || c == '\\' || c == '\n' || c == '\r' || c == '\t' || is_control(c)) {
            assert(final(out)@ =~= old(out)@ + escape_char(c));
        }
    }
}

/// The last four of sixteen hexadecimal digits are the four-digit form.
proof fn lemma_hex_tail(h: nat)
    ensures
        hex_digits(h, 16).subrange(12, 16) == hex_digits(h, 4),
{
    lemma_hex_split(h, 12, 4);
}

/// Splitting `n + m` digits into the high `n` and the low `m`.
proof fn lemma_hex_split(h: nat, n: nat, m: nat)
    ensures
        hex_digits(h, n + m).subrange(n as int, (n + m) as int) == hex_digits(h, m),
        hex_digits(h, n + m).len() == n + m,
    decreases m,
{
    lemma_hex_len(h, n + m);
    if m == 0 {
        assert(hex_digits(h, n + m).subrange(n as int, n as int) =~= Seq::<char>::empty());
    } else {
        lemma_hex_split(h / 16, n, (m - 1) as nat);
        assert((n + m - 1) as nat == n + (m - 1) as nat);
        let big = hex_digits(h, n + m);
        assert(big == hex_digits(h / 16, (n + m - 1) as nat).push(
            crate::num::hex_char(h % 16),
        ));
        assert(big.subrange(n as int, (n + m) as int) =~= hex_digits(h / 16, (m - 1) as nat).push(
            crate::num::hex_char(h % 16),
        ));
    }
}

proof fn lemma_hex_len(h: nat, n: nat)
    ensures
        hex_digits(h, n).len() == n,
    decreases n,
{
    if n > 0 {
        lemma_hex_len(h / 16, (n - 1) as nat);
    }
}

/// `json_escape`: escapes quotes, backslashes and control characters.
pub fn json_escape(value: &str) -> (r: String)
    ensures
        r@ == json_escape_seq(value@),
{
    let v = chars_of(value);
    let mut out: Vec<char> = Vec::new();
    let mut i: usize = 0;
    while i < v.len()
        invariant
            i <= v@.len(),
            out@ == json_escape_seq(v@.take(i as int)),
        decreases v@.len() - i,
    {
        assert(v@.take(i + 1).drop_last() =~= v@.take(i as int));
        push_escaped(&mut out, v[i]);
        i = i + 1;
    }
    assert(v@.take(v@.len() as int) =~= v@);
    string_of(out.as_slice())
}

/// Appends the escape of `value` to `out`.
pub fn push_json_escaped(out: &mut Vec<char>, value: &str)
    ensures
        final(out)@ == old(out)@ + json_escape_seq(value@),
{
    let e = json_escape(value);
    append_str(out, e.as_str());
}

/// Text that starts with `{` and ends with `}` once trimmed.
pub open spec fn looks_like_object_seq(s: Seq<char>) -> bool {
    let t = trim_seq(s);
    t.len() > 0 && t[0] == '{' && t.last() == '}'
}

/// Whether `value`, trimmed, starts with `{` and ends with `}`.
pub fn looks_like_json_object(value: &str) -> (r: bool)
    ensures
        r == looks_like_object_seq(value@),
{
    let v = chars_of(value);
    let t = trim(v.as_slice());
    t.len() > 0 && t[0] == '{' && t[t.len() - 1] == '}'
}

/// `{"from":"<branch>","from_seq":<seq>,"from_ts_ms":<ts>}`.
pub open spec fn merge_payload_seq(from_branch: Seq<char>, from_seq: int, from_ts_ms: int) -> Seq<char> {
    "{\"from\":\""@ + json_escape_seq(from_branch) + "\",\"from_seq\":"@ + dec_int(from_seq)
        + ",\"from_ts_ms\":"@ + dec_int(from_ts_ms) + "}"@
}

/// The meta JSON of a card merged from another branch: its own meta with a `_merge` record.
pub open spec fn merge_meta_seq(
    existing: Option<Seq<char>>,
    from_branch: Seq<char>,
    from_seq: int,
    from_ts_ms: int,
) -> Seq<char> {
    let payload = merge_payload_seq(from_branch, from_seq, from_ts_ms);
    match existing {
        None => "{\"_merge\":"@ + payload + "}"@,
        Some(raw) => {
            let t = trim_seq(raw);
            if looks_like_object_seq(t) {
                if t == "{}"@ {
                    "{\"_merge\":"@ + payload + "}"@
                } else if contains_seq(t, "\"_merge\""@) {
                    "{\"_merge\":"@ + payload + ",\"_meta\":"@ + t + "}"@
                } else {
                    let body = t.drop_last();
                    let e = trim_end_seq(body);
                    let sep: Seq<char> = if e.len() > 0 && e.last() == '{' {
                        Seq::empty()
                    } else {
                        seq![',']
                    };
                    body + sep + "\"_merge\":"@ + payload + "}"@
                }
            } else {
                "{\"_merge\":"@ + payload + ",\"_meta_raw\":\""@ + json_escape_seq(t) + "\"}"@
            }
        },
    }
}

pub fn merge_meta_json(
    existing_meta_json: Option<&str>,
    from_branch: &str,
    from_seq: i64,
    from_ts_ms: i64,
) -> (r: String)
    ensures
        r@ == merge_meta_seq(
            match existing_meta_json {
                Some(s) => Some(s@),
                None => None,
            },
            from_branch@,
            from_seq as int,
            from_ts_ms as int,
        ),
{
    let mut payload: Vec<char> = Vec::new();
    append_str(&mut payload, "{\"from\":\"");
    push_json_escaped(&mut payload, from_branch);
    append_str(&mut payload, "\",\"from_seq\":");
    let d1 = i64_to_dec(from_seq);
    append_chars(&mut payload, d1.as_slice());
    append_str(&mut payload, ",\"from_ts_ms\":");
    let d2 = i64_to_dec(from_ts_ms);
    append_chars(&mut payload, d2.as_slice());
    append_str(&mut payload, "}");
    assert(payload@ =~= merge_payload_seq(from_branch@, from_seq as int, from_ts_ms as int));
    let mut out: Vec<char> = Vec::new();
    match existing_meta_json {
        None => {
            append_str(&mut out, "{\"_merge\":");
            append_chars(&mut out, payload.as_slice());
            append_str(&mut out, "}");
        },
        Some(raw) => {
            let rv = chars_of(raw);
            let t = trim(rv.as_slice());
            let ts = string_of(t.as_slice());
            if looks_like_json_object(ts.as_str()) {
                if chars_eq_str(t.as_slice(), "{}") {
                    append_str(&mut out, "{\"_merge\":");
                    append_chars(&mut out, payload.as_slice());
                    append_str(&mut out, "}");
                } else if contains_str(t.as_slice(), "\"_merge\"") {
                    append_str(&mut out, "{\"_merge\":");
                    append_chars(&mut out, payload.as_slice());
                    append_str(&mut out, ",\"_meta\":");
                    append_chars(&mut out, t.as_slice());
                    append_str(&mut out, "}");
                } else {
                    proof {
                        lemma_trim_idempotent(t@);
                    }
                    let body = sub_chars(t.as_slice(), 0, t.len() - 1);
                    assert(body@ =~= t@.drop_last());
                    let e = trim_end_chars(body.as_slice());
                    append_chars(&mut out, body.as_slice());
                    if !(e.len() > 0 && e[e.len() - 1] == '{') {
                        out.push(',');
                    }
                    append_str(&mut out, "\"_merge\":");
                    append_chars(&mut out, payload.as_slice());
                    append_str(&mut out, "}");
                }
            } else {
                append_str(&mut out, "{\"_merge\":");
                append_chars(&mut out, payload.as_slice());
                append_str(&mut out, ",\"_meta_raw\":\"");
                push_json_escaped(&mut out, ts.as_str());
                append_str(&mut out, "\"}");
            }
        },
    }
    proof {
        let ex = match existing_meta_json {
            Some(s) => Some(s@),
            None => None,
        };
        assert(out@ =~= merge_meta_seq(ex, from_branch@, from_seq as int, from_ts_ms as int));
    }
    string_of(out.as_slice())
}

} // verus!
