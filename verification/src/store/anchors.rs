//! Anchors of the meaning map: id, kind and status normalization, titles and stored lists.

use vstd::prelude::*;

use super::error::{list_result_matches, result_matches, StoreError};
use crate::text::{
    ascii_upper, chars_eq_str, chars_of, has_prefix, is_ascii_digit, is_ascii_lower, join_chars,
    join_seq, lower_seq, seqs, split_chars, split_seq, string_of, strs, sub_chars, take_chars,
    take_chars_string, to_ascii_lower, to_ascii_upper_char, trim, trim_seq, trim_str,
    utf8_len, utf8_len_exceeds,
};

verus! {

broadcast use vstd::string::group_string_axioms;

pub const MAP_ANCHOR_ID_PREFIX: &'static str = "a:";

pub const MAX_ANCHOR_SLUG_LEN: usize = 64;

pub const MAX_ANCHOR_TITLE_LEN: usize = 120;

/// A character allowed after the first in an anchor slug.
pub open spec fn is_slug_char(c: char) -> bool {
    is_ascii_lower(c) || is_ascii_digit(c) || c == '-'
}

/// A character allowed first in an anchor slug.
pub open spec fn is_slug_start(c: char) -> bool {
    is_ascii_lower(c) || is_ascii_digit(c)
}

/// The canonical anchor id for `raw`: trimmed, lowercased, `a:` and a slug of `[a-z0-9-]`
/// starting with `[a-z0-9]`, at most 64 bytes; else the message of the first rule broken.
pub open spec fn anchor_id_spec(raw: Seq<char>) -> Result<Seq<char>, Seq<char>> {
    let t = trim_seq(raw);
    let lowered = lower_seq(t);
    let slug = lowered.skip(2);
    if t.len() == 0 {
        Err("anchor.id must not be empty"@)
    } else if !has_prefix(lowered, "a:"@) {
        Err("anchor.id must start with a:"@)
    } else if slug.len() == 0 {
        Err("anchor.id slug must not be empty"@)
    } else if utf8_len(slug) > MAX_ANCHOR_SLUG_LEN {
        Err("anchor.id slug is too long"@)
    } else if !is_slug_start(slug[0]) {
        Err("anchor.id slug must start with [a-z0-9]"@)
    } else if exists|i: int| 1 <= i < slug.len() && !is_slug_char(#[trigger] slug[i]) {
        Err("anchor.id slug contains invalid characters"@)
    } else {
        Ok("a:"@ + slug)
    }
}

#[verifier::loop_isolation(false)]
pub fn normalize_anchor_id(raw: &str) -> (r: Result<String, StoreError>)
    ensures
        result_matches(r, anchor_id_spec(raw@)),
{
    proof {
        reveal_strlit("a:");
    }
    let t = trim_str(raw);
    if t.len() == 0 {
        return Err(StoreError::InvalidInput("anchor.id must not be empty"));
    }
    let lowered = to_ascii_lower(t.as_slice());
    if !crate::text::starts_with_str(lowered.as_slice(), MAP_ANCHOR_ID_PREFIX) {
        return Err(StoreError::InvalidInput("anchor.id must start with a:"));
    }
    let slug = sub_chars(lowered.as_slice(), 2, lowered.len());
    assert(slug@ =~= lowered@.skip(2));
    if slug.len() == 0 {
        return Err(StoreError::InvalidInput("anchor.id slug must not be empty"));
    }
    if utf8_len_exceeds(slug.as_slice(), MAX_ANCHOR_SLUG_LEN) {
        return Err(StoreError::InvalidInput("anchor.id slug is too long"));
    }
    let first = slug[0];
    if !(('a' <= first && first <= 'z') || ('0' <= first && first <= '9')) {
        return Err(StoreError::InvalidInput("anchor.id slug must start with [a-z0-9]"));
    }
    let mut i: usize = 1;
    while i < slug.len()
        invariant
            1 <= i <= slug@.len(),
            forall|k: int| 1 <= k < i ==> is_slug_char(#[trigger] slug@[k]),
        decreases slug@.len() - i,
    {
        let c = slug[i];
        if !(('a' <= c && c <= 'z') || ('0' <= c && c <= '9') || c == '-') {
            assert(!is_slug_char(slug@[i as int]));
            assert(exists|k: int| 1 <= k < slug@.len() && !is_slug_char(#[trigger] slug@[k]));
            return Err(StoreError::InvalidInput("anchor.id slug contains invalid characters"));
        }
        i = i + 1;
    }
    let mut out: Vec<char> = Vec::new();
    crate::text::append_str(&mut out, MAP_ANCHOR_ID_PREFIX);
    crate::text::append_chars(&mut out, slug.as_slice());
    Ok(string_of(out.as_slice()))
}

/// A word of a title: its first character in upper case.
pub open spec fn capitalize(w: Seq<char>) -> Seq<char> {
    if w.len() == 0 {
        Seq::empty()
    } else {
        seq![ascii_upper(w[0])] + w.drop_first()
    }
}

/// The capitalized pieces that are not blank, in order.
pub open spec fn title_words(parts: Seq<Seq<char>>) -> Seq<Seq<char>>
    decreases parts.len(),
{
    if parts.len() == 0 {
        Seq::empty()
    } else {
        let rest = title_words(parts.drop_last());
        if trim_seq(parts.last()).len() > 0 {
            rest.push(capitalize(parts.last()))
        } else {
            rest
        }
    }
}

/// The title given to an anchor created from its id: the slug's words capitalized and joined
/// by spaces (or `Anchor`), at most 120 characters.
pub open spec fn anchor_title_spec(anchor_id: Seq<char>) -> Seq<char> {
    let raw = trim_seq(anchor_id);
    let slug = trim_seq(
        if has_prefix(raw, "a:"@) {
            raw.skip(2)
        } else {
            raw
        },
    );
    let words = title_words(split_seq(slug, '-'));
    let title = if words.len() == 0 {
        "Anchor"@
    } else {
        join_seq(words, " "@)
    };
    take_chars(title, MAX_ANCHOR_TITLE_LEN as nat)
}

pub fn title_from_anchor_id(anchor_id: &str) -> (r: String)
    ensures
        r@ == anchor_title_spec(anchor_id@),
{
    proof {
        reveal_strlit("a:");
        reveal_strlit(" ");
    }
    let raw = trim_str(anchor_id);
    let stripped = if crate::text::starts_with_str(raw.as_slice(), MAP_ANCHOR_ID_PREFIX) {
        let s = sub_chars(raw.as_slice(), 2, raw.len());
        assert(s@ =~= raw@.skip(2));
        s
    } else {
        raw
    };
    let slug = trim(stripped.as_slice());
    let parts = split_chars(slug.as_slice(), '-');
    let mut words: Vec<Vec<char>> = Vec::new();
    let mut i: usize = 0;
    while i < parts.len()
        invariant
            i <= parts@.len(),
            seqs(words@) == title_words(seqs(parts@).take(i as int)),
        decreases parts@.len() - i,
    {
        assert(seqs(parts@).take(i + 1).drop_last() =~= seqs(parts@).take(i as int));
        let w = &parts[i];
        let tw = trim(w.as_slice());
        if tw.len() > 0 {
            let mut cap: Vec<char> = Vec::new();
            cap.push(to_ascii_upper_char(w[0]));
            let tail = sub_chars(w.as_slice(), 1, w.len());
            crate::text::append_chars(&mut cap, tail.as_slice());
            proof {
                crate::text::lemma_trim_idempotent(w@);
            }
            assert(cap@ =~= capitalize(w@));
            let ghost before = seqs(words@);
            words.push(cap);
            assert(seqs(words@) =~= before.push(capitalize(w@)));
        }
        i = i + 1;
    }
    assert(seqs(parts@).take(parts@.len() as int) =~= seqs(parts@));
    let title = if words.len() == 0 {
        chars_of("Anchor")
    } else {
        let sp = chars_of(" ");
        join_chars(&words, sp.as_slice())
    };
    take_chars_string(title.as_slice(), MAX_ANCHOR_TITLE_LEN)
}

/// The canonical anchor kind: one of the six kinds, trimmed and lowercased.
pub open spec fn anchor_kind_spec(raw: Seq<char>) -> Result<Seq<char>, Seq<char>> {
    let t = trim_seq(raw);
    let k = lower_seq(t);
    if t.len() == 0 {
        Err("anchor.kind must not be empty"@)
    } else if k == "boundary"@ || k == "component"@ || k == "contract"@ || k == "data"@ || k
        == "test-surface"@ || k == "ops"@ {
        Ok(k)
    } else {
        Err("anchor.kind is invalid"@)
    }
}

pub fn normalize_anchor_kind(raw: &str) -> (r: Result<String, StoreError>)
    ensures
        result_matches(r, anchor_kind_spec(raw@)),
{
    let t = trim_str(raw);
    if t.len() == 0 {
        return Err(StoreError::InvalidInput("anchor.kind must not be empty"));
    }
    let k = to_ascii_lower(t.as_slice());
    let ks = k.as_slice();
    if chars_eq_str(ks, "boundary") || chars_eq_str(ks, "component") || chars_eq_str(ks, "contract")
        || chars_eq_str(ks, "data") || chars_eq_str(ks, "test-surface") || chars_eq_str(ks, "ops") {
        Ok(string_of(ks))
    } else {
        Err(StoreError::InvalidInput("anchor.kind is invalid"))
    }
}

/// The canonical anchor status: `active` or `deprecated`, trimmed and lowercased.
pub open spec fn anchor_status_spec(raw: Seq<char>) -> Result<Seq<char>, Seq<char>> {
    let t = trim_seq(raw);
    let s = lower_seq(t);
    if t.len() == 0 {
        Err("anchor.status must not be empty"@)
    } else if s == "active"@ || s == "deprecated"@ {
        Ok(s)
    } else {
        Err("anchor.status is invalid"@)
    }
}

pub fn normalize_anchor_status(raw: &str) -> (r: Result<String, StoreError>)
    ensures
        result_matches(r, anchor_status_spec(raw@)),
{
    let t = trim_str(raw);
    if t.len() == 0 {
        return Err(StoreError::InvalidInput("anchor.status must not be empty"));
    }
    let s = to_ascii_lower(t.as_slice());
    if chars_eq_str(s.as_slice(), "active") || chars_eq_str(s.as_slice(), "deprecated") {
        Ok(string_of(s.as_slice()))
    } else {
        Err(StoreError::InvalidInput("anchor.status is invalid"))
    }
}

/// Trimmed, non-empty items in first-seen order without repeats; the first trimmed item over
/// `max_item_len` bytes is an error.
pub open spec fn string_list_spec(items: Seq<Seq<char>>, max_item_len: nat, too_long: Seq<char>) -> Result<
    Seq<Seq<char>>,
    Seq<char>,
>
    decreases items.len(),
{
    if items.len() == 0 {
        Ok(Seq::empty())
    } else {
        match string_list_spec(items.drop_last(), max_item_len, too_long) {
            Err(e) => Err(e),
            Ok(out) => {
                let t = trim_seq(items.last());
                if t.len() == 0 {
                    Ok(out)
                } else if utf8_len(t) > max_item_len {
                    Err(too_long)
                } else if out.contains(t) {
                    Ok(out)
                } else {
                    Ok(out.push(t))
                }
            },
        }
    }
}

/// Whether `v` is among the character sequences of `out`.
pub fn contains_chars_in(out: &Vec<Vec<char>>, v: &[char]) -> (r: bool)
    ensures
        r == seqs(out@).contains(v@),
{
    let mut i: usize = 0;
    while i < out.len()
        invariant
            i <= out@.len(),
            forall|k: int| 0 <= k < i ==> seqs(out@)[k] != v@,
        decreases out@.len() - i,
    {
        if crate::text::chars_eq(out[i].as_slice(), v) {
            assert(seqs(out@)[i as int] == v@);
            return true;
        }
        i = i + 1;
    }
    false
}

/// Turns character vectors into strings.
pub fn strings_of(v: &Vec<Vec<char>>) -> (r: Vec<String>)
    ensures
        strs(r@) == seqs(v@),
{
    let mut r: Vec<String> = Vec::new();
    let mut i: usize = 0;
    while i < v.len()
        invariant
            i <= v@.len(),
            strs(r@) == seqs(v@).take(i as int),
        decreases v@.len() - i,
    {
        let ghost before = strs(r@);
        r.push(string_of(v[i].as_slice()));
        assert(strs(r@) =~= before.push(v@[i as int]@));
        i = i + 1;
        assert(strs(r@) =~= seqs(v@).take(i as int));
    }
    assert(seqs(v@).take(v@.len() as int) =~= seqs(v@));
    r
}

/// Trims the items, drops blank ones and repeats, and fails on the first over `max_item_len`
/// bytes with `too_long`.
pub fn dedup_trimmed_list(items: &Vec<String>, max_item_len: usize, too_long: &'static str) -> (r:
    Result<Vec<String>, StoreError>)
    ensures
        list_result_matches(r, string_list_spec(strs(items@), max_item_len as nat, too_long@)),
{
    let mut out: Vec<Vec<char>> = Vec::new();
    let mut i: usize = 0;
    assert(strs(items@).take(0) =~= Seq::<Seq<char>>::empty());
    assert(seqs(out@) =~= Seq::<Seq<char>>::empty());
    while i < items.len()
        invariant
            i <= items@.len(),
            string_list_spec(strs(items@).take(i as int), max_item_len as nat, too_long@) == Ok::<
                Seq<Seq<char>>,
                Seq<char>,
            >(seqs(out@)),
        decreases items@.len() - i,
    {
        assert(strs(items@).take(i + 1).drop_last() =~= strs(items@).take(i as int));
        assert(strs(items@).take(i + 1).last() == items@[i as int]@);
        let t = trim_str(items[i].as_str());
        if t.len() > 0 {
            if utf8_len_exceeds(t.as_slice(), max_item_len) {
                assert(string_list_spec(strs(items@).take(i + 1), max_item_len as nat, too_long@) is Err);
                proof {
                    lemma_list_error_sticks(strs(items@), i + 1, max_item_len as nat, too_long@);
                }
                return Err(StoreError::InvalidInput(too_long));
            }
            if !contains_chars_in(&out, t.as_slice()) {
                let ghost before = seqs(out@);
                out.push(t);
                assert(seqs(out@) =~= before.push(trim_seq(items@[i as int]@)));
            }
        }
        i = i + 1;
    }
    assert(strs(items@).take(items@.len() as int) =~= strs(items@));
    Ok(strings_of(&out))
}

pub fn normalize_string_list(items: Vec<String>, max_items: usize, max_item_len: usize) -> (r:
    Result<Vec<String>, StoreError>)
    ensures
        list_result_matches(
            r,
            if items@.len() > max_items {
                Err("list exceeds max_items"@)
            } else {
                string_list_spec(strs(items@), max_item_len as nat, "list item is too long"@)
            },
        ),
{
    if items.len() > max_items {
        return Err(StoreError::InvalidInput("list exceeds max_items"));
    }
    dedup_trimmed_list(&items, max_item_len, "list item is too long")
}

/// Once an error is met, later items do not change it.
pub proof fn lemma_list_error_sticks(items: Seq<Seq<char>>, k: int, max_item_len: nat, too_long: Seq<char>)
    requires
        0 <= k <= items.len(),
        string_list_spec(items.take(k), max_item_len, too_long) is Err,
    ensures
        string_list_spec(items, max_item_len, too_long) == string_list_spec(items.take(k), max_item_len, too_long),
    decreases items.len() - k,
{
    if k < items.len() {
        assert(items.take(k + 1).drop_last() =~= items.take(k));
        lemma_list_error_sticks(items, k + 1, max_item_len, too_long);
    } else {
        assert(items.take(k) =~= items);
    }
}

/// Normalizing a canonical anchor id gives it back unchanged.
pub proof fn lemma_anchor_id_idempotent(raw: Seq<char>)
    requires
        anchor_id_spec(raw) is Ok,
    ensures
        anchor_id_spec(anchor_id_spec(raw)->Ok_0) == anchor_id_spec(raw),
{
    reveal_strlit("a:");
    let slug = lower_seq(trim_seq(raw)).skip(2);
    let id = "a:"@ + slug;
    assert(anchor_id_spec(raw)->Ok_0 == id);
    assert(id[0] == 'a');
    assert(id.last() == slug.last());
    if slug.len() > 1 {
        assert(is_slug_char(slug[slug.len() - 1]));
    }
    crate::text::lemma_trim_noop(id);
    assert forall|i: int| 0 <= i < id.len() implies !('A' <= #[trigger] id[i] <= 'Z') by {
        if i >= 2 {
            assert(id[i] == slug[i - 2]);
            if i - 2 >= 1 {
                assert(is_slug_char(slug[i - 2]));
            }
        }
    }
    crate::text::lemma_lower_noop(id);
    assert(id.take(2) =~= "a:"@);
    assert(id.skip(2) =~= slug);
}

/// A valid anchor slug: 1 to 64 characters of `[a-z0-9-]`, the first one of `[a-z0-9]`.
pub open spec fn anchor_slug_ok(g: Seq<char>) -> bool {
    &&& 1 <= g.len() <= MAX_ANCHOR_SLUG_LEN
    &&& is_slug_start(g[0])
    &&& forall|i: int| 1 <= i < g.len() ==> is_slug_char(#[trigger] g[i])
}

pub proof fn lemma_utf8_len_ascii(s: Seq<char>)
    requires
        forall|i: int| 0 <= i < s.len() ==> (#[trigger] s[i]) < '\u{80}',
    ensures
        utf8_len(s) == s.len(),
    decreases s.len(),
{
    if s.len() > 0 {
        lemma_utf8_len_ascii(s.drop_last());
    }
}

/// A raw id normalizes if and only if, trimmed and lowercased, it is `a:` followed by a valid
/// slug; the id it normalizes to is then exactly that trimmed, lowercased text.
pub proof fn lemma_anchor_id_valid_iff(raw: Seq<char>)
    ensures
        ({
            let s = lower_seq(trim_seq(raw));
            &&& anchor_id_spec(raw) is Ok <==> has_prefix(s, "a:"@) && anchor_slug_ok(s.skip(2))
            &&& anchor_id_spec(raw) is Ok ==> anchor_id_spec(raw)->Ok_0 == s
        }),
{
    reveal_strlit("a:");
    let t = trim_seq(raw);
    let s = lower_seq(t);
    let g = s.skip(2);
    assert(s.len() == t.len());
    if has_prefix(s, "a:"@) && g.len() > 0 && is_slug_start(g[0]) && (forall|i: int|
        1 <= i < g.len() ==> is_slug_char(#[trigger] g[i])) {
        assert forall|i: int| 0 <= i < g.len() implies (#[trigger] g[i]) < '\u{80}' by {
            if i >= 1 {
                assert(is_slug_char(g[i]));
            }
        }
        lemma_utf8_len_ascii(g);
    }
    if anchor_id_spec(raw) is Ok {
        assert(s =~= "a:"@ + g);
    }
}

/// `serde_json::Error`, carried only to tell success from failure.
#[verifier::external_type_specification]
#[verifier::external_body]
pub struct ExJsonError(serde_json::Error);

/// A character inside a JSON string as `serde_json` writes it: `"` and `\\` escaped, the
/// control characters below U+0020 as `\\b`, `\\t`, `\\n`, `\\f`, `\\r` or `\\u00xx`
/// (lowercase hex), any other character as it is.
pub open spec fn serde_escape_char(c: char) -> Seq<char> {
    if c == '"' {
        seq!['\\', '"']
    } else if c == '\\' {
        seq!['\\', '\\']
    } else if c == '\u{8}' {
        seq!['\\', 'b']
    } else if c == '\t' {
        seq!['\\', 't']
    } else if c == '\n' {
        seq!['\\', 'n']
    } else if c == '\u{c}' {
        seq!['\\', 'f']
    } else if c == '\r' {
        seq!['\\', 'r']
    } else if (c as u32) < 0x20 {
        seq!['\\', 'u', '0', '0'] + crate::num::hex_digits(c as nat, 2)
    } else {
        seq![c]
    }
}

/// The text of `s` as a JSON string literal, quotes included, as `serde_json` writes it.
pub open spec fn serde_quoted(s: Seq<char>) -> Seq<char>
    decreases s.len(),
{
    if s.len() == 0 {
        seq!['"', '"']
    } else {
        serde_quoted(s.drop_last()).drop_last() + serde_escape_char(s.last()) + seq!['"']
    }
}

/// The JSON strings of `items`, separated by commas.
pub open spec fn serde_quoted_list(items: Seq<Seq<char>>) -> Seq<char>
    decreases items.len(),
{
    if items.len() == 0 {
        Seq::empty()
    } else if items.len() == 1 {
        serde_quoted(items[0])
    } else {
        serde_quoted_list(items.drop_last()) + seq![','] + serde_quoted(items.last())
    }
}

/// The JSON text `serde_json` writes for a list of strings (compact: no spaces).
pub open spec fn serde_string_list_text(items: Seq<Seq<char>>) -> Seq<char> {
    seq!['['] + serde_quoted_list(items) + seq![']']
}

/// The list of strings `serde_json` reads from JSON text, or `None` when it reports an error.
pub uninterp spec fn serde_string_list_parse(text: Seq<char>) -> Option<Seq<Seq<char>>>;

/// `serde_json::to_string` on a list of strings: it cannot fail on strings, and writes the
/// compact JSON array of their escaped literals.
#[verifier::external_body]
fn json_to_string_list(items: &[String]) -> (r: Result<String, serde_json::Error>)
    ensures
        match r {
            Ok(s) => s@ == serde_string_list_text(strs(items@)),
            Err(_) => false,
        },
{
    serde_json::to_string(items)
}

/// `serde_json::from_str::<Vec<String>>`. Its result is a function of the text alone; which
/// texts parse, and to what, is left to the name.
#[verifier::external_body]
fn json_parse_string_list(text: &str) -> (r: Result<Vec<String>, serde_json::Error>)
    ensures
        match r {
            Ok(v) => serde_string_list_parse(text@) == Some(strs(v@)),
            Err(_) => serde_string_list_parse(text@) is None,
        },
{
    serde_json::from_str::<Vec<String>>(text)
}

/// The stored form of a list of strings: its JSON text.
pub open spec fn json_string_list_spec(items: Seq<Seq<char>>) -> Seq<char> {
    serde_string_list_text(items)
}

pub fn encode_json_string_list(items: &[String]) -> (r: String)
    ensures
        r@ == json_string_list_spec(strs(items@)),
{
    match json_to_string_list(items) {
        Ok(s) => s,
        Err(_) => string_of(chars_of("[]").as_slice()),
    }
}

/// The list read back from a stored column: empty for no value or blank text, else the JSON
/// list of strings in the trimmed text.
pub open spec fn decode_string_list_spec(raw: Option<Seq<char>>) -> Result<Seq<Seq<char>>, Seq<char>> {
    match raw {
        None => Ok(Seq::empty()),
        Some(r) => {
            let t = trim_seq(r);
            if t.len() == 0 {
                Ok(Seq::empty())
            } else {
                match serde_string_list_parse(t) {
                    Some(v) => Ok(v),
                    None => Err("stored anchor list is invalid json"@),
                }
            }
        },
    }
}

pub fn decode_json_string_list(raw: Option<String>) -> (r: Result<Vec<String>, StoreError>)
    ensures
        list_result_matches(
            r,
            decode_string_list_spec(
                match raw {
                    None => None,
                    Some(s) => Some(s@),
                },
            ),
        ),
{
    let raw = match raw {
        None => {
            let e: Vec<String> = Vec::new();
            assert(strs(e@) =~= Seq::<Seq<char>>::empty());
            return Ok(e);
        },
        Some(r) => r,
    };
    let t = trim_str(raw.as_str());
    if t.len() == 0 {
        let e: Vec<String> = Vec::new();
        assert(strs(e@) =~= Seq::<Seq<char>>::empty());
        return Ok(e);
    }
    let ts = string_of(t.as_slice());
    match json_parse_string_list(ts.as_str()) {
        Ok(v) => Ok(v),
        Err(_) => Err(StoreError::InvalidInput("stored anchor list is invalid json")),
    }
}

} // verus!
