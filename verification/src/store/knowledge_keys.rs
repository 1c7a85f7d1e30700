//! Knowledge keys: the `k:<slug>` tag of a card, and the anchors it is filed under.

use vstd::prelude::*;

use super::anchors::{anchor_id_spec, is_slug_char, is_slug_start, normalize_anchor_id, strings_of};
use crate::text::{
    append_chars, append_str, chars_eq, chars_of, has_prefix, lower_seq, seqs, sort_dedup,
    sorted_strict, starts_with_str, string_of, strs, sub_chars, to_ascii_lower, trim, trim_seq,
    trim_str, utf8_len, utf8_len_exceeds,
};

verus! {

broadcast use vstd::string::group_string_axioms;

pub const KNOWLEDGE_KEY_TAG_PREFIX: &'static str = "k:";

pub const MAX_KEY_SLUG_LEN: usize = 64;

/// A knowledge key slug: trimmed, `[a-z0-9][a-z0-9-]*`, at most 64 bytes.
pub open spec fn key_slug_spec(raw: Seq<char>) -> Option<Seq<char>> {
    let t = trim_seq(raw);
    if t.len() == 0 || utf8_len(t) > MAX_KEY_SLUG_LEN || !is_slug_start(t[0]) || exists|i: int|
        1 <= i < t.len() && !is_slug_char(#[trigger] t[i]) {
        None
    } else {
        Some(t)
    }
}

#[verifier::loop_isolation(false)]
fn key_slug_chars(raw: &[char]) -> (r: Option<Vec<char>>)
    ensures
        match r {
            None => key_slug_spec(raw@) is None,
            Some(v) => key_slug_spec(raw@) == Some(v@),
        },
{
    let t = trim(raw);
    if t.len() == 0 {
        return None;
    }
    if utf8_len_exceeds(t.as_slice(), MAX_KEY_SLUG_LEN) {
        return None;
    }
    let first = t[0];
    if !(('a' <= first && first <= 'z') || ('0' <= first && first <= '9')) {
        return None;
    }
    let mut i: usize = 1;
    while i < t.len()
        invariant
            1 <= i <= t@.len(),
            forall|k: int| 1 <= k < i ==> is_slug_char(#[trigger] t@[k]),
        decreases t@.len() - i,
    {
        let c = t[i];
        if !(('a' <= c && c <= 'z') || ('0' <= c && c <= '9') || c == '-') {
            assert(!is_slug_char(t@[i as int]));
            return None;
        }
        i = i + 1;
    }
    Some(t)
}

pub fn normalize_key_slug(raw: &str) -> (r: Option<String>)
    ensures
        match r {
            None => key_slug_spec(raw@) is None,
            Some(s) => key_slug_spec(raw@) == Some(s@),
        },
{
    let v = chars_of(raw);
    match key_slug_chars(v.as_slice()) {
        None => None,
        Some(t) => Some(string_of(t.as_slice())),
    }
}

/// Scanning tags for the key: `None` once a key tag is invalid or a second, different key is
/// met; else the key found so far.
pub open spec fn key_scan(tags: Seq<Seq<char>>) -> Option<Option<Seq<char>>>
    decreases tags.len(),
{
    if tags.len() == 0 {
        Some(None)
    } else {
        match key_scan(tags.drop_last()) {
            None => None,
            Some(cur) => {
                let t = trim_seq(tags.last());
                if !has_prefix(t, "k:"@) {
                    Some(cur)
                } else {
                    match key_slug_spec(t.skip(2)) {
                        None => None,
                        Some(slug) => match cur {
                            None => Some(Some(slug)),
                            Some(e) => if e == slug {
                                Some(cur)
                            } else {
                                None
                            },
                        },
                    }
                }
            },
        }
    }
}

/// The one knowledge key a card's tags carry, if they carry exactly one valid key.
pub open spec fn key_slug_of_tags(tags: Seq<Seq<char>>) -> Option<Seq<char>> {
    match key_scan(tags) {
        None => None,
        Some(o) => o,
    }
}

proof fn lemma_key_scan_abort_sticks(tags: Seq<Seq<char>>, k: int)
    requires
        0 <= k <= tags.len(),
        key_scan(tags.take(k)) is None,
    ensures
        key_scan(tags) is None,
    decreases tags.len() - k,
{
    if k < tags.len() {
        assert(tags.take(k + 1).drop_last() =~= tags.take(k));
        lemma_key_scan_abort_sticks(tags, k + 1);
    } else {
        assert(tags.take(k) =~= tags);
    }
}

pub fn extract_key_slug(tags: &[String]) -> (r: Option<String>)
    ensures
        match r {
            None => key_slug_of_tags(strs(tags@)) is None,
            Some(s) => key_slug_of_tags(strs(tags@)) == Some(s@),
        },
{
    proof {
        reveal_strlit("k:");
    }
    let mut out: Option<Vec<char>> = None;
    let mut i: usize = 0;
    while i < tags.len()
        invariant
            i <= tags@.len(),
            key_scan(strs(tags@).take(i as int)) == Some(
                match out {
                    None => None::<Seq<char>>,
                    Some(v) => Some(v@),
                },
            ),
        decreases tags@.len() - i,
    {
        proof {
            reveal_strlit("k:");
        }
        assert(strs(tags@).take(i + 1).drop_last() =~= strs(tags@).take(i as int));
        let t = trim_str(tags[i].as_str());
        if starts_with_str(t.as_slice(), KNOWLEDGE_KEY_TAG_PREFIX) {
            let rest = sub_chars(t.as_slice(), 2, t.len());
            assert(rest@ =~= t@.skip(2));
            match key_slug_chars(rest.as_slice()) {
                None => {
                    proof {
                        lemma_key_scan_abort_sticks(strs(tags@), i + 1);
                    }
                    return None;
                },
                Some(slug) => {
                    match &out {
                        None => {
                            out = Some(slug);
                        },
                        Some(existing) => {
                            if !chars_eq(existing.as_slice(), slug.as_slice()) {
                                proof {
                                    lemma_key_scan_abort_sticks(strs(tags@), i + 1);
                                }
                                return None;
                            }
                        },
                    }
                },
            }
        }
        i = i + 1;
    }
    assert(strs(tags@).take(tags@.len() as int) =~= strs(tags@));
    match out {
        None => None,
        Some(v) => Some(string_of(v.as_slice())),
    }
}

/// The anchor a tag files a card under: the trimmed tag, with `a:` added when it lacks it
/// (checked case-insensitively), when that is a valid anchor id.
pub open spec fn tag_anchor_spec(raw: Seq<char>) -> Option<Seq<char>> {
    let t = trim_seq(raw);
    let candidate = if has_prefix(lower_seq(t), "a:"@) {
        t
    } else {
        "a:"@ + t
    };
    if t.len() == 0 {
        None
    } else {
        match anchor_id_spec(candidate) {
            Ok(id) => Some(id),
            Err(_) => None,
        }
    }
}

pub fn normalize_anchor_id_from_tag(raw: &str) -> (r: Option<String>)
    ensures
        match r {
            None => tag_anchor_spec(raw@) is None,
            Some(s) => tag_anchor_spec(raw@) == Some(s@),
        },
{
    let t = trim_str(raw);
    if t.len() == 0 {
        return None;
    }
    let lowered = to_ascii_lower(t.as_slice());
    let mut candidate: Vec<char> = Vec::new();
    if !starts_with_str(lowered.as_slice(), "a:") {
        append_str(&mut candidate, "a:");
    }
    append_chars(&mut candidate, t.as_slice());
    let cs = string_of(candidate.as_slice());
    match normalize_anchor_id(cs.as_str()) {
        Ok(id) => Some(id),
        Err(_) => None,
    }
}

/// The anchors named by some tag.
pub open spec fn tag_anchor_set(tags: Seq<Seq<char>>) -> Set<Seq<char>> {
    Set::new(|id: Seq<char>| exists|i: int| 0 <= i < tags.len() && tag_anchor_spec(tags[i]) == Some(id))
}

/// The anchors the tags file a card under, sorted, each once.
pub fn extract_anchor_ids(tags: &[String]) -> (r: Vec<String>)
    ensures
        sorted_strict(strs(r@)),
        strs(r@).to_set() == tag_anchor_set(strs(tags@)),
{
    let mut found: Vec<Vec<char>> = Vec::new();
    let mut i: usize = 0;
    while i < tags.len()
        invariant
            i <= tags@.len(),
            forall|id: Seq<char>|
                seqs(found@).contains(id) <==> exists|k: int|
                    0 <= k < i && tag_anchor_spec(strs(tags@)[k]) == Some(id),
        decreases tags@.len() - i,
    {
        let ghost before = seqs(found@);
        match normalize_anchor_id_from_tag(tags[i].as_str()) {
            None => {},
            Some(id) => {
                found.push(chars_of(id.as_str()));
                assert(seqs(found@) =~= before.push(id@));
            },
        }
        proof {
            assert forall|id: Seq<char>| seqs(found@).contains(id) <==> exists|k: int|
                0 <= k < i + 1 && tag_anchor_spec(strs(tags@)[k]) == Some(id) by {
                if seqs(found@).contains(id) && !before.contains(id) {
                    assert(tag_anchor_spec(strs(tags@)[i as int]) == Some(id));
                }
                if exists|k: int| 0 <= k < i + 1 && tag_anchor_spec(strs(tags@)[k]) == Some(id) {
                    let k = choose|k: int| 0 <= k < i + 1 && tag_anchor_spec(strs(tags@)[k]) == Some(id);
                    if k == i {
                        assert(seqs(found@)[seqs(found@).len() - 1] == id);
                    } else {
                        assert(before.contains(id));
                        let j = choose|j: int| 0 <= j < before.len() && before[j] == id;
                        assert(seqs(found@)[j] == id);
                    }
                }
            }
        }
        i = i + 1;
    }
    let sorted = sort_dedup(found);
    let r = strings_of(&sorted);
    assert(strs(r@).to_set() =~= tag_anchor_set(strs(tags@)));
    r
}

/// The most knowledge keys one listing returns.
pub const MAX_KEY_LIST_LIMIT: usize = 200;

/// The page size of a knowledge-key listing: what was asked, up to 200 (0 lists nothing).
pub fn key_list_limit(asked: usize) -> (r: usize)
    ensures
        r == if asked > MAX_KEY_LIST_LIMIT {
            MAX_KEY_LIST_LIMIT
        } else {
            asked
        },
{
    if asked > MAX_KEY_LIST_LIMIT {
        MAX_KEY_LIST_LIMIT
    } else {
        asked
    }
}

/// The key a listing asks for: the trimmed text, with one leading `k:` dropped, as a slug.
pub open spec fn key_query_spec(raw: Seq<char>) -> Option<Seq<char>> {
    let t = trim_seq(raw);
    let k = if has_prefix(t, "k:"@) {
        t.skip(2)
    } else {
        t
    };
    key_slug_spec(k)
}

/// Reads the key a listing asks for; it must be a valid slug.
pub fn knowledge_query_key(raw: &str) -> (r: Result<String, super::error::StoreError>)
    ensures
        match key_query_spec(raw@) {
            Some(k) => r matches Ok(v) && v@ == k,
            None => r matches Err(super::error::StoreError::InvalidInput(m)) && m@
                == "key must be a valid slug (<slug> or k:<slug>; lowercase letters/digits + '-')"@,
        },
{
    proof {
        reveal_strlit("k:");
    }
    let t = trim_str(raw);
    let k = if starts_with_str(t.as_slice(), "k:") {
        let rest = sub_chars(t.as_slice(), 2, t.len());
        assert(rest@ =~= t@.skip(2));
        rest
    } else {
        t
    };
    let ks = string_of(k.as_slice());
    match normalize_key_slug(ks.as_str()) {
        Some(v) => Ok(v),
        None => Err(
            super::error::StoreError::InvalidInput(
                "key must be a valid slug (<slug> or k:<slug>; lowercase letters/digits + '-')",
            ),
        ),
    }
}

} // verus!
