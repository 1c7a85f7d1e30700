//! Links from cards to anchors: which tags name anchors, canonical cards, task branches.

use vstd::prelude::*;

use super::anchors::{anchor_id_spec, normalize_anchor_id, strings_of};
use crate::text::{
    chars_eq_str, chars_of, has_prefix, lower_seq, seqs, sort_dedup, sorted_strict, starts_with_str,
    strs, to_ascii_lower, trim_seq, trim_str,
};

verus! {

broadcast use vstd::string::group_string_axioms;

pub const TASK_BRANCH_PREFIX: &'static str = "task/";

pub const TAG_PINNED: &'static str = "pinned";

pub const TAG_VIS_CANON: &'static str = "v:canon";

/// The anchor a tag links to: a trimmed tag that starts with `a:` and is a valid anchor id.
pub open spec fn link_tag_anchor(tag: Seq<char>) -> Option<Seq<char>> {
    let raw = trim_seq(tag);
    if raw.len() > 0 && has_prefix(raw, "a:"@) {
        match anchor_id_spec(raw) {
            Ok(id) => Some(id),
            Err(_) => None,
        }
    } else {
        None
    }
}

/// The anchors linked by some tag.
pub open spec fn linked_anchor_set(tags: Seq<Seq<char>>) -> Set<Seq<char>> {
    Set::new(|id: Seq<char>| exists|i: int| 0 <= i < tags.len() && link_tag_anchor(tags[i]) == Some(id))
}

/// The anchors named by the tags, sorted, each once; tags that are not valid anchor ids are
/// ignored.
pub fn extract_anchor_ids(tags: &[String]) -> (r: Vec<String>)
    ensures
        sorted_strict(strs(r@)),
        strs(r@).to_set() == linked_anchor_set(strs(tags@)),
{
    let mut found: Vec<Vec<char>> = Vec::new();
    let mut i: usize = 0;
    while i < tags.len()
        invariant
            i <= tags@.len(),
            forall|id: Seq<char>|
                seqs(found@).contains(id) <==> exists|k: int|
                    0 <= k < i && link_tag_anchor(strs(tags@)[k]) == Some(id),
        decreases tags@.len() - i,
    {
        let raw = trim_str(tags[i].as_str());
        let ghost before = seqs(found@);
        if raw.len() > 0 && starts_with_str(raw.as_slice(), "a:") {
            let rs = crate::text::string_of(raw.as_slice());
            match normalize_anchor_id(rs.as_str()) {
                Ok(id) => {
                    proof {
                        crate::text::lemma_trim_idempotent(tags@[i as int]@);
                    }
                    let idv = chars_of(id.as_str());
                    found.push(idv);
                    assert(seqs(found@) =~= before.push(id@));
                    assert(link_tag_anchor(strs(tags@)[i as int]) == Some(id@));
                },
                Err(_) => {
                    proof {
                        crate::text::lemma_trim_idempotent(tags@[i as int]@);
                    }
                    assert(link_tag_anchor(strs(tags@)[i as int]) is None);
                },
            }
        } else {
            assert(link_tag_anchor(strs(tags@)[i as int]) is None);
        }
        proof {
            assert forall|id: Seq<char>| seqs(found@).contains(id) <==> exists|k: int|
                0 <= k < i + 1 && link_tag_anchor(strs(tags@)[k]) == Some(id) by {
                if seqs(found@).contains(id) && !before.contains(id) {
                    assert(link_tag_anchor(strs(tags@)[i as int]) == Some(id));
                }
                if exists|k: int| 0 <= k < i + 1 && link_tag_anchor(strs(tags@)[k]) == Some(id) {
                    let k = choose|k: int| 0 <= k < i + 1 && link_tag_anchor(strs(tags@)[k]) == Some(id);
                    if k == i {
                        assert(seqs(found@).last() == id);
                        assert(seqs(found@)[seqs(found@).len() - 1] == id);
                    } else {
                        assert(before.contains(id));
                        let j = choose|j: int| 0 <= j < before.len() && before[j] == id;
                        assert(seqs(found@)[j] == id);
                    }
                }
            }
        }
        i = i + 1;
    }
    let sorted = sort_dedup(found);
    let r = strings_of(&sorted);
    assert(strs(r@).to_set() =~= linked_anchor_set(strs(tags@)));
    r
}

/// A card is canonical when pinned or marked `v:canon`, or when it is a decision, evidence
/// or test card.
pub open spec fn card_is_canon_spec(card_type: Seq<char>, tags: Seq<Seq<char>>) -> bool {
    let k = lower_seq(trim_seq(card_type));
    (exists|i: int| 0 <= i < tags.len() && (tags[i] == "pinned"@ || tags[i] == "v:canon"@))
        || k == "decision"@ || k == "evidence"@ || k == "test"@
}

pub fn card_is_canon(card_type: &str, tags: &[String]) -> (r: bool)
    ensures
        r == card_is_canon_spec(card_type@, strs(tags@)),
{
    let mut i: usize = 0;
    while i < tags.len()
        invariant
            i <= tags@.len(),
            forall|k: int|
                0 <= k < i ==> !(strs(tags@)[k] == "pinned"@ || strs(tags@)[k] == "v:canon"@),
        decreases tags@.len() - i,
    {
        let t = chars_of(tags[i].as_str());
        if chars_eq_str(t.as_slice(), TAG_PINNED) || chars_eq_str(t.as_slice(), TAG_VIS_CANON) {
            assert(strs(tags@)[i as int] == "pinned"@ || strs(tags@)[i as int] == "v:canon"@);
            return true;
        }
        i = i + 1;
    }
    let k = to_ascii_lower(trim_str(card_type).as_slice());
    chars_eq_str(k.as_slice(), "decision") || chars_eq_str(k.as_slice(), "evidence")
        || chars_eq_str(k.as_slice(), "test")
}

/// The task id of a task branch `task/TASK-...`.
pub open spec fn task_id_of_branch_spec(branch: Seq<char>) -> Option<Seq<char>> {
    let rest = branch.skip(5);
    if has_prefix(branch, "task/"@) && has_prefix(rest, "TASK-"@) && trim_seq(rest).len() > 0 {
        Some(rest)
    } else {
        None
    }
}

pub fn task_id_from_task_branch(branch: &str) -> (r: Option<&str>)
    ensures
        match r {
            None => task_id_of_branch_spec(branch@) is None,
            Some(s) => task_id_of_branch_spec(branch@) == Some(s@),
        },
{
    proof {
        reveal_strlit("task/");
    }
    let v = chars_of(branch);
    if !starts_with_str(v.as_slice(), TASK_BRANCH_PREFIX) {
        return None;
    }
    let n = branch.unicode_len();
    let rest = branch.substring_char(5, n);
    let rv = chars_of(rest);
    if starts_with_str(rv.as_slice(), "TASK-") && trim_str(rest).len() > 0 {
        Some(rest)
    } else {
        None
    }
}

/// The most anchors a plan's coverage lists.
pub const MAX_PLAN_TOP_ANCHORS_LIMIT: usize = 20;

/// `v` without every leading copy of `p` (`str::trim_start_matches`).
pub fn strip_leading_copies(v: &[char], p: &[char]) -> (r: Vec<char>)
    ensures
        r@ == super::jobs::strip_all_prefix(v@, p@),
{
    let mut i: usize = 0;
    assert(v@.skip(0) =~= v@);
    if p.len() == 0 {
        return crate::text::sub_chars(v, 0, v.len());
    }
    loop
        invariant
            i <= v@.len(),
            p@.len() > 0,
            super::jobs::strip_all_prefix(v@, p@) == super::jobs::strip_all_prefix(v@.skip(i as int), p@),
        decreases v@.len() - i,
    {
        let rest = crate::text::sub_chars(v, i, v.len());
        assert(rest@ =~= v@.skip(i as int));
        if !crate::text::starts_with(rest.as_slice(), p) {
            return rest;
        }
        assert(v@.skip(i as int).skip(p@.len() as int) =~= v@.skip(i + p@.len()));
        i = i + p.len();
    }
}

/// A plan id as coverage takes it: trimmed, `PLAN-` then only digits (after every leading
/// `PLAN-`).
pub open spec fn coverage_plan_id_spec(raw: Seq<char>) -> Result<Seq<char>, Seq<char>> {
    let t = trim_seq(raw);
    let rest = super::jobs::strip_all_prefix(t, "PLAN-"@);
    if t.len() == 0 {
        Err("plan_id must not be empty"@)
    } else if !has_prefix(t, "PLAN-"@) || !(forall|i: int|
        0 <= i < rest.len() ==> '0' <= #[trigger] rest[i] <= '9') {
        Err("plan_id must start with PLAN- and contain only digits"@)
    } else {
        Ok(t)
    }
}

/// Checks the plan a coverage report is asked for.
pub fn check_coverage_plan_id(raw: &str) -> (r: Result<String, super::error::StoreError>)
    ensures
        super::error::result_matches(r, coverage_plan_id_spec(raw@)),
{
    let t = trim_str(raw);
    if t.len() == 0 {
        return Err(super::error::StoreError::InvalidInput("plan_id must not be empty"));
    }
    let p = chars_of("PLAN-");
    let ok_prefix = crate::text::starts_with(t.as_slice(), p.as_slice());
    let rest = strip_leading_copies(t.as_slice(), p.as_slice());
    let mut digits = true;
    let mut i: usize = 0;
    while i < rest.len()
        invariant
            i <= rest@.len(),
            digits == (forall|k: int| 0 <= k < i ==> '0' <= #[trigger] rest@[k] <= '9'),
        decreases rest@.len() - i,
    {
        if !('0' <= rest[i] && rest[i] <= '9') {
            digits = false;
        }
        i = i + 1;
    }
    if !ok_prefix || !digits {
        return Err(
            super::error::StoreError::InvalidInput("plan_id must start with PLAN- and contain only digits"),
        );
    }
    Ok(crate::text::string_of(t.as_slice()))
}

/// How many top anchors a coverage report lists: what was asked, up to 20.
pub fn coverage_top_limit(asked: usize) -> (r: usize)
    ensures
        r == if asked > MAX_PLAN_TOP_ANCHORS_LIMIT {
            MAX_PLAN_TOP_ANCHORS_LIMIT
        } else {
            asked
        },
{
    if asked > MAX_PLAN_TOP_ANCHORS_LIMIT {
        MAX_PLAN_TOP_ANCHORS_LIMIT
    } else {
        asked
    }
}

} // verus!
