//! Merging anchors: rewriting the `depends_on` lists that name merged anchors.

use vstd::prelude::*;

use super::anchors::{
    decode_json_string_list, decode_string_list_spec, encode_json_string_list,
    json_string_list_spec, strings_of,
};
use super::anchor_reads::anchor_id_set;
use super::anchor_upsert::{anchor_ids_spec, sorted_from, strings_contain};
use super::anchors::{anchor_id_spec, normalize_anchor_id};
use super::error::StoreError;
use crate::text::{chars_eq, chars_of, seqs, sort_dedup, sorted_strict, strs};

verus! {

/// Each dependency in `replacements` becomes `into_id`; then `self_id` is dropped.
pub open spec fn rewrite_deps(
    deps: Seq<Seq<char>>,
    replacements: Set<Seq<char>>,
    into_id: Seq<char>,
    self_id: Seq<char>,
) -> Seq<Seq<char>>
    decreases deps.len(),
{
    if deps.len() == 0 {
        Seq::empty()
    } else {
        let rest = rewrite_deps(deps.drop_last(), replacements, into_id, self_id);
        let d = if replacements.contains(deps.last()) {
            into_id
        } else {
            deps.last()
        };
        if d == self_id {
            rest
        } else {
            rest.push(d)
        }
    }
}

/// The rewritten list is a sorted list without repeats of the rewritten dependencies.
pub open spec fn rewritten_deps_ok(
    out: Seq<Seq<char>>,
    deps: Seq<Seq<char>>,
    replacements: Set<Seq<char>>,
    into_id: Seq<char>,
    self_id: Seq<char>,
) -> bool {
    sorted_strict(out) && out.to_set() == rewrite_deps(deps, replacements, into_id, self_id).to_set()
}

fn in_list(list: &[String], v: &[char]) -> (r: bool)
    ensures
        r == strs(list@).to_set().contains(v@),
{
    let mut i: usize = 0;
    while i < list.len()
        invariant
            i <= list@.len(),
            forall|k: int| 0 <= k < i ==> strs(list@)[k] != v@,
        decreases list@.len() - i,
    {
        let x = chars_of(list[i].as_str());
        if chars_eq(x.as_slice(), v) {
            assert(strs(list@)[i as int] == v@);
            return true;
        }
        i = i + 1;
    }
    false
}

fn seqs_equal(a: &Vec<Vec<char>>, b: &Vec<String>) -> (r: bool)
    ensures
        r == (seqs(a@) == strs(b@)),
{
    if a.len() != b.len() {
        assert(seqs(a@).len() != strs(b@).len());
        return false;
    }
    let mut i: usize = 0;
    while i < a.len()
        invariant
            i <= a@.len() == b@.len(),
            forall|k: int| 0 <= k < i ==> seqs(a@)[k] == strs(b@)[k],
        decreases a@.len() - i,
    {
        let bv = chars_of(b[i].as_str());
        if !chars_eq(a[i].as_slice(), bv.as_slice()) {
            assert(seqs(a@)[i as int] != strs(b@)[i as int]);
            return false;
        }
        i = i + 1;
    }
    assert(seqs(a@) =~= strs(b@));
    true
}

/// Rewrites one anchor's dependency list after a merge: ids in `replacements` become
/// `into_id`, the anchor itself is dropped, and the list is sorted without repeats. Also
/// reports whether the list changed.
pub fn rewrite_merged_deps(
    deps: &Vec<String>,
    replacements: &[String],
    into_id: &str,
    self_id: &str,
) -> (r: (Vec<String>, bool))
    ensures
        rewritten_deps_ok(strs(r.0@), strs(deps@), strs(replacements@).to_set(), into_id@, self_id@),
        r.1 == (strs(r.0@) != strs(deps@)),
{
    let ghost ds = strs(deps@);
    let ghost repl = strs(replacements@).to_set();
    let into_v = chars_of(into_id);
    let self_v = chars_of(self_id);
    let mut kept: Vec<Vec<char>> = Vec::new();
    let mut i: usize = 0;
    while i < deps.len()
        invariant
            i <= deps@.len(),
            ds == strs(deps@),
            repl == strs(replacements@).to_set(),
            into_v@ == into_id@,
            self_v@ == self_id@,
            seqs(kept@) == rewrite_deps(ds.take(i as int), repl, into_id@, self_id@),
        decreases deps@.len() - i,
    {
        assert(ds.take(i + 1).drop_last() =~= ds.take(i as int));
        assert(ds.take(i + 1).last() == ds[i as int]);
        let dv = chars_of(deps[i].as_str());
        let d = if in_list(replacements, dv.as_slice()) {
            into_v.clone()
        } else {
            dv
        };
        let ghost before = seqs(kept@);
        if !chars_eq(d.as_slice(), self_v.as_slice()) {
            kept.push(d);
            assert(seqs(kept@) =~= before.push(d@));
        }
        i = i + 1;
    }
    assert(ds.take(deps@.len() as int) =~= ds);
    let out = sort_dedup(kept);
    let changed = !seqs_equal(&out, deps);
    let out_strings = strings_of(&out);
    (out_strings, changed)
}

/// Rewrites one anchor's stored `depends_on` list after a merge: the stored list is read,
/// rewritten by [`rewrite_merged_deps`], and stored again. Also reports whether the list
/// changed.
pub fn replace_anchor_refs_in_depends_json(
    raw: Option<String>,
    replacements: &[String],
    into_id: &str,
    self_id: &str,
) -> (r: Result<(Option<String>, bool), StoreError>)
    ensures
        match (
            r,
            decode_string_list_spec(
                match raw {
                    None => None,
                    Some(s) => Some(s@),
                },
            ),
        ) {
            (Err(StoreError::InvalidInput(m)), Err(e)) => m@ == e,
            (Ok((Some(j), changed)), Ok(deps)) => exists|out: Seq<Seq<char>>|
                rewritten_deps_ok(out, deps, strs(replacements@).to_set(), into_id@, self_id@)
                    && j@ == json_string_list_spec(out) && changed == (out != deps),
            _ => false,
        },
{
    let deps = match decode_json_string_list(raw) {
        Ok(d) => d,
        Err(e) => {
            return Err(e);
        },
    };
    let (out, changed) = rewrite_merged_deps(&deps, replacements, into_id, self_id);
    let json = encode_json_string_list(out.as_slice());
    assert(rewritten_deps_ok(strs(out@), strs(deps@), strs(replacements@).to_set(), into_id@, self_id@));
    Ok((Some(json), changed))
}

/// What a merge request comes to: the anchor merged into, normalized; the anchors merged
/// from, normalized, sorted and once each; refused when the target is malformed, when no
/// source is named, when a source is malformed, or when the target is among the sources.
pub open spec fn merge_request_spec(into_raw: Seq<char>, from_raws: Seq<Seq<char>>) -> Result<
    (Seq<char>, Set<Seq<char>>),
    Seq<char>,
> {
    match anchor_id_spec(into_raw) {
        Err(m) => Err(m),
        Ok(into) => if from_raws.len() == 0 {
            Err("anchors_merge.from must not be empty"@)
        } else {
            match anchor_ids_spec(from_raws) {
                Err(m) => Err(m),
                Ok(from) => if from.contains(into) {
                    Err("anchors_merge.from must not include into"@)
                } else {
                    Ok((into, from.to_set()))
                },
            }
        },
    }
}

/// The target and the sorted sources of a merge request, or its refusal.
pub fn plan_anchors_merge(into_raw: &str, from_raws: &Vec<String>) -> (r: Result<(String, Vec<String>), StoreError>)
    ensures
        match merge_request_spec(into_raw@, strs(from_raws@)) {
            Err(m) => r matches Err(StoreError::InvalidInput(x)) && x@ == m,
            Ok((into, from)) => r matches Ok(p) && p.0@ == into && sorted_strict(strs(p.1@))
                && strs(p.1@).to_set() == from,
        },
{
    let into_id = normalize_anchor_id(into_raw)?;
    if from_raws.len() == 0 {
        return Err(StoreError::InvalidInput("anchors_merge.from must not be empty"));
    }
    let from_ids = anchor_id_set(from_raws)?;
    let ghost w = anchor_ids_spec(strs(from_raws@))->Ok_0;
    proof {
        assert(strs(from_ids@).to_set() == w.to_set());
        assert(w.to_set().contains(into_id@) == w.contains(into_id@));
        assert(strs(from_ids@).to_set().contains(into_id@) == strs(from_ids@).contains(into_id@));
    }
    if strings_contain(&from_ids, &into_id) {
        return Err(StoreError::InvalidInput("anchors_merge.from must not include into"));
    }
    Ok((into_id, from_ids))
}

/// Where a source of a merge stands before anything is moved: an anchor record is merged
/// (`Ok(false)`); an alias already owned by the target is skipped (`Ok(true)`); an alias of
/// another anchor, or an unknown id, is refused.
pub fn resolve_merge_source(is_anchor: bool, alias_owner: &Option<String>, into_id: &str) -> (r: Result<bool, StoreError>)
    ensures
        is_anchor ==> r == Ok::<bool, StoreError>(false),
        !is_anchor ==> match alias_owner {
            Some(o) => if o@ == into_id@ {
                r == Ok::<bool, StoreError>(true)
            } else {
                r matches Err(StoreError::InvalidInput(x)) && x@
                    == "anchors_merge.from resolves to a different canonical anchor"@
            },
            None => r matches Err(StoreError::InvalidInput(x)) && x@ == "anchors_merge.from not found"@,
        },
{
    if is_anchor {
        return Ok(false);
    }
    match alias_owner {
        Some(o) => {
            if chars_eq(chars_of(o.as_str()).as_slice(), chars_of(into_id).as_slice()) {
                Ok(true)
            } else {
                Err(StoreError::InvalidInput("anchors_merge.from resolves to a different canonical anchor"))
            }
        },
        None => Err(StoreError::InvalidInput("anchors_merge.from not found")),
    }
}

/// Whether the alias `source → target` must be inserted after a source's aliases moved to the
/// target: not when it is already there; refused when the source id is an alias of another
/// anchor.
pub fn merge_alias_insert(alias_owner: &Option<String>, into_id: &str) -> (r: Result<bool, StoreError>)
    ensures
        match alias_owner {
            None => r == Ok::<bool, StoreError>(true),
            Some(o) => if o@ == into_id@ {
                r == Ok::<bool, StoreError>(false)
            } else {
                r matches Err(StoreError::InvalidInput(x)) && x@
                    == "anchors_merge.from collides with an existing alias owned by another anchor"@
            },
        },
{
    match alias_owner {
        None => Ok(true),
        Some(o) => {
            if chars_eq(chars_of(o.as_str()).as_slice(), chars_of(into_id).as_slice()) {
                Ok(false)
            } else {
                Err(StoreError::InvalidInput("anchors_merge.from collides with an existing alias owned by another anchor"))
            }
        },
    }
}

} // verus!
