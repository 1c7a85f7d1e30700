//! Renaming an anchor: the checks, the renamed anchor's own fields, and the rewriting of
//! other anchors' dependencies.

use vstd::prelude::*;

use super::anchors::{
    anchor_id_spec, decode_json_string_list, decode_string_list_spec, encode_json_string_list,
    json_string_list_spec, normalize_anchor_id, strings_of,
};
use super::error::StoreError;
use crate::text::{chars_eq, chars_of, seqs, sort_dedup, sorted_strict, strs};

verus! {

broadcast use vstd::string::group_string_axioms;

/// The canonical ids of a rename: both must be valid anchor ids, and different.
pub fn rename_ids(from_raw: &str, to_raw: &str) -> (r: Result<(String, String), StoreError>)
    ensures
        anchor_id_spec(from_raw@) matches Err(m) ==> (r matches Err(StoreError::InvalidInput(e)) && e@ == m),
        anchor_id_spec(from_raw@) is Ok && anchor_id_spec(to_raw@) is Err ==> (r matches Err(
            StoreError::InvalidInput(e),
        ) && e@ == anchor_id_spec(to_raw@)->Err_0),
        anchor_id_spec(from_raw@) is Ok && anchor_id_spec(to_raw@) is Ok ==> if anchor_id_spec(
            from_raw@,
        )->Ok_0 == anchor_id_spec(to_raw@)->Ok_0 {
            r matches Err(StoreError::InvalidInput(e)) && e@ == "anchor.to_id must not equal anchor.from_id"@
        } else {
            r matches Ok((f, t)) && f@ == anchor_id_spec(from_raw@)->Ok_0 && t@ == anchor_id_spec(
                to_raw@,
            )->Ok_0
        },
{
    let from_id = match normalize_anchor_id(from_raw) {
        Ok(v) => v,
        Err(e) => {
            return Err(e);
        },
    };
    let to_id = match normalize_anchor_id(to_raw) {
        Ok(v) => v,
        Err(e) => {
            return Err(e);
        },
    };
    let fv = chars_of(from_id.as_str());
    let tv = chars_of(to_id.as_str());
    if chars_eq(fv.as_slice(), tv.as_slice()) {
        return Err(StoreError::InvalidInput("anchor.to_id must not equal anchor.from_id"));
    }
    Ok((from_id, to_id))
}

/// The renamed anchor's fields, and the ids whose references move to the new id.
#[derive(Debug)]
pub struct RenamedAnchor {
    pub refs_json: String,
    pub parent_id: Option<String>,
    pub depends_on_json: String,
    pub rewrite_ids: Vec<String>,
}

fn contains_seq_in(list: &Vec<Vec<char>>, x: &[char]) -> (r: bool)
    ensures
        r == seqs(list@).contains(x@),
{
    let mut i: usize = 0;
    while i < list.len()
        invariant
            i <= list@.len(),
            forall|k: int| 0 <= k < i ==> #[trigger] seqs(list@)[k] != x@,
        decreases list@.len() - i,
    {
        if chars_eq(list[i].as_slice(), x) {
            assert(seqs(list@)[i as int] == x@);
            return true;
        }
        i = i + 1;
    }
    false
}

fn to_char_lists(v: &[String]) -> (r: Vec<Vec<char>>)
    ensures
        seqs(r@) == strs(v@),
{
    let mut out: Vec<Vec<char>> = Vec::new();
    let mut i: usize = 0;
    while i < v.len()
        invariant
            i <= v@.len(),
            seqs(out@) == strs(v@).take(i as int),
        decreases v@.len() - i,
    {
        let ghost before = seqs(out@);
        out.push(chars_of(v[i].as_str()));
        assert(seqs(out@) =~= before.push(v@[i as int]@));
        assert(strs(v@).take(i + 1) =~= strs(v@).take(i as int).push(v@[i as int]@));
        i = i + 1;
    }
    assert(strs(v@).take(v@.len() as int) =~= strs(v@));
    out
}

/// A sorted list without repeats of the given set, as stored.
pub open spec fn stored_as(json: Seq<char>, items: Set<Seq<char>>) -> bool {
    exists|out: Seq<Seq<char>>| sorted_strict(out) && out.to_set() == items && json == json_string_list_spec(out)
}

/// A renamed anchor's own dependencies after the rename: those on the new id or on a renamed
/// id are dropped, and the rest sorted without repeats.
pub fn deps_without_renamed(deps: &Vec<String>, rewrite_ids: &Vec<String>, to_id: &str) -> (r: Vec<String>)
    ensures
        sorted_strict(strs(r@)),
        strs(r@).to_set() == strs(deps@).to_set().filter(
            |d: Seq<char>| d != to_id@ && !strs(rewrite_ids@).to_set().contains(d),
        ),
{
    let to_v = chars_of(to_id);
    let rewrite_sorted = to_char_lists(rewrite_ids.as_slice());
    let ghost rewrite = strs(rewrite_ids@).to_set();
    let mut kept: Vec<Vec<char>> = Vec::new();
    let ghost ds = strs(deps@);
    let ghost keep = |d: Seq<char>| d != to_id@ && !rewrite.contains(d);
    let mut i: usize = 0;
    while i < deps.len()
        invariant
            i <= deps@.len(),
            ds == strs(deps@),
            to_v@ == to_id@,
            seqs(rewrite_sorted@).to_set() == rewrite,
            seqs(rewrite_sorted@) == strs(rewrite_ids@),
            keep == (|d: Seq<char>| d != to_id@ && !rewrite.contains(d)),
            seqs(kept@).to_set() == ds.take(i as int).to_set().filter(keep),
        decreases deps@.len() - i,
    {
        let dv = chars_of(deps[i].as_str());
        let ghost before = seqs(kept@);
        proof {
            assert(ds.take(i + 1) =~= ds.take(i as int).push(ds[i as int]));
            ds.take(i as int).lemma_push_to_set_commute(ds[i as int]);
        }
        let drop = chars_eq(dv.as_slice(), to_v.as_slice()) || contains_seq_in(&rewrite_sorted, dv.as_slice());
        proof {
            if seqs(rewrite_sorted@).contains(dv@) {
                assert(seqs(rewrite_sorted@).to_set().contains(dv@));
            }
            if rewrite.contains(dv@) {
                assert(seqs(rewrite_sorted@).to_set().contains(dv@));
            }
            assert(drop == !keep(dv@));
        }
        if !drop {
            kept.push(dv);
            proof {
                before.lemma_push_to_set_commute(ds[i as int]);
                assert(seqs(kept@) =~= before.push(ds[i as int]));
            }
        }
        assert(seqs(kept@).to_set() =~= ds.take(i + 1).to_set().filter(keep));
        i = i + 1;
    }
    assert(ds.take(deps@.len() as int) =~= ds);
    let deps_sorted = sort_dedup(kept);
    proof {
        assert(seqs(deps_sorted@).to_set() =~= strs(deps@).to_set().filter(keep));
    }
    strings_of(&deps_sorted)
}

/// The renamed anchor's fields, from the old anchor's stored fields and its aliases.
///
/// Fails when the new id is one of the aliases, or a stored list cannot be read (the
/// references first). The references are kept (sorted, once each); the parent is dropped
/// when it is the old id, the new id or an alias; dependencies on those are dropped.
pub fn rename_anchor_fields(
    from_id: &str,
    to_id: &str,
    aliases: &[String],
    refs_json: Option<String>,
    parent_id: Option<String>,
    depends_on_json: Option<String>,
) -> (r: Result<RenamedAnchor, StoreError>)
    ensures
        ({
            let rewrite = strs(aliases@).to_set().insert(from_id@);
            let refs = decode_string_list_spec(
                match refs_json {
                    Some(s) => Some(s@),
                    None => None,
                },
            );
            let deps = decode_string_list_spec(
                match depends_on_json {
                    Some(s) => Some(s@),
                    None => None,
                },
            );
            if strs(aliases@).contains(to_id@) {
                r matches Err(StoreError::InvalidInput(e)) && e@ == "anchor.to_id must not match an existing alias id"@
            } else if refs is Err {
                r matches Err(StoreError::InvalidInput(e)) && e@ == refs->Err_0
            } else if deps is Err {
                r matches Err(StoreError::InvalidInput(e)) && e@ == deps->Err_0
            } else {
                r matches Ok(a) && {
                    &&& stored_as(a.refs_json@, refs->Ok_0.to_set())
                    &&& stored_as(
                        a.depends_on_json@,
                        deps->Ok_0.to_set().filter(|d: Seq<char>| d != to_id@ && !rewrite.contains(d)),
                    )
                    &&& a.parent_id == (match parent_id {
                        Some(p) => if p@ == to_id@ || rewrite.contains(p@) {
                            None
                        } else {
                            Some(p)
                        },
                        None => None,
                    })
                    &&& sorted_strict(strs(a.rewrite_ids@))
                    &&& strs(a.rewrite_ids@).to_set() == rewrite
                }
            }
        }),
{
    let from_v = chars_of(from_id);
    let to_v = chars_of(to_id);
    let alias_lists = to_char_lists(aliases);
    let alias_sorted = sort_dedup(alias_lists);
    if contains_seq_in(&alias_sorted, to_v.as_slice()) {
        proof {
            assert(seqs(alias_sorted@).to_set().contains(to_id@));
        }
        return Err(StoreError::InvalidInput("anchor.to_id must not match an existing alias id"));
    }
    proof {
        if strs(aliases@).contains(to_id@) {
            assert(strs(aliases@).to_set().contains(to_id@));
            assert(seqs(alias_sorted@).to_set().contains(to_id@));
        }
    }
    let mut rewrite_lists = to_char_lists(aliases);
    rewrite_lists.push(chars_of(from_id));
    let ghost rewrite = strs(aliases@).to_set().insert(from_id@);
    proof {
        strs(aliases@).lemma_push_to_set_commute(from_id@);
        assert(seqs(rewrite_lists@) =~= strs(aliases@).push(from_id@));
    }
    let rewrite_sorted = sort_dedup(rewrite_lists);
    let refs = match decode_json_string_list(refs_json) {
        Ok(v) => v,
        Err(e) => {
            return Err(e);
        },
    };
    let deps = match decode_json_string_list(depends_on_json) {
        Ok(v) => v,
        Err(e) => {
            return Err(e);
        },
    };
    let refs_sorted = sort_dedup(to_char_lists(refs.as_slice()));
    let refs_out = encode_json_string_list(strings_of(&refs_sorted).as_slice());
    let parent = match parent_id {
        Some(p) => {
            let pv = chars_of(p.as_str());
            if chars_eq(pv.as_slice(), to_v.as_slice()) || contains_seq_in(&rewrite_sorted, pv.as_slice()) {
                proof {
                    if seqs(rewrite_sorted@).contains(p@) {
                        assert(seqs(rewrite_sorted@).to_set().contains(p@));
                    }
                }
                None
            } else {
                proof {
                    if rewrite.contains(p@) {
                        assert(seqs(rewrite_sorted@).to_set().contains(p@));
                    }
                }
                Some(p)
            }
        },
        None => None,
    };
    let rewrite_strings = strings_of(&rewrite_sorted);
    let deps_kept = deps_without_renamed(&deps, &rewrite_strings, to_id);
    let deps_out = encode_json_string_list(deps_kept.as_slice());
    let rewrite_ids = rewrite_strings;
    proof {
        assert(sorted_strict(seqs(refs_sorted@)) && seqs(refs_sorted@).to_set() == strs(refs@).to_set());
        assert(strs(deps_kept@).to_set() =~= strs(deps@).to_set().filter(
            |d: Seq<char>| d != to_id@ && !rewrite.contains(d),
        ));
    }
    Ok(RenamedAnchor { refs_json: refs_out, parent_id: parent, depends_on_json: deps_out, rewrite_ids })
}

/// Another anchor's dependencies after a rename: every id in `rewrite_ids` becomes `to_id`.
pub open spec fn renamed_deps(deps: Seq<Seq<char>>, rewrite: Set<Seq<char>>, to_id: Seq<char>) -> Seq<Seq<char>> {
    deps.map_values(|d: Seq<char>| if rewrite.contains(d) {
        to_id
    } else {
        d
    })
}

/// Some dependency is one of the renamed ids.
pub open spec fn names_any(ds: Seq<Seq<char>>, rewrite: Set<Seq<char>>) -> bool {
    exists|i: int| 0 <= i < ds.len() && rewrite.contains(#[trigger] ds[i])
}

/// What rewriting a stored dependency list gives: the reading error; or, when some
/// dependency was renamed, the new stored list; or nothing.
pub open spec fn rename_outcome(
    r: Result<Option<String>, StoreError>,
    deps: Result<Seq<Seq<char>>, Seq<char>>,
    rewrite: Set<Seq<char>>,
    to_id: Seq<char>,
) -> bool {
    match deps {
        Err(m) => r matches Err(StoreError::InvalidInput(e)) && e@ == m,
        Ok(ds) => if names_any(ds, rewrite) {
            r matches Ok(Some(j)) && stored_as(j@, renamed_deps(ds, rewrite, to_id).to_set())
        } else {
            r matches Ok(None)
        },
    }
}

/// After a rename no dependency names a renamed id any more (the new id is not one of them).
pub proof fn lemma_renamed_deps_clean(deps: Seq<Seq<char>>, rewrite: Set<Seq<char>>, to_id: Seq<char>)
    requires
        !rewrite.contains(to_id),
    ensures
        forall|i: int| 0 <= i < renamed_deps(deps, rewrite, to_id).len() ==> !rewrite.contains(
            #[trigger] renamed_deps(deps, rewrite, to_id)[i],
        ),
        renamed_deps(deps, rewrite, to_id).len() == deps.len(),
{
}

/// Another anchor's dependency list after a rename: when some dependency names a renamed id,
/// every renamed id becomes `to_id` and the list is sorted without repeats; `None` when no
/// dependency was renamed.
pub fn rename_dep_list(deps: &Vec<String>, rewrite_ids: &[String], to_id: &str) -> (r: Option<Vec<String>>)
    ensures
        ({
            let ds = strs(deps@);
            let rw = strs(rewrite_ids@).to_set();
            if names_any(ds, rw) {
                r matches Some(v) && sorted_strict(strs(v@)) && strs(v@).to_set() == renamed_deps(ds, rw, to_id@).to_set()
            } else {
                r is None
            }
        }),
{
    let ghost ds = strs(deps@);
    let rewrite = to_char_lists(rewrite_ids);
    let to_v = chars_of(to_id);
    let mut out: Vec<Vec<char>> = Vec::new();
    let mut changed = false;
    let mut i: usize = 0;
    while i < deps.len()
        invariant
            i <= deps@.len(),
            ds == strs(deps@),
            to_v@ == to_id@,
            seqs(rewrite@) == strs(rewrite_ids@),
            seqs(out@) == renamed_deps(ds.take(i as int), strs(rewrite_ids@).to_set(), to_id@),
            changed == exists|k: int| 0 <= k < i && strs(rewrite_ids@).to_set().contains(#[trigger] ds[k]),
        decreases deps@.len() - i,
    {
        let dv = chars_of(deps[i].as_str());
        assert(dv@ == ds[i as int]);
        let hit = contains_seq_in(&rewrite, dv.as_slice());
        proof {
            if hit {
                assert(strs(rewrite_ids@).to_set().contains(dv@));
            }
            if strs(rewrite_ids@).to_set().contains(dv@) {
                assert(seqs(rewrite@).contains(dv@));
            }
        }
        let ghost before = seqs(out@);
        if hit {
            out.push(sub_copy(&to_v));
            changed = true;
        } else {
            out.push(dv);
        }
        proof {
            let rw = strs(rewrite_ids@).to_set();
            assert(ds.take(i + 1) =~= ds.take(i as int).push(ds[i as int]));
            assert(renamed_deps(ds.take(i + 1), rw, to_id@) =~= renamed_deps(ds.take(i as int), rw, to_id@).push(
                if rw.contains(ds[i as int]) {
                    to_id@
                } else {
                    ds[i as int]
                },
            ));
            if hit {
                assert(rw.contains(ds[i as int]));
            } else {
                assert forall|k: int| 0 <= k < i + 1 && rw.contains(#[trigger] ds[k]) implies 0 <= k < i by {}
            }
        }
        assert(seqs(out@) =~= renamed_deps(ds.take(i + 1), strs(rewrite_ids@).to_set(), to_id@));
        i = i + 1;
    }
    assert(ds.take(deps@.len() as int) =~= ds);
    if !changed {
        proof {
            let rw = strs(rewrite_ids@).to_set();
            assert(!names_any(ds, rw));
        }
        return None;
    }
    let sorted = sort_dedup(out);
    let v = strings_of(&sorted);
    proof {
        let rw = strs(rewrite_ids@).to_set();
        let k = choose|k: int| 0 <= k < deps@.len() && rw.contains(#[trigger] ds[k]);
        assert(0 <= k < ds.len() && rw.contains(ds[k]));
        assert(seqs(out@) == renamed_deps(ds, rw, to_id@));
        assert(names_any(ds, rw));
    }
    Some(v)
}

/// Rewrites one anchor's stored dependency list after a rename: the stored list is read and
/// rewritten by [`rename_dep_list`]. Gives the new stored list (sorted, once each) when some
/// dependency named a renamed id, and `None` when nothing changed.
pub fn rename_in_depends(raw: Option<String>, rewrite_ids: &[String], to_id: &str) -> (r: Result<
    Option<String>,
    StoreError,
>)
    ensures
        rename_outcome(
            r,
            decode_string_list_spec(crate::graph::opt_view(raw)),
            strs(rewrite_ids@).to_set(),
            to_id@,
        ),
{
    let ghost rv = crate::graph::opt_view(raw);
    let deps = match decode_json_string_list(raw) {
        Ok(v) => v,
        Err(e) => {
            return Err(e);
        },
    };
    match rename_dep_list(&deps, rewrite_ids, to_id) {
        None => Ok(None),
        Some(v) => {
            let j = encode_json_string_list(v.as_slice());
            proof {
                let rw = strs(rewrite_ids@).to_set();
                assert(j@ == json_string_list_spec(strs(v@)));
                assert(stored_as(j@, renamed_deps(strs(deps@), rw, to_id@).to_set()));
            }
            Ok(Some(j))
        },
    }
}

fn sub_copy(v: &Vec<char>) -> (r: Vec<char>)
    ensures
        r@ == v@,
{
    let r = crate::text::sub_chars(v.as_slice(), 0, v.len());
    assert(r@ =~= v@);
    r
}

} // verus!
