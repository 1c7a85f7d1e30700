//! Creating or updating an anchor: the checks on the request, the checks of its aliases
//! against the anchors already stored, and the row that is written.

use vstd::prelude::*;

use super::anchors::{
    anchor_id_spec, anchor_kind_spec, anchor_status_spec, contains_chars_in, normalize_anchor_id,
    normalize_anchor_kind, normalize_anchor_status, normalize_string_list, string_list_spec,
    strings_of, MAX_ANCHOR_TITLE_LEN,
};
use super::error::StoreError;
use crate::graph::opt_view;
use crate::text::{
    chars_eq, chars_of, seqs, sort_dedup, sorted_strict, string_of, strs, trim_seq, trim_str,
    utf8_len, utf8_len_exceeds,
};

verus! {

broadcast use vstd::string::group_string_axioms;

pub const MAX_ANCHOR_DESC_LEN: usize = 280;

pub const MAX_ANCHOR_REFS: usize = 32;

pub const MAX_ANCHOR_ALIASES: usize = 32;

pub const MAX_ANCHOR_DEPENDS: usize = 32;

/// The longest reference an anchor keeps, in bytes.
pub const MAX_ANCHOR_REF_LEN: usize = 220;

/// The longest alias or dependency id an anchor keeps, in bytes.
pub const MAX_ANCHOR_LINK_LEN: usize = 66;

/// An anchor as a caller writes it.
#[derive(Clone, Debug)]
pub struct AnchorUpsertRequest {
    pub id: String,
    pub title: String,
    pub kind: String,
    pub description: Option<String>,
    pub refs: Vec<String>,
    pub aliases: Vec<String>,
    pub parent_id: Option<String>,
    pub depends_on: Vec<String>,
    pub status: String,
}

/// A checked anchor: every field normalized, every list without repeats and sorted.
#[derive(Clone, Debug)]
pub struct AnchorDraft {
    pub id: String,
    pub title: String,
    pub kind: String,
    pub description: Option<String>,
    pub refs: Vec<String>,
    pub aliases: Vec<String>,
    pub parent_id: Option<String>,
    pub depends_on: Vec<String>,
    pub status: String,
}

/// The checked anchor with its lists in the order the request gave them; the stored lists
/// hold the same items, sorted.
pub struct AnchorDraftView {
    pub id: Seq<char>,
    pub title: Seq<char>,
    pub kind: Seq<char>,
    pub description: Option<Seq<char>>,
    pub refs: Seq<Seq<char>>,
    pub aliases: Seq<Seq<char>>,
    pub parent_id: Option<Seq<char>>,
    pub depends_on: Seq<Seq<char>>,
    pub status: Seq<char>,
}

/// A list of at most `max_items` items, trimmed, without blanks or repeats, each at most
/// `max_len` bytes.
pub open spec fn bounded_list_spec(items: Seq<Seq<char>>, max_items: nat, max_len: nat) -> Result<
    Seq<Seq<char>>,
    Seq<char>,
> {
    if items.len() > max_items {
        Err("list exceeds max_items"@)
    } else {
        string_list_spec(items, max_len, "list item is too long"@)
    }
}

/// Each raw id normalized as an anchor id; the first that is not one is the error.
pub open spec fn anchor_ids_spec(raws: Seq<Seq<char>>) -> Result<Seq<Seq<char>>, Seq<char>>
    decreases raws.len(),
{
    if raws.len() == 0 {
        Ok(Seq::empty())
    } else {
        match anchor_ids_spec(raws.drop_last()) {
            Err(m) => Err(m),
            Ok(ids) => match anchor_id_spec(raws.last()) {
                Err(m) => Err(m),
                Ok(v) => Ok(ids.push(v)),
            },
        }
    }
}

/// The trimmed text, when some is left.
pub open spec fn present_trimmed(o: Option<Seq<char>>) -> Option<Seq<char>> {
    match o {
        None => None,
        Some(s) => if trim_seq(s).len() == 0 {
            None
        } else {
            Some(trim_seq(s))
        },
    }
}

/// Normalized links to other anchors: ids first, then the list rules.
pub open spec fn anchor_links_spec(raws: Seq<Seq<char>>, max_items: nat) -> Result<
    Seq<Seq<char>>,
    Seq<char>,
> {
    match anchor_ids_spec(raws) {
        Err(m) => Err(m),
        Ok(ids) => bounded_list_spec(ids, max_items, MAX_ANCHOR_LINK_LEN as nat),
    }
}

/// The checks on an anchor request, in the order they are made, and the anchor they give.
pub open spec fn upsert_spec(req: AnchorUpsertRequest) -> Result<AnchorDraftView, Seq<char>> {
    let title = trim_seq(req.title@);
    let description = present_trimmed(opt_view(req.description));
    match anchor_id_spec(req.id@) {
        Err(m) => Err(m),
        Ok(id) => if title.len() == 0 {
            Err("anchor.title must not be empty"@)
        } else if utf8_len(title) > MAX_ANCHOR_TITLE_LEN {
            Err("anchor.title is too long"@)
        } else {
            match anchor_kind_spec(req.kind@) {
                Err(m) => Err(m),
                Ok(kind) => if description matches Some(d) && utf8_len(d) > MAX_ANCHOR_DESC_LEN {
                    Err("anchor.description is too long"@)
                } else {
                    match bounded_list_spec(
                        strs(req.refs@),
                        MAX_ANCHOR_REFS as nat,
                        MAX_ANCHOR_REF_LEN as nat,
                    ) {
                        Err(m) => Err(m),
                        Ok(refs) => match anchor_links_spec(
                            strs(req.aliases@),
                            MAX_ANCHOR_ALIASES as nat,
                        ) {
                            Err(m) => Err(m),
                            Ok(aliases) => if aliases.contains(id) {
                                Err("anchor.aliases must not include anchor.id"@)
                            } else {
                                let parent = match opt_view(req.parent_id) {
                                    None => Ok(None),
                                    Some(p) => match anchor_id_spec(p) {
                                        Err(m) => Err(m),
                                        Ok(v) => Ok(Some(v)),
                                    },
                                };
                                match parent {
                                    Err(m) => Err(m),
                                    Ok(parent_id) => if parent_id == Some(id) {
                                        Err("anchor.parent_id must not equal anchor.id"@)
                                    } else {
                                        match anchor_links_spec(
                                            strs(req.depends_on@),
                                            MAX_ANCHOR_DEPENDS as nat,
                                        ) {
                                            Err(m) => Err(m),
                                            Ok(depends_on) => if depends_on.contains(id) {
                                                Err("anchor.depends_on must not include anchor.id"@)
                                            } else {
                                                match anchor_status_spec(req.status@) {
                                                    Err(m) => Err(m),
                                                    Ok(status) => Ok(
                                                        AnchorDraftView {
                                                            id,
                                                            title,
                                                            kind,
                                                            description,
                                                            refs,
                                                            aliases,
                                                            parent_id,
                                                            depends_on,
                                                            status,
                                                        },
                                                    ),
                                                }
                                            },
                                        }
                                    },
                                }
                            },
                        },
                    }
                },
            }
        },
    }
}

/// `a` holds the items of `b`, sorted and once each.
pub open spec fn sorted_from(a: Seq<Seq<char>>, b: Seq<Seq<char>>) -> bool {
    sorted_strict(a) && a.to_set() == b.to_set()
}

/// The stored draft `d` is the checked anchor `v`, lists sorted.
pub open spec fn draft_matches(d: AnchorDraft, v: AnchorDraftView) -> bool {
    &&& d.id@ == v.id
    &&& d.title@ == v.title
    &&& d.kind@ == v.kind
    &&& opt_view(d.description) == v.description
    &&& sorted_from(strs(d.refs@), v.refs)
    &&& sorted_from(strs(d.aliases@), v.aliases)
    &&& opt_view(d.parent_id) == v.parent_id
    &&& sorted_from(strs(d.depends_on@), v.depends_on)
    &&& d.status@ == v.status
}

/// Once an id fails, later ones do not change the error.
proof fn lemma_ids_error_sticks(raws: Seq<Seq<char>>, k: int)
    requires
        0 <= k <= raws.len(),
        anchor_ids_spec(raws.take(k)) is Err,
    ensures
        anchor_ids_spec(raws) == anchor_ids_spec(raws.take(k)),
    decreases raws.len() - k,
{
    if k < raws.len() {
        assert(raws.take(k + 1).drop_last() =~= raws.take(k));
        lemma_ids_error_sticks(raws, k + 1);
    } else {
        assert(raws.take(k) =~= raws);
    }
}

pub(crate) fn anchor_ids_of(raws: &Vec<String>) -> (r: Result<Vec<String>, StoreError>)
    ensures
        match (r, anchor_ids_spec(strs(raws@))) {
            (Ok(v), Ok(w)) => strs(v@) == w,
            (Err(StoreError::InvalidInput(m)), Err(w)) => m@ == w,
            _ => false,
        },
{
    let mut out: Vec<String> = Vec::new();
    let mut i: usize = 0;
    assert(strs(raws@).take(0) =~= Seq::<Seq<char>>::empty());
    assert(strs(out@) =~= Seq::<Seq<char>>::empty());
    while i < raws.len()
        invariant
            i <= raws@.len(),
            anchor_ids_spec(strs(raws@).take(i as int)) == Ok::<Seq<Seq<char>>, Seq<char>>(
                strs(out@),
            ),
        decreases raws@.len() - i,
    {
        assert(strs(raws@).take(i + 1).drop_last() =~= strs(raws@).take(i as int));
        assert(strs(raws@).take(i + 1).last() == raws@[i as int]@);
        match normalize_anchor_id(raws[i].as_str()) {
            Ok(v) => {
                let ghost before = strs(out@);
                out.push(v);
                assert(strs(out@) =~= before.push(out@.last()@));
            },
            Err(e) => {
                proof {
                    lemma_ids_error_sticks(strs(raws@), i + 1);
                }
                return Err(e);
            },
        }
        i = i + 1;
    }
    assert(strs(raws@).take(raws@.len() as int) =~= strs(raws@));
    Ok(out)
}

/// Whether `x` is among `v`.
pub(crate) fn strings_contain(v: &Vec<String>, x: &String) -> (r: bool)
    ensures
        r == strs(v@).contains(x@),
{
    let xs = chars_of(x.as_str());
    let mut i: usize = 0;
    while i < v.len()
        invariant
            i <= v@.len(),
            xs@ == x@,
            forall|k: int| 0 <= k < i ==> strs(v@)[k] != x@,
        decreases v@.len() - i,
    {
        let c = chars_of(v[i].as_str());
        if chars_eq(c.as_slice(), xs.as_slice()) {
            assert(strs(v@)[i as int] == x@);
            return true;
        }
        i = i + 1;
    }
    false
}

/// The items of `v`, sorted and once each.
pub fn sorted_strings(v: &Vec<String>) -> (r: Vec<String>)
    ensures
        sorted_from(strs(r@), strs(v@)),
{
    let mut cs: Vec<Vec<char>> = Vec::new();
    let mut i: usize = 0;
    while i < v.len()
        invariant
            i <= v@.len(),
            seqs(cs@) == strs(v@).take(i as int),
        decreases v@.len() - i,
    {
        let ghost before = seqs(cs@);
        cs.push(chars_of(v[i].as_str()));
        assert(seqs(cs@) =~= before.push(v@[i as int]@));
        i = i + 1;
        assert(seqs(cs@) =~= strs(v@).take(i as int));
    }
    assert(strs(v@).take(v@.len() as int) =~= strs(v@));
    let sorted = sort_dedup(cs);
    strings_of(&sorted)
}

fn trimmed_present_of(o: &Option<String>) -> (r: Option<String>)
    ensures
        opt_view(r) == present_trimmed(opt_view(*o)),
{
    match o {
        None => None,
        Some(s) => {
            let t = trim_str(s.as_str());
            if t.len() == 0 {
                None
            } else {
                Some(string_of(t.as_slice()))
            }
        },
    }
}

/// Checks an anchor request and normalizes it.
pub fn check_anchor_upsert(request: &AnchorUpsertRequest) -> (r: Result<AnchorDraft, StoreError>)
    ensures
        match (r, upsert_spec(*request)) {
            (Ok(d), Ok(v)) => draft_matches(d, v),
            (Err(StoreError::InvalidInput(m)), Err(w)) => m@ == w,
            _ => false,
        },
{
    let id = normalize_anchor_id(request.id.as_str())?;
    let title = trim_str(request.title.as_str());
    if title.len() == 0 {
        return Err(StoreError::InvalidInput("anchor.title must not be empty"));
    }
    if utf8_len_exceeds(title.as_slice(), MAX_ANCHOR_TITLE_LEN) {
        return Err(StoreError::InvalidInput("anchor.title is too long"));
    }
    let kind = normalize_anchor_kind(request.kind.as_str())?;
    let description = trimmed_present_of(&request.description);
    match &description {
        Some(d) => {
            let dc = chars_of(d.as_str());
            if utf8_len_exceeds(dc.as_slice(), MAX_ANCHOR_DESC_LEN) {
                return Err(StoreError::InvalidInput("anchor.description is too long"));
            }
        },
        None => {},
    }
    let refs = normalize_string_list(request.refs.clone(), MAX_ANCHOR_REFS, MAX_ANCHOR_REF_LEN)?;
    let alias_ids = anchor_ids_of(&request.aliases)?;
    let aliases = normalize_string_list(alias_ids, MAX_ANCHOR_ALIASES, MAX_ANCHOR_LINK_LEN)?;
    if strings_contain(&aliases, &id) {
        return Err(StoreError::InvalidInput("anchor.aliases must not include anchor.id"));
    }
    let parent_id = match &request.parent_id {
        None => None,
        Some(p) => Some(normalize_anchor_id(p.as_str())?),
    };
    match &parent_id {
        Some(p) => {
            let pc = chars_of(p.as_str());
            let ic = chars_of(id.as_str());
            if chars_eq(pc.as_slice(), ic.as_slice()) {
                return Err(StoreError::InvalidInput("anchor.parent_id must not equal anchor.id"));
            }
        },
        None => {},
    }
    let dep_ids = anchor_ids_of(&request.depends_on)?;
    let depends_on = normalize_string_list(dep_ids, MAX_ANCHOR_DEPENDS, MAX_ANCHOR_LINK_LEN)?;
    if strings_contain(&depends_on, &id) {
        return Err(StoreError::InvalidInput("anchor.depends_on must not include anchor.id"));
    }
    let status = normalize_anchor_status(request.status.as_str())?;
    Ok(
        AnchorDraft {
            id,
            title: string_of(title.as_slice()),
            kind,
            description,
            refs: sorted_strings(&refs),
            aliases: sorted_strings(&aliases),
            parent_id,
            depends_on: sorted_strings(&depends_on),
            status,
        },
    )
}

/// What the store holds for one alias of the anchor being written: whether an anchor has
/// that id, and which anchor the alias belongs to, if any.
#[derive(Clone, Debug)]
pub struct AliasStanding {
    pub is_anchor_id: bool,
    pub owner: Option<String>,
}

/// The refusal for the first alias that is taken: by an anchor with that id, or by another
/// anchor that owns it.
pub open spec fn alias_refusal(id: Seq<char>, standings: Seq<AliasStanding>) -> Option<Seq<char>>
    decreases standings.len(),
{
    if standings.len() == 0 {
        None
    } else if standings[0].is_anchor_id {
        Some("anchor.aliases must not include an existing anchor id"@)
    } else if standings[0].owner matches Some(o) && o@ != id {
        Some("anchor.aliases contains an alias owned by another anchor"@)
    } else {
        alias_refusal(id, standings.drop_first())
    }
}

/// Checks the aliases of anchor `id` against the store: `standings[i]` is what the store
/// holds for the i-th alias.
pub fn check_alias_standings(id: &String, standings: &[AliasStanding]) -> (r: Result<(), StoreError>)
    ensures
        match (r, alias_refusal(id@, standings@)) {
            (Ok(()), None) => true,
            (Err(StoreError::InvalidInput(m)), Some(w)) => m@ == w,
            _ => false,
        },
{
    let ic = chars_of(id.as_str());
    let mut i: usize = 0;
    assert(standings@.skip(0) =~= standings@);
    while i < standings.len()
        invariant
            i <= standings@.len(),
            ic@ == id@,
            alias_refusal(id@, standings@) == alias_refusal(id@, standings@.skip(i as int)),
        decreases standings@.len() - i,
    {
        assert(standings@.skip(i as int).drop_first() =~= standings@.skip(i + 1));
        assert(standings@.skip(i as int)[0] == standings@[i as int]);
        if standings[i].is_anchor_id {
            return Err(StoreError::InvalidInput("anchor.aliases must not include an existing anchor id"));
        }
        match &standings[i].owner {
            Some(o) => {
                let oc = chars_of(o.as_str());
                if !chars_eq(oc.as_slice(), ic.as_slice()) {
                    return Err(
                        StoreError::InvalidInput("anchor.aliases contains an alias owned by another anchor"),
                    );
                }
            },
            None => {},
        }
        i = i + 1;
    }
    Ok(())
}

/// An anchor as it is stored.
#[derive(Clone, Debug)]
pub struct AnchorRow {
    pub id: String,
    pub title: String,
    pub kind: String,
    pub description: Option<String>,
    pub refs: Vec<String>,
    pub aliases: Vec<String>,
    pub parent_id: Option<String>,
    pub depends_on: Vec<String>,
    pub status: String,
    pub created_at_ms: i64,
    pub updated_at_ms: i64,
}

/// The written anchor, and whether it is new.
#[derive(Clone, Debug)]
pub struct AnchorUpsertResult {
    pub anchor: AnchorRow,
    pub created: bool,
}

/// The row written for `draft` at `now_ms`: an existing anchor keeps its creation time
/// (`existing_created_at_ms`), a new one is created now.
pub fn anchor_upsert_row(draft: AnchorDraft, existing_created_at_ms: Option<i64>, now_ms: i64) -> (r:
    AnchorUpsertResult)
    ensures
        r.created == existing_created_at_ms is None,
        r.anchor.created_at_ms == match existing_created_at_ms {
            Some(t) => t,
            None => now_ms,
        },
        r.anchor.updated_at_ms == now_ms,
        r.anchor.id == draft.id,
        r.anchor.title == draft.title,
        r.anchor.kind == draft.kind,
        r.anchor.description == draft.description,
        r.anchor.refs == draft.refs,
        r.anchor.aliases == draft.aliases,
        r.anchor.parent_id == draft.parent_id,
        r.anchor.depends_on == draft.depends_on,
        r.anchor.status == draft.status,
{
    let created_at_ms = match existing_created_at_ms {
        Some(t) => t,
        None => now_ms,
    };
    AnchorUpsertResult {
        anchor: AnchorRow {
            id: draft.id,
            title: draft.title,
            kind: draft.kind,
            description: draft.description,
            refs: draft.refs,
            aliases: draft.aliases,
            parent_id: draft.parent_id,
            depends_on: draft.depends_on,
            status: draft.status,
            created_at_ms,
            updated_at_ms: now_ms,
        },
        created: existing_created_at_ms.is_none(),
    }
}

/// A checked anchor never links to itself: it is not its own alias, parent or dependency,
/// and each of its lists holds an item at most once.
pub proof fn lemma_draft_never_self_linked(req: AnchorUpsertRequest)
    requires
        upsert_spec(req) is Ok,
    ensures
        ({
            let v = upsert_spec(req)->Ok_0;
            &&& !v.aliases.contains(v.id)
            &&& !v.depends_on.contains(v.id)
            &&& v.parent_id != Some(v.id)
            &&& v.refs.no_duplicates()
            &&& v.aliases.no_duplicates()
            &&& v.depends_on.no_duplicates()
        }),
{
    let v = upsert_spec(req)->Ok_0;
    lemma_string_list_distinct(strs(req.refs@), MAX_ANCHOR_REF_LEN as nat, "list item is too long"@);
    let alias_ids = anchor_ids_spec(strs(req.aliases@))->Ok_0;
    lemma_string_list_distinct(alias_ids, MAX_ANCHOR_LINK_LEN as nat, "list item is too long"@);
    let dep_ids = anchor_ids_spec(strs(req.depends_on@))->Ok_0;
    lemma_string_list_distinct(dep_ids, MAX_ANCHOR_LINK_LEN as nat, "list item is too long"@);
}

/// A normalized list holds each item once.
pub proof fn lemma_string_list_distinct(items: Seq<Seq<char>>, max_len: nat, too_long: Seq<char>)
    requires
        string_list_spec(items, max_len, too_long) is Ok,
    ensures
        string_list_spec(items, max_len, too_long)->Ok_0.no_duplicates(),
    decreases items.len(),
{
    if items.len() > 0 {
        lemma_string_list_distinct(items.drop_last(), max_len, too_long);
        let out = string_list_spec(items.drop_last(), max_len, too_long)->Ok_0;
        let t = trim_seq(items.last());
        if t.len() > 0 && !out.contains(t) {
            let o2 = out.push(t);
            assert forall|i: int, j: int| 0 <= i < o2.len() && 0 <= j < o2.len() && i != j implies o2[i]
                != o2[j] by {
                if i == out.len() as int {
                    assert(out[j] == o2[j]);
                } else if j == out.len() as int {
                    assert(out[i] == o2[i]);
                }
            }
        }
    }
}

} // verus!
