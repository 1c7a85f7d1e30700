//! Merging notes from one branch's document into another's: which entries of the diff are
//! merged, the key each merged note is recorded under (so that a note is merged once), and
//! the counts reported back.

use vstd::prelude::*;

use crate::model::{DocEntryKind, DocEntryRow, MergeNotesResult};
use crate::num::{dec_int, i64_to_dec};
use crate::text::{append_chars, append_str, string_of};

verus! {

broadcast use vstd::string::group_string_axioms;

/// The key a note merged from `from_branch` is recorded under in the target document:
/// `merge:<from_branch>:<seq>`.
pub open spec fn note_merge_key_spec(from_branch: Seq<char>, seq: i64) -> Seq<char> {
    "merge:"@ + from_branch + ":"@ + dec_int(seq as int)
}

pub fn note_merge_key(from_branch: &str, seq: i64) -> (r: String)
    ensures
        r@ == note_merge_key_spec(from_branch@, seq),
{
    let mut out: Vec<char> = Vec::new();
    append_str(&mut out, "merge:");
    append_str(&mut out, from_branch);
    append_str(&mut out, ":");
    let d = i64_to_dec(seq);
    append_chars(&mut out, d.as_slice());
    string_of(out.as_slice())
}

/// Only notes with content are merged; events and empty entries are skipped.
pub open spec fn is_note_candidate(e: DocEntryRow) -> bool {
    e.kind == DocEntryKind::Note && e.content is Some
}

/// For each entry of the diff, the key to merge it under, or `None` when it is skipped.
pub fn note_merge_plan(entries: &[DocEntryRow], from_branch: &str) -> (r: Vec<Option<String>>)
    ensures
        r@.len() == entries@.len(),
        forall|i: int|
            0 <= i < entries@.len() ==> (r@[i] is Some <==> is_note_candidate(#[trigger] entries@[i])),
        forall|i: int|
            0 <= i < entries@.len() ==> (#[trigger] r@[i] matches Some(k) ==> k@
                == note_merge_key_spec(from_branch@, entries@[i].seq)),
{
    let mut r: Vec<Option<String>> = Vec::new();
    let mut i: usize = 0;
    while i < entries.len()
        invariant
            i <= entries@.len(),
            r@.len() == i,
            forall|k: int| 0 <= k < i ==> (r@[k] is Some <==> is_note_candidate(#[trigger] entries@[k])),
            forall|k: int|
                0 <= k < i ==> (#[trigger] r@[k] matches Some(key) ==> key@ == note_merge_key_spec(
                    from_branch@,
                    entries@[k].seq,
                )),
        decreases entries@.len() - i,
    {
        let e = &entries[i];
        if e.kind == DocEntryKind::Note && e.content.is_some() {
            r.push(Some(note_merge_key(from_branch, e.seq)));
        } else {
            r.push(None);
        }
        i = i + 1;
    }
    r
}

/// How many planned entries landed: merged ones in a real run, new ones in a dry run.
pub open spec fn count_landed(plan: Seq<Option<String>>, landed: Seq<bool>) -> nat
    decreases plan.len(),
{
    if plan.len() == 0 {
        0
    } else {
        count_landed(plan.drop_last(), landed.take(plan.len() - 1)) + if plan.last() is Some
            && landed[plan.len() - 1] {
            1nat
        } else {
            0nat
        }
    }
}

proof fn lemma_count_landed_bound(plan: Seq<Option<String>>, landed: Seq<bool>)
    requires
        landed.len() == plan.len(),
    ensures
        count_landed(plan, landed) <= plan.len(),
    decreases plan.len(),
{
    if plan.len() > 0 {
        lemma_count_landed_bound(plan.drop_last(), landed.take(plan.len() - 1));
    }
}

/// The counts of a notes merge over a diff page: `plan` from [`note_merge_plan`], and
/// `landed[i]` whether the i-th planned note was inserted (in a dry run: whether the target
/// does not hold it yet). Every entry of the page is counted once, as merged or skipped.
pub fn tally_notes_merge(
    plan: &[Option<String>],
    landed: &[bool],
    next_cursor: Option<i64>,
    has_more: bool,
) -> (r: MergeNotesResult)
    requires
        landed@.len() == plan@.len(),
    ensures
        r.merged == count_landed(plan@, landed@),
        r.merged + r.skipped == plan@.len(),
        r.count == plan@.len(),
        r.next_cursor == next_cursor,
        r.has_more == has_more,
{
    let mut merged: usize = 0;
    let mut i: usize = 0;
    while i < plan.len()
        invariant
            i <= plan@.len(),
            landed@.len() == plan@.len(),
            merged == count_landed(plan@.take(i as int), landed@.take(i as int)),
            merged <= i,
        decreases plan@.len() - i,
    {
        proof {
            assert(plan@.take(i + 1).drop_last() =~= plan@.take(i as int));
            assert(landed@.take(i + 1).take(i as int) =~= landed@.take(i as int));
            lemma_count_landed_bound(plan@.take(i as int), landed@.take(i as int));
        }
        if plan[i].is_some() && landed[i] {
            merged = merged + 1;
        }
        i = i + 1;
    }
    proof {
        assert(plan@.take(plan@.len() as int) =~= plan@);
        assert(landed@.take(plan@.len() as int) =~= landed@);
    }
    MergeNotesResult { merged, skipped: plan.len() - merged, count: plan.len(), next_cursor, has_more }
}

} // verus!
