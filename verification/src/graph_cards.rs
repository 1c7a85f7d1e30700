//! Opening a card of the graph: the cards it supports and the cards it blocks.

use vstd::prelude::*;

use crate::store::anchors::strings_of;
use crate::text::{chars_eq, chars_eq_str, chars_of, seqs, sort_dedup, sorted_strict, strs};

verus! {

broadcast use vstd::string::group_string_axioms;

/// The key of an edge: where it starts, its relation, where it ends.
#[derive(Clone, Debug)]
pub struct GraphEdgeKey {
    pub from: String,
    pub rel: String,
    pub to: String,
}

/// The targets of the edges that start at `card` with relation `rel`.
pub open spec fn linked_targets(card: Seq<char>, keys: Seq<GraphEdgeKey>, rel: Seq<char>) -> Set<Seq<char>> {
    Set::new(
        |t: Seq<char>|
            exists|i: int|
                0 <= i < keys.len() && keys[i].from@ == card && keys[i].rel@ == rel && #[trigger] keys[i].to@
                    == t,
    )
}

/// The cards that `card_id` supports and the cards it blocks, each sorted and once, from the
/// keys of the edges around it (edges that end at it, or have another relation, are left
/// out).
pub fn card_links(card_id: &str, keys: &[GraphEdgeKey]) -> (r: (Vec<String>, Vec<String>))
    ensures
        sorted_strict(strs(r.0@)),
        strs(r.0@).to_set() == linked_targets(card_id@, keys@, "supports"@),
        sorted_strict(strs(r.1@)),
        strs(r.1@).to_set() == linked_targets(card_id@, keys@, "blocks"@),
{
    let card = chars_of(card_id);
    let mut supports: Vec<Vec<char>> = Vec::new();
    let mut blocks: Vec<Vec<char>> = Vec::new();
    let mut i: usize = 0;
    while i < keys.len()
        invariant
            i <= keys@.len(),
            card@ == card_id@,
            forall|t: Seq<char>|
                seqs(supports@).contains(t) <==> exists|k: int|
                    0 <= k < i && keys@[k].from@ == card_id@ && keys@[k].rel@ == "supports"@
                        && #[trigger] keys@[k].to@ == t,
            forall|t: Seq<char>|
                seqs(blocks@).contains(t) <==> exists|k: int|
                    0 <= k < i && keys@[k].from@ == card_id@ && keys@[k].rel@ == "blocks"@
                        && #[trigger] keys@[k].to@ == t,
        decreases keys@.len() - i,
    {
        let from = chars_of(keys[i].from.as_str());
        let rel = chars_of(keys[i].rel.as_str());
        let ghost s_before = seqs(supports@);
        let ghost b_before = seqs(blocks@);
        let mine = chars_eq(from.as_slice(), card.as_slice());
        let is_supports = chars_eq_str(rel.as_slice(), "supports");
        let is_blocks = chars_eq_str(rel.as_slice(), "blocks");
        if mine && is_supports {
            supports.push(chars_of(keys[i].to.as_str()));
            assert(seqs(supports@) =~= s_before.push(keys@[i as int].to@));
        }
        if mine && is_blocks {
            blocks.push(chars_of(keys[i].to.as_str()));
            assert(seqs(blocks@) =~= b_before.push(keys@[i as int].to@));
        }
        proof {
            let key = keys@[i as int];
            assert(seqs(supports@) =~= if key.from@ == card_id@ && key.rel@ == "supports"@ {
                s_before.push(key.to@)
            } else {
                s_before
            });
            assert(seqs(blocks@) =~= if key.from@ == card_id@ && key.rel@ == "blocks"@ {
                b_before.push(key.to@)
            } else {
                b_before
            });
            assert forall|t: Seq<char>|
                seqs(supports@).contains(t) <==> exists|k: int|
                    0 <= k < i + 1 && keys@[k].from@ == card_id@ && keys@[k].rel@ == "supports"@
                        && #[trigger] keys@[k].to@ == t by {
                if seqs(supports@).contains(t) && !s_before.contains(t) {
                    assert(keys@[i as int].to@ == t);
                }
                if exists|k: int|
                    0 <= k < i + 1 && keys@[k].from@ == card_id@ && keys@[k].rel@ == "supports"@
                        && #[trigger] keys@[k].to@ == t {
                    let k = choose|k: int|
                        0 <= k < i + 1 && keys@[k].from@ == card_id@ && keys@[k].rel@ == "supports"@
                            && #[trigger] keys@[k].to@ == t;
                    if k == i {
                        assert(seqs(supports@).last() == t);
                    } else {
                        assert(s_before.contains(t));
                        let j = choose|j: int| 0 <= j < s_before.len() && s_before[j] == t;
                        assert(seqs(supports@)[j] == t);
                    }
                }
            }
            assert forall|t: Seq<char>|
                seqs(blocks@).contains(t) <==> exists|k: int|
                    0 <= k < i + 1 && keys@[k].from@ == card_id@ && keys@[k].rel@ == "blocks"@
                        && #[trigger] keys@[k].to@ == t by {
                if seqs(blocks@).contains(t) && !b_before.contains(t) {
                    assert(keys@[i as int].to@ == t);
                }
                if exists|k: int|
                    0 <= k < i + 1 && keys@[k].from@ == card_id@ && keys@[k].rel@ == "blocks"@
                        && #[trigger] keys@[k].to@ == t {
                    let k = choose|k: int|
                        0 <= k < i + 1 && keys@[k].from@ == card_id@ && keys@[k].rel@ == "blocks"@
                            && #[trigger] keys@[k].to@ == t;
                    if k == i {
                        assert(seqs(blocks@).last() == t);
                    } else {
                        assert(b_before.contains(t));
                        let j = choose|j: int| 0 <= j < b_before.len() && b_before[j] == t;
                        assert(seqs(blocks@)[j] == t);
                    }
                }
            }
        }
        i = i + 1;
    }
    let s = sort_dedup(supports);
    let b = sort_dedup(blocks);
    proof {
        assert(seqs(supports@).to_set() =~= linked_targets(card_id@, keys@, "supports"@));
        assert(seqs(blocks@).to_set() =~= linked_targets(card_id@, keys@, "blocks"@));
    }
    (strings_of(&s), strings_of(&b))
}

} // verus!
