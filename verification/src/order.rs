use vstd::prelude::*;
use vstd::std_specs::cmp::OrdSpec;

use crate::model::CellKey;

verus! {

/// `a` comes before `b` in row-major order.
pub open spec fn key_before(a: CellKey, b: CellKey) -> bool {
    a.0 < b.0 || (a.0 == b.0 && a.1 < b.1)
}

/// The order `BTreeMap` keeps `(y, x)` keys in is row-major order.
pub proof fn lemma_key_order(a: CellKey, b: CellKey)
    ensures
        (a.cmp_spec(&b) is Less) == key_before(a, b),
{
}

/// A sequence of keys that `BTreeMap` reports increasing is in row-major order.
pub proof fn lemma_increasing_keys(s: Seq<CellKey>)
    requires
        vstd::std_specs::btree::increasing_seq(s),
    ensures
        forall|j: int, k: int| 0 <= j < k < s.len() ==> key_before(#[trigger] s[j], #[trigger] s[k]),
{
    broadcast use vstd::std_specs::btree::axiom_increasing_seq_meaning;
    assert forall|j: int, k: int| 0 <= j < k < s.len() implies key_before(#[trigger] s[j], #[trigger] s[k]) by {
        lemma_key_order(s[j], s[k]);
    }
}

} // verus!
