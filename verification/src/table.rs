//! Id discipline shared by every in-memory table: records carry unique
//! ids, all below the table's counter, so that resolving an id is
//! well-defined and a fresh id can never collide.

use vstd::prelude::*;

verus! {

/// No two records carry the same id.
pub open spec fn spec_ids_unique<V>(s: Seq<V>, id_of: spec_fn(V) -> u64) -> bool {
    forall|i: int, j: int| 0 <= i < j < s.len() ==> id_of(s[i]) != id_of(s[j])
}

/// Every record's id is below the counter `b`.
pub open spec fn spec_ids_below<V>(s: Seq<V>, id_of: spec_fn(V) -> u64, b: u64) -> bool {
    forall|i: int| 0 <= i < s.len() ==> id_of(#[trigger] s[i]) < b
}

/// Appending a record with the current counter value keeps ids unique
/// and below any larger counter.
pub proof fn lemma_ids_push<V>(s: Seq<V>, id_of: spec_fn(V) -> u64, b: u64, x: V, b2: u64)
    requires
        spec_ids_unique(s, id_of),
        spec_ids_below(s, id_of, b),
        id_of(x) == b,
        b < b2,
    ensures
        spec_ids_unique(s.push(x), id_of),
        spec_ids_below(s.push(x), id_of, b2),
{
    let t = s.push(x);
    assert forall|i: int, j: int| 0 <= i < j < t.len() implies id_of(t[i]) != id_of(t[j]) by {
        if j < s.len() {
            assert(id_of(s[i]) != id_of(s[j]));
        } else {
            assert(id_of(s[i]) < b);
        }
    }
    assert forall|i: int| 0 <= i < t.len() implies id_of(#[trigger] t[i]) < b2 by {
        if i < s.len() {
            assert(id_of(s[i]) < b);
        }
    }
}

/// Replacing a record without changing its id keeps ids unique and
/// below the counter.
pub proof fn lemma_ids_update<V>(s: Seq<V>, id_of: spec_fn(V) -> u64, b: u64, i: int, x: V)
    requires
        spec_ids_unique(s, id_of),
        spec_ids_below(s, id_of, b),
        0 <= i < s.len(),
        id_of(x) == id_of(s[i]),
    ensures
        spec_ids_unique(s.update(i, x), id_of),
        spec_ids_below(s.update(i, x), id_of, b),
{
    let t = s.update(i, x);
    assert forall|p: int, q: int| 0 <= p < q < t.len() implies id_of(t[p]) != id_of(t[q]) by {
        assert(id_of(s[p]) != id_of(s[q]));
    }
    assert forall|p: int| 0 <= p < t.len() implies id_of(#[trigger] t[p]) < b by {
        assert(id_of(s[p]) < b);
    }
}

/// A growing counter keeps ids below it.
pub proof fn lemma_ids_below_widen<V>(s: Seq<V>, id_of: spec_fn(V) -> u64, b: u64, b2: u64)
    requires
        spec_ids_below(s, id_of, b),
        b <= b2,
    ensures
        spec_ids_below(s, id_of, b2),
{
}

/// Index of the first record satisfying `p`, if any.
pub open spec fn spec_first_where<V>(s: Seq<V>, p: spec_fn(V) -> bool) -> Option<int>
    decreases s.len(),
{
    if s.len() == 0 {
        None
    } else if p(s[0]) {
        Some(0int)
    } else {
        match spec_first_where(s.skip(1), p) {
            Some(i) => Some(i + 1),
            None => None,
        }
    }
}

/// A record satisfying `p`, with none before it, is the first match.
pub proof fn lemma_first_where_at<V>(s: Seq<V>, p: spec_fn(V) -> bool, i: int)
    requires
        0 <= i < s.len(),
        p(s[i]),
        forall|k: int| 0 <= k < i ==> !p(#[trigger] s[k]),
    ensures
        spec_first_where(s, p) == Some(i),
    decreases i,
{
    if i == 0 {
    } else {
        assert(!p(s[0]));
        assert(s.skip(1)[i - 1] == s[i]);
        assert forall|k: int| 0 <= k < i - 1 implies !p(#[trigger] s.skip(1)[k]) by {
            assert(s.skip(1)[k] == s[k + 1]);
        }
        lemma_first_where_at(s.skip(1), p, i - 1);
    }
}

/// With no record satisfying `p`, there is no first match.
pub proof fn lemma_first_where_none<V>(s: Seq<V>, p: spec_fn(V) -> bool)
    requires
        forall|k: int| 0 <= k < s.len() ==> !p(#[trigger] s[k]),
    ensures
        spec_first_where(s, p) == None::<int>,
    decreases s.len(),
{
    if s.len() > 0 {
        assert forall|k: int| 0 <= k < s.skip(1).len() implies !p(#[trigger] s.skip(1)[k]) by {
            assert(s.skip(1)[k] == s[k + 1]);
        }
        lemma_first_where_none(s.skip(1), p);
    }
}

/// The first match, when it exists, is in range and satisfies `p`.
pub proof fn lemma_first_where_props<V>(s: Seq<V>, p: spec_fn(V) -> bool)
    ensures
        match spec_first_where(s, p) {
            Some(i) => 0 <= i < s.len() && p(s[i]),
            None => forall|k: int| 0 <= k < s.len() ==> !p(#[trigger] s[k]),
        },
    decreases s.len(),
{
    if s.len() > 0 && !p(s[0]) {
        lemma_first_where_props(s.skip(1), p);
        assert forall|k: int| 0 <= k < s.len() && spec_first_where(s, p) is None implies !p(
            #[trigger] s[k],
        ) by {
            if k > 0 {
                assert(s.skip(1)[k - 1] == s[k]);
            }
        }
        if spec_first_where(s.skip(1), p) is Some {
            let j = spec_first_where(s.skip(1), p)->0;
            assert(s.skip(1)[j] == s[j + 1]);
        }
    }
}

/// With unique ids, two indices carrying the same id coincide.
pub proof fn lemma_ids_index_unique<V>(s: Seq<V>, id_of: spec_fn(V) -> u64, i: int, j: int)
    requires
        spec_ids_unique(s, id_of),
        0 <= i < s.len(),
        0 <= j < s.len(),
        id_of(s[i]) == id_of(s[j]),
    ensures
        i == j,
{
    if i < j {
        assert(id_of(s[i]) != id_of(s[j]));
    } else if j < i {
        assert(id_of(s[j]) != id_of(s[i]));
    }
}

} // verus!
