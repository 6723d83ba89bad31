//! Shared pagination plumbing: the page envelope every list operation
//! returns, the window a 1-based page selects out of a filtered sequence,
//! and the sequence lemmas the store loops rely on.

use vstd::prelude::*;

verus! {

/// One page of a filtered listing.
pub struct Page<T> {
    /// 1-based number of the page returned.
    pub page_number: u64,
    /// Requested page size.
    pub page_size: u64,
    /// Number of records in the whole filtered listing.
    pub total_size: u64,
    /// The records of this page.
    pub records: Vec<T>,
}

/// Start index of the 1-based page `pn` of size `ps` in a listing of
/// length `len`, clamped to the end.
pub open spec fn spec_page_lo(len: nat, pn: u64, ps: u64) -> int {
    let raw = if pn >= 1 {
        (pn - 1) * ps
    } else {
        0
    };
    if raw > len {
        len as int
    } else {
        raw as int
    }
}

/// The window of `s` that page `pn` of size `ps` selects.
pub open spec fn spec_page_window<T>(s: Seq<T>, pn: u64, ps: u64) -> Seq<T> {
    let lo = spec_page_lo(s.len(), pn, ps);
    let hi = if lo + ps > s.len() {
        s.len() as int
    } else {
        lo + ps
    };
    s.subrange(lo, hi)
}

/// Cuts the requested page out of an already filtered, already ordered
/// listing.
pub fn page_window<T>(v: Vec<T>, page_number: u64, page_size: u64) -> (r: Page<T>)
    requires
        v@.len() <= u64::MAX,
    ensures
        r.records@ == spec_page_window(v@, page_number, page_size),
        r.total_size == v@.len(),
        r.page_number == page_number,
        r.page_size == page_size,
{
    let total: u64 = v.len() as u64;
    let len = v.len();
    let mut lo128: u128 = 0;
    if page_number >= 1 {
        proof {
            assert((page_number as u128 - 1) * (page_size as u128) <= (u64::MAX as u128) * (
            u64::MAX as u128)) by (nonlinear_arith)
                requires
                    1 <= page_number as u128 <= u64::MAX as u128,
                    page_size as u128 <= u64::MAX as u128,
            ;
        }
        lo128 = (page_number as u128 - 1) * (page_size as u128);
    }
    let lo: usize = if lo128 > len as u128 {
        len
    } else {
        lo128 as usize
    };
    let mut v = v;
    let ghost orig = v@;
    let mut tail = v.split_off(lo);
    let keep: usize = if (page_size as u128) > tail.len() as u128 {
        tail.len()
    } else {
        page_size as usize
    };
    tail.truncate(keep);
    proof {
        assert(tail@ =~= spec_page_window(orig, page_number, page_size));
    }
    Page { page_number, page_size, total_size: total, records: tail }
}

/// Reverses a vector, for listings ordered newest first.
pub fn reverse_vec<T>(v: Vec<T>) -> (r: Vec<T>)
    ensures
        r@ == v@.reverse(),
{
    let mut v = v;
    let mut out: Vec<T> = Vec::new();
    let ghost orig = v@;
    while v.len() > 0
        invariant
            out@.len() + v@.len() == orig.len(),
            v@ =~= orig.subrange(0, v@.len() as int),
            forall|k: int|
                0 <= k < out@.len() ==> out@[k] == orig[orig.len() - 1 - k],
        decreases v@.len(),
    {
        let x = v.pop().unwrap();
        out.push(x);
    }
    proof {
        assert(out@ =~= orig.reverse());
    }
    out
}

/// Mapping commutes with taking a subrange.
pub proof fn lemma_map_subrange<A, B>(s: Seq<A>, f: spec_fn(A) -> B, a: int, b: int)
    requires
        0 <= a <= b <= s.len(),
    ensures
        s.subrange(a, b).map_values(f) =~= s.map_values(f).subrange(a, b),
{
}

/// Mapping commutes with reversal.
pub proof fn lemma_map_reverse<A, B>(s: Seq<A>, f: spec_fn(A) -> B)
    ensures
        s.reverse().map_values(f) =~= s.map_values(f).reverse(),
{
}

/// Mapping commutes with appending one element.
pub proof fn lemma_map_push<A, B>(s: Seq<A>, f: spec_fn(A) -> B, x: A)
    ensures
        s.push(x).map_values(f) =~= s.map_values(f).push(f(x)),
{
}

/// Mapping commutes with removing one element.
pub proof fn lemma_map_remove<A, B>(s: Seq<A>, f: spec_fn(A) -> B, i: int)
    requires
        0 <= i < s.len(),
    ensures
        s.remove(i).map_values(f) =~= s.map_values(f).remove(i),
{
}

/// Mapping commutes with replacing one element.
pub proof fn lemma_map_update<A, B>(s: Seq<A>, f: spec_fn(A) -> B, i: int, x: A)
    requires
        0 <= i < s.len(),
    ensures
        s.update(i, x).map_values(f) =~= s.map_values(f).update(i, f(x)),
{
}

/// Filtering one more element appends it exactly when it matches.
pub proof fn lemma_filter_take_push<A>(s: Seq<A>, p: spec_fn(A) -> bool, i: int)
    requires
        0 <= i < s.len(),
    ensures
        s.subrange(0, i + 1).filter(p) =~= s.subrange(0, i).filter(p) + if p(s[i]) {
            seq![s[i]]
        } else {
            Seq::<A>::empty()
        },
{
    reveal_with_fuel(Seq::filter, 2);
    assert(s.subrange(0, i + 1) =~= s.subrange(0, i).push(s[i]));
    let single = seq![s[i]];
    assert(single.drop_last() =~= Seq::<A>::empty());
    assert(single.filter(p) =~= if p(s[i]) {
        single
    } else {
        Seq::<A>::empty()
    });
    Seq::filter_distributes_over_add(s.subrange(0, i), single, p);
    assert(s.subrange(0, i).push(s[i]) =~= s.subrange(0, i) + single);
}

} // verus!
