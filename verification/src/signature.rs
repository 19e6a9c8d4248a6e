//! The order-free parts of a pane's row signature: the cut paths and the selected positions
//! are sets, so their per-item hashes are folded with XOR, which no reordering changes.
use vstd::prelude::*;

verus! {

/// The XOR of all the hashes, 0 for none.
pub open spec fn xor_all(s: Seq<u64>) -> u64
    decreases s.len(),
{
    if s.len() == 0 {
        0
    } else {
        xor_all(s.drop_last()) ^ s.last()
    }
}

/// The XOR of the per-item hashes of a set (see `xor_all`).
pub fn xor_fold(hashes: &Vec<u64>) -> (r: u64)
    ensures
        r == xor_all(hashes@),
{
    let mut acc: u64 = 0;
    let mut i: usize = 0;
    while i < hashes.len()
        invariant
            i <= hashes.len(),
            acc == xor_all(hashes@.take(i as int)),
        decreases hashes.len() - i,
    {
        assert(hashes@.take(i + 1).drop_last() == hashes@.take(i as int));
        acc = acc ^ hashes[i];
        i = i + 1;
    }
    assert(hashes@.take(hashes.len() as int) == hashes@);
    acc
}

proof fn lemma_xor_swap(p: u64, q: u64, r: u64)
    ensures
        (p ^ q) ^ r == (p ^ r) ^ q,
{
    assert((p ^ q) ^ r == (p ^ r) ^ q) by (bit_vector);
}

/// Taking one hash out of the fold: the rest folded, then that hash.
proof fn lemma_xor_remove(s: Seq<u64>, j: int)
    requires
        0 <= j < s.len(),
    ensures
        xor_all(s) == xor_all(s.remove(j)) ^ s[j],
    decreases s.len(),
{
    if j == s.len() - 1 {
        assert(s.remove(j) == s.drop_last());
    } else {
        let rest = s.drop_last();
        lemma_xor_remove(rest, j);
        assert(s.remove(j).drop_last() == rest.remove(j));
        assert(s.remove(j).last() == s.last());
        lemma_xor_swap(xor_all(rest.remove(j)), s[j], s.last());
    }
}

/// The fold does not depend on the order of the hashes: two lists holding the same hashes, as
/// many times each, fold to the same value.
pub proof fn lemma_xor_order_free(a: Seq<u64>, b: Seq<u64>)
    requires
        a.to_multiset() == b.to_multiset(),
    ensures
        xor_all(a) == xor_all(b),
    decreases a.len(),
{
    broadcast use vstd::seq_lib::group_to_multiset_ensures;

    if a.len() == 0 {
        assert(b.to_multiset().len() == 0);
    } else {
        let x = a.last();
        let rest = a.drop_last();
        assert(a == rest.push(x));
        assert(a.to_multiset().count(x) > 0);
        assert(b.contains(x));
        let j = b.index_of(x);
        assert(b.remove(j).to_multiset() == b.to_multiset().remove(x));
        assert(rest.to_multiset() =~= a.to_multiset().remove(x));
        lemma_xor_order_free(rest, b.remove(j));
        lemma_xor_remove(b, j);
    }
}

/// Adding an item to a set and taking it out again leaves the fold as it was: a hash folded in
/// twice cancels.
pub proof fn lemma_xor_twice_cancels(s: Seq<u64>, h: u64)
    ensures
        xor_all(s.push(h).push(h)) == xor_all(s),
{
    assert(s.push(h).push(h).drop_last() == s.push(h));
    assert(s.push(h).drop_last() == s);
    let v = xor_all(s);
    assert(xor_all(s.push(h)) == v ^ h);
    assert(xor_all(s.push(h).push(h)) == (v ^ h) ^ h);
    assert((v ^ h) ^ h == v) by (bit_vector);
}

} // verus!
