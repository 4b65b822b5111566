//! The content-addressed store: entries named by the hash of their own
//! content, and the scan that reports entries breaking that rule.
use vstd::prelude::*;
use crate::bytes::same_bytes;
use crate::hasher::content_hash;
use crate::paths::join_spec;

verus! {

/// The positions among the first `n` entries whose name differs from the hash
/// recomputed from their content, in order.
pub open spec fn mismatch_indices(names: Seq<Seq<u8>>, hashes: Seq<Seq<u8>>, n: nat) -> Seq<usize>
    decreases n,
{
    if n == 0 {
        Seq::empty()
    } else {
        let m = (n - 1) as nat;
        let before = mismatch_indices(names, hashes, m);
        if names[m as int] != hashes[m as int] {
            before.push(m as usize)
        } else {
            before
        }
    }
}

/// Every entry's name is the hash of its content.
pub open spec fn store_consistent(names: Seq<Seq<u8>>, contents: Seq<Seq<u8>>) -> bool {
    forall|i: int| 0 <= i < names.len() ==> #[trigger] names[i] == content_hash(contents[i])
}

/// Scans the store: given each entry's file name and the hash recomputed from
/// its content, returns the positions of the entries whose name disagrees.
/// Nothing is corrected.
pub fn mismatches(names: &Vec<Vec<u8>>, hashes: &Vec<Vec<u8>>) -> (r: Vec<usize>)
    requires
        names@.len() == hashes@.len(),
    ensures
        r@ == mismatch_indices(names@.map_values(|v: Vec<u8>| v@), hashes@.map_values(|v: Vec<u8>| v@), names@.len()),
{
    let ghost ns = names@.map_values(|v: Vec<u8>| v@);
    let ghost hs = hashes@.map_values(|v: Vec<u8>| v@);
    let mut r: Vec<usize> = Vec::new();
    let mut i: usize = 0;
    while i < names.len()
        invariant
            names@.len() == hashes@.len(),
            ns == names@.map_values(|v: Vec<u8>| v@),
            hs == hashes@.map_values(|v: Vec<u8>| v@),
            0 <= i <= names@.len(),
            r@ == mismatch_indices(ns, hs, i as nat),
        decreases names@.len() - i,
    {
        let same = same_bytes(names[i].as_slice(), hashes[i].as_slice());
        assert(ns[i as int] == names@[i as int]@);
        assert(hs[i as int] == hashes@[i as int]@);
        if !same {
            r.push(i);
        }
        i = i + 1;
    }
    r
}

proof fn lemma_mismatch_bounds(names: Seq<Seq<u8>>, hashes: Seq<Seq<u8>>, n: nat)
    ensures
        mismatch_indices(names, hashes, n).len() == 0 <==> forall|i: int| 0 <= i < n ==> #[trigger] names[i] == hashes[i],
    decreases n,
{
    if n > 0 {
        let m = (n - 1) as nat;
        lemma_mismatch_bounds(names, hashes, m);
        if mismatch_indices(names, hashes, m).len() == 0 && names[m as int] == hashes[m as int] {
            assert forall|i: int| 0 <= i < n implies #[trigger] names[i] == hashes[i] by {
                if i < m {
                    assert(names[i] == hashes[i]);
                }
            }
        }
    }
}

/// The scan reports nothing exactly when the store is consistent: when every
/// entry's name is the hash of its content.
pub proof fn lemma_scan_empty_iff_consistent(names: Seq<Seq<u8>>, contents: Seq<Seq<u8>>)
    requires
        names.len() == contents.len(),
    ensures
        mismatch_indices(names, contents.map_values(|c: Seq<u8>| content_hash(c)), names.len()).len() == 0
            <==> store_consistent(names, contents),
{
    let hashes = contents.map_values(|c: Seq<u8>| content_hash(c));
    lemma_mismatch_bounds(names, hashes, names.len());
    if store_consistent(names, contents) {
        assert forall|i: int| 0 <= i < names.len() implies #[trigger] names[i] == hashes[i] by {
            assert(names[i] == content_hash(contents[i]));
        }
    }
    if forall|i: int| 0 <= i < names.len() ==> #[trigger] names[i] == hashes[i] {
        assert forall|i: int| 0 <= i < names.len() implies #[trigger] names[i] == content_hash(contents[i]) by {
            assert(names[i] == hashes[i]);
        }
    }
}

/// An entry whose name differs from the hash of its content, such as one
/// whose bytes were changed after it was stored, is reported.
pub proof fn lemma_scan_reports_mismatch(names: Seq<Seq<u8>>, hashes: Seq<Seq<u8>>, i: int)
    requires
        names.len() == hashes.len(),
        0 <= i < names.len(),
        names[i] != hashes[i],
    ensures
        mismatch_indices(names, hashes, names.len()).contains(i as usize),
    decreases names.len(),
{
    let n = names.len();
    let m = (n - 1) as nat;
    if i == m {
        assert(mismatch_indices(names, hashes, n).last() == i as usize);
    } else {
        lemma_scan_reports_mismatch(names.take(m as int), hashes.take(m as int), i);
        lemma_prefix_indices(names, hashes, m);
        let before = mismatch_indices(names, hashes, m);
        let k = choose|k: int| 0 <= k < before.len() && before[k] == i as usize;
        let now = mismatch_indices(names, hashes, n);
        assert(now[k] == i as usize);
    }
}

/// The indices of a prefix depend on the prefix alone.
proof fn lemma_prefix_indices(names: Seq<Seq<u8>>, hashes: Seq<Seq<u8>>, m: nat)
    requires
        m <= names.len(),
        m <= hashes.len(),
    ensures
        mismatch_indices(names.take(m as int), hashes.take(m as int), m) == mismatch_indices(names, hashes, m),
    decreases m,
{
    if m > 0 {
        let p = (m - 1) as nat;
        lemma_prefix_indices(names, hashes, p);
        lemma_prefix_stable(names.take(m as int), hashes.take(m as int), names, hashes, p);
    }
}

proof fn lemma_prefix_stable(n1: Seq<Seq<u8>>, h1: Seq<Seq<u8>>, n2: Seq<Seq<u8>>, h2: Seq<Seq<u8>>, p: nat)
    requires
        p <= n1.len(),
        p <= h1.len(),
        p <= n2.len(),
        p <= h2.len(),
        forall|j: int| 0 <= j < p ==> n1[j] == n2[j] && h1[j] == h2[j],
    ensures
        mismatch_indices(n1, h1, p) == mismatch_indices(n2, h2, p),
    decreases p,
{
    if p > 0 {
        lemma_prefix_stable(n1, h1, n2, h2, (p - 1) as nat);
    }
}

/// Two files with the same bytes resolve to the same store entry, whatever
/// their names or places.
pub proof fn lemma_same_content_same_entry(store_dir: Seq<u8>, a: Seq<u8>, b: Seq<u8>)
    requires
        a == b,
    ensures
        join_spec(store_dir, content_hash(a)) == join_spec(store_dir, content_hash(b)),
{
}

} // verus!
