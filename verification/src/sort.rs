//! Stable insertion sort by a key, with a ghost permutation as witness.
use vstd::prelude::*;

verus! {

/// Values ordered by a key that forms a strict weak order.
pub trait SortKey: Sized {
    /// The key of `self` is strictly below the key of `other`.
    spec fn key_lt(self, other: Self) -> bool;

    fn key_less(&self, other: &Self) -> (r: bool)
        ensures
            r == self.key_lt(*other),
    ;

    proof fn lemma_key_order(a: Self, b: Self, c: Self)
        ensures
            !a.key_lt(a),
            a.key_lt(b) && b.key_lt(c) ==> a.key_lt(c),
            a.key_lt(c) ==> a.key_lt(b) || b.key_lt(c),
    ;
}

/// Neither key is below the other.
pub open spec fn key_eq<T: SortKey>(a: T, b: T) -> bool {
    !a.key_lt(b) && !b.key_lt(a)
}

/// Keys never decrease along `s`.
pub open spec fn sorted_by_key<T: SortKey>(s: Seq<T>) -> bool {
    forall|i: int, j: int| 0 <= i < j < s.len() ==> !(#[trigger] s[j]).key_lt(#[trigger] s[i])
}

/// `output` is `input` reordered by `perm` (output position -> input
/// position, inverted by `inv`), sorted by key, and elements with equal keys
/// keep their relative order.
pub open spec fn stable_sort_witness<T: SortKey>(
    input: Seq<T>,
    output: Seq<T>,
    perm: Seq<int>,
    inv: Seq<int>,
) -> bool {
    &&& output.len() == input.len()
    &&& perm.len() == output.len()
    &&& inv.len() == input.len()
    &&& forall|i: int|
        0 <= i < output.len() ==> 0 <= #[trigger] perm[i] < input.len() && output[i]
            == input[perm[i]]
    &&& forall|k: int| 0 <= k < input.len() ==> 0 <= #[trigger] inv[k] < output.len() && perm[inv[k]] == k
    &&& forall|i: int| 0 <= i < output.len() ==> #[trigger] inv[perm[i]] == i
    &&& sorted_by_key(output)
    &&& forall|i: int, j: int|
        0 <= i < j < output.len() && key_eq(output[i], output[j]) ==> #[trigger] perm[i]
            < #[trigger] perm[j]
}

/// `output` is the stable sort of `input` by key: a reordering of it (with
/// the same elements, as many times each) that is sorted and keeps elements
/// with equal keys in their order.
pub open spec fn is_stable_sort_of<T: SortKey>(input: Seq<T>, output: Seq<T>) -> bool {
    &&& exists|perm: Seq<int>, inv: Seq<int>| stable_sort_witness(input, output, perm, inv)
    &&& output.to_multiset() == input.to_multiset()
}

/// Every element of the input occurs in a stable sort of it, and every element
/// of the output comes from the input.
pub proof fn lemma_stable_sort_elements<T: SortKey>(input: Seq<T>, output: Seq<T>)
    requires
        is_stable_sort_of(input, output),
    ensures
        output.len() == input.len(),
        forall|k: int| 0 <= k < input.len() ==> output.contains(#[trigger] input[k]),
        forall|i: int| 0 <= i < output.len() ==> input.contains(#[trigger] output[i]),
        sorted_by_key(output),
{
    let (perm, inv) = choose|perm: Seq<int>, inv: Seq<int>|
        stable_sort_witness(input, output, perm, inv);
    assert forall|k: int| 0 <= k < input.len() implies output.contains(#[trigger] input[k]) by {
        assert(output[inv[k]] == input[k]);
    }
    assert forall|i: int| 0 <= i < output.len() implies input.contains(#[trigger] output[i]) by {
        assert(input[perm[i]] == output[i]);
    }
}

proof fn lemma_insert_keeps_witness<T: SortKey>(
    input: Seq<T>,
    out: Seq<T>,
    perm: Seq<int>,
    inv: Seq<int>,
    x: T,
    p: int,
)
    requires
        stable_sort_witness(input, out, perm, inv),
        0 <= p <= out.len(),
        forall|k: int| p <= k < out.len() ==> x.key_lt(#[trigger] out[k]),
        p > 0 ==> !x.key_lt(out[p - 1]),
    ensures
        stable_sort_witness(
            input.push(x),
            out.insert(p, x),
            perm.insert(p, input.len() as int),
            inv.map_values(|v: int| if v >= p { v + 1 } else { v }).push(p),
        ),
{
    let n = input.len() as int;
    let input2 = input.push(x);
    let out2 = out.insert(p, x);
    let perm2 = perm.insert(p, n);
    let inv2 = inv.map_values(|v: int| if v >= p { v + 1 } else { v }).push(p);
    // elements before p are not above x
    assert forall|k: int| 0 <= k < p implies !x.key_lt(#[trigger] out[k]) by {
        if k < p - 1 {
            T::lemma_key_order(x, out[p - 1], out[k]);
            assert(!out[p - 1].key_lt(out[k]));
        }
    }
    assert forall|k: int| p <= k < out.len() implies !(#[trigger] out[k]).key_lt(x) by {
        T::lemma_key_order(x, out[k], x);
    }
    assert forall|i: int|
        0 <= i < out2.len() implies 0 <= #[trigger] perm2[i] < input2.len() && out2[i]
        == input2[perm2[i]] by {
        if i < p {
            assert(perm2[i] == perm[i]);
        } else if i > p {
            assert(perm2[i] == perm[i - 1]);
        }
    }
    assert forall|k: int|
        0 <= k < input2.len() implies 0 <= #[trigger] inv2[k] < out2.len() && perm2[inv2[k]]
        == k by {
        if k < n {
            assert(0 <= inv[k] < out.len() && perm[inv[k]] == k);
        }
    }
    assert forall|i: int| 0 <= i < out2.len() implies #[trigger] inv2[perm2[i]] == i by {
        if i < p {
            assert(perm2[i] == perm[i]);
            assert(inv[perm[i]] == i);
        } else if i > p {
            assert(perm2[i] == perm[i - 1]);
            assert(inv[perm[i - 1]] == i - 1);
        }
    }
    assert forall|i: int, j: int| 0 <= i < j < out2.len() implies !(#[trigger] out2[j]).key_lt(
        #[trigger] out2[i],
    ) by {
        if j < p {
            assert(out2[i] == out[i] && out2[j] == out[j]);
        } else if j == p {
            assert(out2[i] == out[i]);
        } else if i < p {
            assert(out2[i] == out[i] && out2[j] == out[j - 1]);
            T::lemma_key_order(out[j - 1], x, out[i]);
            if out[j - 1].key_lt(out[i]) {
                assert(!out[j - 1].key_lt(out[i]));
            }
        } else if i == p {
            assert(out2[j] == out[j - 1]);
        } else {
            assert(out2[i] == out[i - 1] && out2[j] == out[j - 1]);
        }
    }
    assert forall|i: int, j: int|
        0 <= i < j < out2.len() && key_eq(out2[i], out2[j]) implies #[trigger] perm2[i]
        < #[trigger] perm2[j] by {
        if j < p {
            assert(perm2[i] == perm[i] && perm2[j] == perm[j]);
            assert(out2[i] == out[i] && out2[j] == out[j]);
        } else if j == p {
            assert(perm2[i] == perm[i]);
        } else if i < p {
            assert(perm2[i] == perm[i] && perm2[j] == perm[j - 1]);
            assert(out2[i] == out[i] && out2[j] == out[j - 1]);
            assert(0 <= i < j - 1 < out.len());
        } else if i == p {
            assert(out2[j] == out[j - 1]);
            assert(x.key_lt(out[j - 1]));
        } else {
            assert(perm2[i] == perm[i - 1] && perm2[j] == perm[j - 1]);
            assert(out2[i] == out[i - 1] && out2[j] == out[j - 1]);
        }
    }
}

/// Two stable-sort witnesses of the same input agree on their first `n`
/// positions.
proof fn lemma_witnesses_agree<T: SortKey>(
    input: Seq<T>,
    out_a: Seq<T>,
    perm_a: Seq<int>,
    inv_a: Seq<int>,
    out_b: Seq<T>,
    perm_b: Seq<int>,
    inv_b: Seq<int>,
    n: int,
)
    requires
        stable_sort_witness(input, out_a, perm_a, inv_a),
        stable_sort_witness(input, out_b, perm_b, inv_b),
        0 <= n <= input.len(),
    ensures
        forall|m: int| 0 <= m < n ==> #[trigger] perm_a[m] == perm_b[m],
    decreases n,
{
    if n > 0 {
        lemma_witnesses_agree(input, out_a, perm_a, inv_a, out_b, perm_b, inv_b, n - 1);
        let i = n - 1;
        let ka = perm_a[i];
        let kb = perm_b[i];
        if ka != kb {
            let ia = inv_a[kb];
            let ib = inv_b[ka];
            assert(perm_a[ia] == kb);
            assert(perm_b[ib] == ka);
            // `kb` lies after position `i` in `out_a`, and `ka` after it in `out_b`.
            if ia < i {
                assert(perm_a[ia] == perm_b[ia]);
                assert(inv_b[perm_b[ia]] == ia);
                assert(inv_b[perm_b[i]] == i);
            }
            if ib < i {
                assert(perm_b[ib] == perm_a[ib]);
                assert(inv_a[perm_a[ib]] == ib);
                assert(inv_a[perm_a[i]] == i);
            }
            assert(i < ia && i < ib);
            assert(out_a[i] == input[ka] && out_a[ia] == input[kb]);
            assert(out_b[i] == input[kb] && out_b[ib] == input[ka]);
            assert(!out_a[ia].key_lt(out_a[i]));
            assert(!out_b[ib].key_lt(out_b[i]));
            assert(key_eq(out_a[i], out_a[ia]));
            assert(perm_a[i] < perm_a[ia]);
            assert(key_eq(out_b[i], out_b[ib]));
            assert(perm_b[i] < perm_b[ib]);
        }
    }
}

/// A stable sort is unique: two stable sorts of the same input are equal.
pub proof fn lemma_stable_sort_unique<T: SortKey>(input: Seq<T>, a: Seq<T>, b: Seq<T>)
    requires
        is_stable_sort_of(input, a),
        is_stable_sort_of(input, b),
    ensures
        a == b,
{
    let (perm_a, inv_a) = choose|perm: Seq<int>, inv: Seq<int>| stable_sort_witness(input, a, perm, inv);
    let (perm_b, inv_b) = choose|perm: Seq<int>, inv: Seq<int>| stable_sort_witness(input, b, perm, inv);
    lemma_witnesses_agree(input, a, perm_a, inv_a, b, perm_b, inv_b, input.len() as int);
    assert forall|i: int| 0 <= i < a.len() implies a[i] == b[i] by {
        assert(perm_a[i] == perm_b[i]);
    }
    assert(a =~= b);
}

/// Sorting a sequence with one more element at its end gives the stable sort
/// of the sorted sequence with that element at its end.
pub proof fn lemma_stable_sort_push<T: SortKey>(input: Seq<T>, sorted: Seq<T>, x: T, out: Seq<T>)
    requires
        is_stable_sort_of(input, sorted),
        is_stable_sort_of(input.push(x), out),
    ensures
        is_stable_sort_of(sorted.push(x), out),
{
    let n = input.len() as int;
    let (p1, i1) = choose|perm: Seq<int>, inv: Seq<int>| stable_sort_witness(input, sorted, perm, inv);
    let (p2, i2) = choose|perm: Seq<int>, inv: Seq<int>| stable_sort_witness(input.push(x), out, perm, inv);
    let src = sorted.push(x);
    let pn = Seq::new(out.len(), |i: int| if p2[i] == n { n } else { i1[p2[i]] });
    let inn = Seq::new((n + 1) as nat, |k: int| if k == n { i2[n] } else { i2[p1[k]] });
    assert forall|i: int| 0 <= i < out.len() implies 0 <= #[trigger] pn[i] < src.len() && out[i]
        == src[pn[i]] by {
        let p = p2[i];
        assert(0 <= p < n + 1 && out[i] == input.push(x)[p]);
        if p != n {
            assert(0 <= i1[p] < n && p1[i1[p]] == p);
            assert(sorted[i1[p]] == input[p1[i1[p]]]);
        }
    }
    assert forall|k: int| 0 <= k < src.len() implies 0 <= #[trigger] inn[k] < out.len() && pn[inn[k]]
        == k by {
        if k == n {
            assert(0 <= i2[n] < out.len() && p2[i2[n]] == n);
        } else {
            assert(0 <= p1[k] < n);
            assert(0 <= i2[p1[k]] < out.len() && p2[i2[p1[k]]] == p1[k]);
            assert(i1[p1[k]] == k);
        }
    }
    assert forall|i: int| 0 <= i < out.len() implies #[trigger] inn[pn[i]] == i by {
        let p = p2[i];
        assert(0 <= p < n + 1);
        assert(i2[p2[i]] == i);
        if p != n {
            assert(0 <= i1[p] < n && p1[i1[p]] == p);
        }
    }
    assert forall|i: int, j: int|
        0 <= i < j < out.len() && key_eq(out[i], out[j]) implies #[trigger] pn[i] < #[trigger] pn[j] by {
        assert(p2[i] < p2[j]);
        assert(0 <= p2[i] && p2[j] < n + 1);
        if p2[j] != n {
            let a = p2[i];
            let b = p2[j];
            assert(out[i] == input[a] && out[j] == input[b]);
            assert(p1[i1[a]] == a && p1[i1[b]] == b);
            assert(0 <= i1[a] < n && 0 <= i1[b] < n);
            assert(sorted[i1[a]] == input[a] && sorted[i1[b]] == input[b]);
            if i1[b] < i1[a] {
                assert(key_eq(sorted[i1[b]], sorted[i1[a]]));
                assert(p1[i1[b]] < p1[i1[a]]);
            }
        } else {
            assert(0 <= i1[p2[i]] < n);
        }
    }
    assert(stable_sort_witness(src, out, pn, inn));
    broadcast use vstd::seq_lib::to_multiset_build;
    assert(src.to_multiset() == sorted.to_multiset().insert(x));
    assert(input.push(x).to_multiset() == input.to_multiset().insert(x));
}

/// Sorts `items` by key, keeping the order of elements with equal keys
/// (as `slice::sort_by` does).
pub fn stable_sort<T: SortKey>(items: Vec<T>) -> (r: Vec<T>)
    ensures
        is_stable_sort_of(items@, r@),
{
    let ghost orig = items@;
    let mut rest = items;
    let mut out: Vec<T> = Vec::new();
    let ghost mut perm: Seq<int> = Seq::empty();
    let ghost mut inv: Seq<int> = Seq::empty();
    let ghost mut n: int = 0;
    proof {
        assert(orig.subrange(0, 0) =~= Seq::<T>::empty());
        assert(orig.subrange(0, orig.len() as int) =~= orig);
    }
    while rest.len() > 0
        invariant
            0 <= n <= orig.len(),
            rest@ == orig.subrange(n, orig.len() as int),
            stable_sort_witness(orig.subrange(0, n), out@, perm, inv),
            out@.to_multiset() == orig.subrange(0, n).to_multiset(),
        decreases rest.len(),
    {
        let x = rest.remove(0);
        let mut p = out.len();
        while p > 0 && x.key_less(&out[p - 1])
            invariant
                p <= out.len(),
                forall|k: int| p <= k < out.len() ==> x.key_lt(#[trigger] out@[k]),
            decreases p,
        {
            p = p - 1;
        }
        proof {
            lemma_insert_keeps_witness(orig.subrange(0, n), out@, perm, inv, x, p as int);
            assert(orig.subrange(0, n).push(x) =~= orig.subrange(0, n + 1));
            perm = perm.insert(p as int, n);
            inv = inv.map_values(|v: int| if v >= p { v + 1 } else { v }).push(p as int);
            n = n + 1;
            assert(rest@ =~= orig.subrange(n, orig.len() as int));
            broadcast use vstd::seq_lib::to_multiset_build, vstd::seq_lib::to_multiset_insert;
            assert(out@.insert(p as int, x).to_multiset() == out@.to_multiset().insert(x));
            assert(orig.subrange(0, n).to_multiset() == orig.subrange(0, n - 1).to_multiset().insert(x));
        }
        out.insert(p, x);
    }
    proof {
        assert(orig.subrange(0, n) =~= orig);
    }
    out
}

} // verus!
