use vstd::prelude::*;
use vstd::seq_lib::group_to_multiset_ensures;
use vstd::seq_lib::to_multiset_update;
use vstd::seq_lib::lemma_multiset_commutative;

verus! {

broadcast use vstd::multiset::group_multiset_properties, group_to_multiset_ensures;

/// Every element is at most each element after it.
pub open spec fn sorted(s: Seq<i32>) -> bool {
    forall|i: int, j: int| 0 <= i < j < s.len() ==> s[i] <= s[j]
}

/// `t` holds the same elements as `s`, each as often.
pub open spec fn permutes(t: Seq<i32>, s: Seq<i32>) -> bool {
    t.to_multiset() == s.to_multiset()
}

/// Exchanges two elements of the slice.
fn swap_at(array: &mut [i32], i: usize, j: usize)
    requires
        i < old(array)@.len(),
        j < old(array)@.len(),
    ensures
        final(array)@ == old(array)@.update(i as int, old(array)@[j as int]).update(
            j as int,
            old(array)@[i as int],
        ),
        permutes(final(array)@, old(array)@),
{
    let a = array[i];
    let b = array[j];
    array[i] = b;
    array[j] = a;
    proof {
        let s = old(array)@;
        let s1 = s.update(i as int, b);
        to_multiset_update(s, i as int, b);
        to_multiset_update(s1, j as int, a);
        if i == j {
            assert(s1.update(j as int, a) =~= s);
        } else {
            assert(s1[j as int] == b);
            assert(s1.update(j as int, a).to_multiset() =~= s.to_multiset());
        }
    }
}

/// Rearranges the slice around the value that stood at its middle, and returns
/// the index where that value now stands: nothing before it is greater, nothing
/// after it is smaller.
pub fn partition(array: &mut [i32]) -> (p: usize)
    requires
        old(array)@.len() >= 1,
    ensures
        final(array)@.len() == old(array)@.len(),
        permutes(final(array)@, old(array)@),
        p < final(array)@.len(),
        forall|k: int| 0 <= k < p ==> final(array)@[k] <= final(array)@[p as int],
        forall|k: int| p < k < final(array)@.len() ==> final(array)@[p as int] <= final(array)@[k],
{
    let len = array.len();
    let last = len - 1;
    swap_at(array, len / 2, last);
    let pivot = array[last];
    let mut store: usize = 0;
    let mut i: usize = 0;
    while i < last
        invariant
            array@.len() == len,
            last == len - 1,
            store <= i <= last,
            array@[last as int] == pivot,
            permutes(array@, old(array)@),
            forall|k: int| 0 <= k < store ==> array@[k] < pivot,
            forall|k: int| store <= k < i ==> array@[k] >= pivot,
        decreases last - i,
    {
        if array[i] < pivot {
            swap_at(array, i, store);
            store = store + 1;
        }
        i = i + 1;
    }
    swap_at(array, store, last);
    store
}

/// Sorts the slice in ascending order.
pub fn quicksort(array: &mut [i32])
    ensures
        sorted(final(array)@),
        permutes(final(array)@, old(array)@),
    decreases old(array)@.len(),
{
    let len = array.len();
    if len <= 1 {
        proof {
            assert(final(array)@ == old(array)@);
        }
        return;
    }
    let p = partition(array);
    let ghost parted = array@;
    let (left, rest) = array.split_at_mut(p);
    let (mid, right) = rest.split_at_mut(1);
    let ghost l0 = left@;
    let ghost r0 = right@;
    quicksort(left);
    quicksort(right);
    proof {
        let l = final(left)@;
        let r = final(right)@;
        let pv = parted[p as int];
        assert(mid@ == seq![pv]);
        assert forall|k: int| 0 <= k < l.len() implies l[k] <= pv by {
            assert(l.to_multiset().count(l[k]) > 0);
            assert(l0.contains(l[k]));
        }
        assert forall|k: int| 0 <= k < r.len() implies pv <= r[k] by {
            assert(r.to_multiset().count(r[k]) > 0);
            assert(r0.contains(r[k]));
        }
        assert(parted =~= l0 + (seq![pv] + r0));
        lemma_multiset_commutative(l0, seq![pv] + r0);
        lemma_multiset_commutative(seq![pv], r0);
        lemma_multiset_commutative(l, seq![pv] + r);
        lemma_multiset_commutative(seq![pv], r);
    }
}

} // verus!
