//! In-place sorting of integer vectors.
//!
//! Two classic algorithms behind one [`Sorter`] interface, each proved to
//! leave the vector ordered and to keep exactly the elements it was given
//! (as a multiset, so duplicates are neither lost nor invented).

use vstd::prelude::*;

verus! {

use vstd::seq_lib::group_to_multiset_ensures;

/// The elements of `s` between `lo` (inclusive) and `hi` (exclusive) are
/// in ascending order.
pub open spec fn sorted_between(s: Seq<u64>, lo: int, hi: int) -> bool {
    forall|i: int, j: int| lo <= i <= j < hi ==> s[i] <= s[j]
}

/// The whole sequence is in ascending order.
pub open spec fn sorted(s: Seq<u64>) -> bool {
    sorted_between(s, 0, s.len() as int)
}

/// An in-place sorting strategy: afterwards the vector is ordered and
/// holds exactly the elements it held before.
pub trait Sorter {
    fn sort(&self, values: &mut Vec<u64>)
        ensures
            sorted(final(values)@),
            final(values)@.to_multiset() == old(values)@.to_multiset(),
    ;
}

/// Exchanging two positions keeps the elements of the sequence.
proof fn lemma_swap_keeps_multiset(s: Seq<u64>, i: int, j: int)
    requires
        0 <= i < s.len(),
        0 <= j < s.len(),
    ensures
        s.update(i, s[j]).update(j, s[i]).to_multiset() == s.to_multiset(),
{
    broadcast use group_to_multiset_ensures;

    if i == j {
        assert(s.update(i, s[j]).update(j, s[i]) =~= s);
    } else {
        let s1 = s.update(i, s[j]);
        let s2 = s1.update(j, s[i]);
        assert(s.to_multiset().contains(s[i]));
        assert(s1.to_multiset().contains(s1[j]));
        assert(s2.to_multiset() =~= s.to_multiset());
    }
}

/// Exchanges the elements at `i` and `j`.
fn swap_at(v: &mut Vec<u64>, i: usize, j: usize)
    requires
        i < old(v)@.len(),
        j < old(v)@.len(),
    ensures
        final(v)@ == old(v)@.update(i as int, old(v)@[j as int]).update(
            j as int,
            old(v)@[i as int],
        ),
        final(v)@.to_multiset() == old(v)@.to_multiset(),
        final(v)@.len() == old(v)@.len(),
{
    let a = v[i];
    let b = v[j];
    v.set(i, b);
    v.set(j, a);
    proof {
        lemma_swap_keeps_multiset(old(v)@, i as int, j as int);
    }
}

/// Concatenation adds the element collections of the parts.
proof fn lemma_multiset_of_concat(s1: Seq<u64>, s2: Seq<u64>)
    ensures
        (s1 + s2).to_multiset() == s1.to_multiset().add(s2.to_multiset()),
    decreases s2.len(),
{
    broadcast use group_to_multiset_ensures;

    if s2.len() == 0 {
        assert(s1 + s2 =~= s1);
        assert((s1 + s2).to_multiset() =~= s1.to_multiset().add(s2.to_multiset()));
    } else {
        lemma_multiset_of_concat(s1, s2.drop_last());
        assert(s1 + s2 =~= (s1 + s2.drop_last()).push(s2.last()));
        assert(s2 =~= s2.drop_last().push(s2.last()));
        assert((s1 + s2).to_multiset() =~= s1.to_multiset().add(s2.to_multiset()));
    }
}

/// A sequence with the same elements as an upper-bounded sequence is
/// itself bounded by the same value.
proof fn lemma_same_elements_keep_upper_bound(s1: Seq<u64>, s2: Seq<u64>, bound: u64)
    requires
        s1.to_multiset() == s2.to_multiset(),
        forall|k: int| 0 <= k < s1.len() ==> s1[k] <= bound,
    ensures
        forall|k: int| 0 <= k < s2.len() ==> s2[k] <= bound,
{
    broadcast use group_to_multiset_ensures;

    assert forall|k: int| 0 <= k < s2.len() implies s2[k] <= bound by {
        assert(s2.to_multiset().contains(s2[k]));
        assert(s1.contains(s2[k]));
    }
}

/// A sequence with the same elements as a strictly lower-bounded sequence
/// is itself bounded by the same value.
proof fn lemma_same_elements_keep_lower_bound(s1: Seq<u64>, s2: Seq<u64>, bound: u64)
    requires
        s1.to_multiset() == s2.to_multiset(),
        forall|k: int| 0 <= k < s1.len() ==> s1[k] > bound,
    ensures
        forall|k: int| 0 <= k < s2.len() ==> s2[k] > bound,
{
    broadcast use group_to_multiset_ensures;

    assert forall|k: int| 0 <= k < s2.len() implies s2[k] > bound by {
        assert(s2.to_multiset().contains(s2[k]));
        assert(s1.contains(s2[k]));
    }
}

/// Arranges `[lo, hi)` around the value initially at `lo`: afterwards that
/// value sits at the returned position, everything before it in the range
/// is no larger, and everything after it in the range is strictly larger.
/// The rest of the vector is untouched.
fn partition(v: &mut Vec<u64>, lo: usize, hi: usize) -> (p: usize)
    requires
        lo < hi <= old(v)@.len(),
    ensures
        lo <= p < hi,
        final(v)@.len() == old(v)@.len(),
        final(v)@.subrange(0, lo as int) == old(v)@.subrange(0, lo as int),
        final(v)@.subrange(hi as int, old(v)@.len() as int) == old(v)@.subrange(
            hi as int,
            old(v)@.len() as int,
        ),
        final(v)@.subrange(lo as int, hi as int).to_multiset() == old(v)@.subrange(
            lo as int,
            hi as int,
        ).to_multiset(),
        forall|k: int| lo <= k < p ==> final(v)@[k] <= final(v)@[p as int],
        forall|k: int| p < k < hi ==> final(v)@[k] > final(v)@[p as int],
{
    let ghost orig = v@;
    let pivot = v[lo];
    let mut next: usize = lo + 1;
    let mut small: usize = lo + 1;
    while next < hi
        invariant
            lo < small <= next <= hi <= v@.len(),
            v@.len() == orig.len(),
            v@[lo as int] == pivot,
            forall|k: int| lo < k < small ==> v@[k] <= pivot,
            forall|k: int| small <= k < next ==> v@[k] > pivot,
            v@.subrange(0, lo as int) == orig.subrange(0, lo as int),
            v@.subrange(hi as int, orig.len() as int) == orig.subrange(
                hi as int,
                orig.len() as int,
            ),
            v@.subrange(lo as int, hi as int).to_multiset() == orig.subrange(
                lo as int,
                hi as int,
            ).to_multiset(),
        decreases hi - next,
    {
        if v[next] <= pivot {
            let ghost before = v@;
            swap_at(v, next, small);
            proof {
                lemma_swap_within_range(before, v@, lo as int, hi as int, next as int, small as int);
            }
            small = small + 1;
        }
        next = next + 1;
    }
    let ghost before = v@;
    swap_at(v, lo, small - 1);
    proof {
        lemma_swap_within_range(before, v@, lo as int, hi as int, lo as int, small as int - 1);
    }
    small - 1
}

/// A swap of two positions inside `[lo, hi)` keeps the elements of that
/// range and leaves both sides of it unchanged.
proof fn lemma_swap_within_range(s1: Seq<u64>, s2: Seq<u64>, lo: int, hi: int, i: int, j: int)
    requires
        s1.len() == s2.len(),
        0 <= lo <= i < hi <= s1.len(),
        lo <= j < hi,
        s2 == s1.update(i, s1[j]).update(j, s1[i]),
    ensures
        s2.subrange(lo, hi).to_multiset() == s1.subrange(lo, hi).to_multiset(),
        s2.subrange(0, lo) == s1.subrange(0, lo),
        s2.subrange(hi, s1.len() as int) == s1.subrange(hi, s1.len() as int),
{
    assert(s2.subrange(0, lo) =~= s1.subrange(0, lo));
    assert(s2.subrange(hi, s1.len() as int) =~= s1.subrange(hi, s1.len() as int));
    let t1 = s1.subrange(lo, hi);
    let t2 = s2.subrange(lo, hi);
    assert(t2 =~= t1.update(i - lo, t1[j - lo]).update(j - lo, t1[i - lo]));
    lemma_swap_keeps_multiset(t1, i - lo, j - lo);
}

/// Sorts `[lo, hi)` in place, recursively: partition around a pivot, then
/// sort each side.  The rest of the vector is untouched.
fn quicksort_range(v: &mut Vec<u64>, lo: usize, hi: usize)
    requires
        lo <= hi <= old(v)@.len(),
    ensures
        final(v)@.len() == old(v)@.len(),
        sorted_between(final(v)@, lo as int, hi as int),
        final(v)@.subrange(lo as int, hi as int).to_multiset() == old(v)@.subrange(
            lo as int,
            hi as int,
        ).to_multiset(),
        final(v)@.subrange(0, lo as int) == old(v)@.subrange(0, lo as int),
        final(v)@.subrange(hi as int, old(v)@.len() as int) == old(v)@.subrange(
            hi as int,
            old(v)@.len() as int,
        ),
    decreases hi - lo,
{
    if hi - lo < 2 {
        return ;
    }
    let ghost orig = v@;
    let p = partition(v, lo, hi);
    let ghost mid = v@;
    let ghost pivot = v@[p as int];
    quicksort_range(v, lo, p);
    let ghost left_done = v@;
    proof {
        lemma_parts_unchanged_keep_value(mid, left_done, lo as int, p as int);
        assert(forall|k: int|
            0 <= k < p - lo ==> #[trigger] mid.subrange(lo as int, p as int)[k] <= pivot);
        lemma_same_elements_keep_upper_bound(
            mid.subrange(lo as int, p as int),
            left_done.subrange(lo as int, p as int),
            pivot,
        );
        assert forall|k: int| lo <= k < p implies left_done[k] <= pivot by {
            assert(left_done.subrange(lo as int, p as int)[k - lo] == left_done[k]);
        }
    }
    quicksort_range(v, p + 1, hi);
    proof {
        lemma_quicksort_stitch(orig, mid, left_done, v@, lo as int, p as int, hi as int);
    }
}

/// When everything outside `[lo, hi)` is unchanged, so is each single
/// position outside the range.
proof fn lemma_parts_unchanged_keep_value(s1: Seq<u64>, s2: Seq<u64>, lo: int, hi: int)
    requires
        s1.len() == s2.len(),
        0 <= lo <= hi <= s1.len(),
        s2.subrange(0, lo) == s1.subrange(0, lo),
        s2.subrange(hi, s1.len() as int) == s1.subrange(hi, s1.len() as int),
    ensures
        forall|k: int| 0 <= k < lo ==> s2[k] == s1[k],
        forall|k: int| hi <= k < s1.len() ==> s2[k] == s1[k],
{
    assert forall|k: int| 0 <= k < lo implies s2[k] == s1[k] by {
        assert(s2.subrange(0, lo)[k] == s2[k]);
    }
    assert forall|k: int| hi <= k < s1.len() implies s2[k] == s1[k] by {
        assert(s2.subrange(hi, s1.len() as int)[k - hi] == s2[k]);
    }
}

/// Combines the partition step and the two recursive sorts into the
/// contract of `quicksort_range`.
proof fn lemma_quicksort_stitch(
    orig: Seq<u64>,
    mid: Seq<u64>,
    left_done: Seq<u64>,
    done: Seq<u64>,
    lo: int,
    p: int,
    hi: int,
)
    requires
        orig.len() == mid.len() == left_done.len() == done.len(),
        0 <= lo <= p < hi <= orig.len(),
        // what partition established on mid
        mid.subrange(0, lo) == orig.subrange(0, lo),
        mid.subrange(hi, orig.len() as int) == orig.subrange(hi, orig.len() as int),
        mid.subrange(lo, hi).to_multiset() == orig.subrange(lo, hi).to_multiset(),
        forall|k: int| lo <= k < p ==> mid[k] <= mid[p],
        forall|k: int| p < k < hi ==> mid[k] > mid[p],
        // what the left sort established
        sorted_between(left_done, lo, p),
        left_done.subrange(lo, p).to_multiset() == mid.subrange(lo, p).to_multiset(),
        left_done.subrange(0, lo) == mid.subrange(0, lo),
        left_done.subrange(p, orig.len() as int) == mid.subrange(p, orig.len() as int),
        forall|k: int| lo <= k < p ==> left_done[k] <= mid[p],
        // what the right sort established
        sorted_between(done, p + 1, hi),
        done.subrange(p + 1, hi).to_multiset() == left_done.subrange(p + 1, hi).to_multiset(),
        done.subrange(0, p + 1) == left_done.subrange(0, p + 1),
        done.subrange(hi, orig.len() as int) == left_done.subrange(hi, orig.len() as int),
    ensures
        sorted_between(done, lo, hi),
        done.subrange(lo, hi).to_multiset() == orig.subrange(lo, hi).to_multiset(),
        done.subrange(0, lo) == orig.subrange(0, lo),
        done.subrange(hi, orig.len() as int) == orig.subrange(hi, orig.len() as int),
{
    let len = orig.len() as int;
    lemma_parts_unchanged_keep_value(mid, left_done, lo, p);
    lemma_parts_unchanged_keep_value(left_done, done, p + 1, hi);
    assert forall|k: int| 0 <= k < p + 1 implies done[k] == left_done[k] by {
        assert(done.subrange(0, p + 1)[k] == done[k]);
        assert(left_done.subrange(0, p + 1)[k] == left_done[k]);
    }
    // the pivot kept its place and value
    assert(done[p] == mid[p]);
    // the right half of done is bounded below by the pivot
    assert(left_done.subrange(p + 1, hi) =~= mid.subrange(p + 1, hi));
    lemma_same_elements_keep_lower_bound(
        left_done.subrange(p + 1, hi),
        done.subrange(p + 1, hi),
        mid[p],
    );
    assert forall|k: int| p < k < hi implies done[k] > mid[p] by {
        assert(done.subrange(p + 1, hi)[k - (p + 1)] == done[k]);
    }
    // the left half of done is bounded above by the pivot
    assert forall|k: int| lo <= k < p implies done[k] <= mid[p] by {
        assert(done[k] == left_done[k]);
    }
    // ascending across the whole range
    assert forall|i: int, j: int| lo <= i <= j < hi implies done[i] <= done[j] by {
        if i < p && j < p {
            assert(done[i] == left_done[i] && done[j] == left_done[j]);
        } else if i == p || j == p {
        } else if i > p && j > p {
        } else {
            // i on the left, j on the right of the pivot
            assert(done[i] <= mid[p]);
        }
    }
    // element preservation across the whole range
    assert(done.subrange(lo, hi) =~= done.subrange(lo, p) + done.subrange(p, p + 1)
        + done.subrange(p + 1, hi));
    assert(mid.subrange(lo, hi) =~= mid.subrange(lo, p) + mid.subrange(p, p + 1) + mid.subrange(
        p + 1,
        hi,
    ));
    lemma_multiset_of_concat(done.subrange(lo, p) + done.subrange(p, p + 1), done.subrange(p + 1, hi));
    lemma_multiset_of_concat(done.subrange(lo, p), done.subrange(p, p + 1));
    lemma_multiset_of_concat(mid.subrange(lo, p) + mid.subrange(p, p + 1), mid.subrange(p + 1, hi));
    lemma_multiset_of_concat(mid.subrange(lo, p), mid.subrange(p, p + 1));
    assert(done.subrange(lo, p) =~= left_done.subrange(lo, p));
    assert(done.subrange(p, p + 1) =~= mid.subrange(p, p + 1));
    assert(done.subrange(0, lo) =~= orig.subrange(0, lo));
    assert(done.subrange(hi, len) =~= orig.subrange(hi, len));
}

/// Sorts the whole vector in place by recursive partitioning.
pub fn quicksort(values: &mut Vec<u64>)
    ensures
        sorted(final(values)@),
        final(values)@.to_multiset() == old(values)@.to_multiset(),
{
    let n = values.len();
    quicksort_range(values, 0, n);
    proof {
        assert(values@.subrange(0, n as int) =~= values@);
        assert(old(values)@.subrange(0, n as int) =~= old(values)@);
    }
}

/// Quicksort: partition around a pivot, recurse on both sides.
pub struct QuickSort;

impl Sorter for QuickSort {
    fn sort(&self, values: &mut Vec<u64>) {
        quicksort(values);
    }
}

/// Selection sort: repeatedly move the smallest remaining element to the
/// front of the unsorted part.
pub struct SelectionSort;

impl Sorter for SelectionSort {
    fn sort(&self, values: &mut Vec<u64>) {
        let n = values.len();
        let mut idx: usize = 0;
        while idx < n
            invariant
                idx <= n == values@.len(),
                values@.to_multiset() == old(values)@.to_multiset(),
                sorted_between(values@, 0, idx as int),
                forall|a: int, b: int| 0 <= a < idx <= b < n ==> values@[a] <= values@[b],
            decreases n - idx,
        {
            let ghost entry = values@;
            let mut smallest: usize = idx;
            let mut j: usize = idx + 1;
            while j < n
                invariant
                    idx <= smallest < j <= n == values@.len(),
                    values@ == entry,
                    forall|k: int| idx <= k < j ==> values@[smallest as int] <= values@[k],
                decreases n - j,
            {
                if values[j] < values[smallest] {
                    smallest = j;
                }
                j = j + 1;
            }
            if smallest != idx {
                swap_at(values, idx, smallest);
            }
            idx = idx + 1;
        }
    }
}

} // verus!
