//! Which items of a system are present.
//!
//! An item is present in a system when its count there is above zero. The
//! normalisation sums over the present items of each system, in the order of
//! their indices.

use crate::binary64::{is_positive, spec_is_positive};
use vstd::prelude::*;

verus! {

/// The indices at which `counts` holds a number above zero, ascending.
pub open spec fn present_indices(counts: Seq<u64>) -> Seq<usize>
    decreases counts.len(),
{
    if counts.len() == 0 {
        Seq::empty()
    } else if spec_is_positive(counts.last()) {
        present_indices(counts.drop_last()).push((counts.len() - 1) as usize)
    } else {
        present_indices(counts.drop_last())
    }
}

/// `indices` lists, in ascending order and without repetition, exactly the
/// places of `counts` that hold a number above zero.
pub open spec fn lists_present(counts: Seq<u64>, indices: Seq<usize>) -> bool {
    &&& forall|j: int, k: int| 0 <= j < k < indices.len() ==> indices[j] < indices[k]
    &&& forall|k: int|
        0 <= k < indices.len() ==> indices[k] < counts.len() && spec_is_positive(
            counts[#[trigger] indices[k] as int],
        )
    &&& forall|i: int|
        0 <= i < counts.len() && spec_is_positive(#[trigger] counts[i]) ==> indices.contains(
            i as usize,
        )
}

/// Finds the present items: the indices of the counts above zero, in
/// ascending order. A NaN count and a negative count mark an absent item, as a
/// zero of either sign does.
pub fn which_positive(counts: &[u64]) -> (indices: Vec<usize>)
    ensures
        indices@ == present_indices(counts@),
        lists_present(counts@, indices@),
        indices.len() <= counts.len(),
{
    let mut indices: Vec<usize> = Vec::new();
    let mut i: usize = 0;
    while i < counts.len()
        invariant
            i <= counts.len(),
            indices@ == present_indices(counts@.take(i as int)),
        decreases counts.len() - i,
    {
        proof {
            let seen = counts@.take(i + 1);
            assert(seen.drop_last() == counts@.take(i as int));
            assert(seen.last() == counts@[i as int]);
        }
        if is_positive(counts[i]) {
            indices.push(i);
        }
        i += 1;
    }
    proof {
        assert(counts@.take(i as int) == counts@);
        lemma_present_indices_lists_present(counts@);
    }
    indices
}

/// The recursive definition meets the declarative one.
pub proof fn lemma_present_indices_lists_present(counts: Seq<u64>)
    requires
        counts.len() <= usize::MAX,
    ensures
        lists_present(counts, present_indices(counts)),
        present_indices(counts).len() <= counts.len(),
    decreases counts.len(),
{
    if counts.len() > 0 {
        let shorter = counts.drop_last();
        let before = present_indices(shorter);
        let indices = present_indices(counts);
        let top = (counts.len() - 1) as usize;
        lemma_present_indices_lists_present(shorter);
        assert forall|i: int|
            0 <= i < counts.len() && spec_is_positive(#[trigger] counts[i]) implies indices.contains(
            i as usize,
        ) by {
            if i < shorter.len() {
                assert(spec_is_positive(shorter[i]));
                let k = choose|k: int| 0 <= k < before.len() && before[k] == i as usize;
                assert(indices[k] == i as usize);
            } else {
                assert(indices[indices.len() - 1] == top);
            }
        }
        assert forall|k: int| 0 <= k < indices.len() implies indices[k] < counts.len()
            && spec_is_positive(counts[#[trigger] indices[k] as int]) by {
            if k < before.len() {
                assert(shorter[before[k] as int] == counts[before[k] as int]);
            }
        }
    }
}

/// The declarative statement has one solution only: whatever lists the
/// present items of `counts` is `present_indices(counts)`.
pub proof fn lemma_lists_present_is_unique(counts: Seq<u64>, indices: Seq<usize>)
    requires
        counts.len() <= usize::MAX,
        lists_present(counts, indices),
    ensures
        indices == present_indices(counts),
    decreases counts.len(),
{
    if counts.len() == 0 {
        if indices.len() > 0 {
            assert(indices[0] < counts.len());
        }
        assert(indices =~= Seq::empty());
    } else {
        let shorter = counts.drop_last();
        let top = (counts.len() - 1) as usize;
        if spec_is_positive(counts.last()) {
            assert(spec_is_positive(counts[top as int]));
            let at = choose|k: int| 0 <= k < indices.len() && indices[k] == top;
            if at < indices.len() - 1 {
                assert(indices[at] < indices[indices.len() - 1]);
            }
            let front = indices.drop_last();
            assert forall|i: int|
                0 <= i < shorter.len() && spec_is_positive(
                    #[trigger] shorter[i],
                ) implies front.contains(i as usize) by {
                assert(spec_is_positive(counts[i]));
                let k = choose|k: int| 0 <= k < indices.len() && indices[k] == i as usize;
                assert(front[k] == i as usize);
            }
            assert forall|k: int| 0 <= k < front.len() implies front[k] < shorter.len()
                && spec_is_positive(shorter[#[trigger] front[k] as int]) by {
                assert(indices[k] < indices[indices.len() - 1]);
            }
            lemma_lists_present_is_unique(shorter, front);
            assert(indices =~= front.push(top));
        } else {
            assert forall|i: int|
                0 <= i < shorter.len() && spec_is_positive(
                    #[trigger] shorter[i],
                ) implies indices.contains(i as usize) by {
                assert(spec_is_positive(counts[i]));
            }
            assert forall|k: int| 0 <= k < indices.len() implies indices[k] < shorter.len()
                && spec_is_positive(shorter[#[trigger] indices[k] as int]) by {
                assert(spec_is_positive(counts[indices[k] as int]));
            }
            lemma_lists_present_is_unique(shorter, indices);
        }
    }
}

/// Where every count is above zero, every item is present.
pub proof fn lemma_all_positive_all_present(counts: Seq<u64>)
    requires
        counts.len() <= usize::MAX,
        forall|i: int| 0 <= i < counts.len() ==> spec_is_positive(#[trigger] counts[i]),
    ensures
        present_indices(counts) == Seq::new(counts.len(), |i: int| i as usize),
{
    let all = Seq::new(counts.len(), |i: int| i as usize);
    assert forall|i: int|
        0 <= i < counts.len() && spec_is_positive(#[trigger] counts[i]) implies all.contains(
        i as usize,
    ) by {
        assert(all[i] == i as usize);
    }
    lemma_lists_present_is_unique(counts, all);
}

/// Where no count is above zero, no item is present.
pub proof fn lemma_none_positive_none_present(counts: Seq<u64>)
    requires
        counts.len() <= usize::MAX,
        forall|i: int| 0 <= i < counts.len() ==> !spec_is_positive(#[trigger] counts[i]),
    ensures
        present_indices(counts) == Seq::<usize>::empty(),
{
    lemma_lists_present_is_unique(counts, Seq::empty());
}

/// The values found at the given places, in the order of the places.
pub open spec fn selected(values: Seq<u64>, indices: Seq<usize>) -> Seq<u64> {
    Seq::new(indices.len(), |k: int| values[indices[k] as int])
}

/// Picks the values of the listed items, in the order of the list: from the
/// inverse ranks of a system and its present items, the terms over which the
/// normalisation sums.
pub fn select(values: &[u64], indices: &[usize]) -> (picked: Vec<u64>)
    requires
        forall|k: int| 0 <= k < indices.len() ==> indices[k] < values.len(),
    ensures
        picked@ == selected(values@, indices@),
{
    let mut picked: Vec<u64> = Vec::new();
    let mut k: usize = 0;
    while k < indices.len()
        invariant
            k <= indices.len(),
            forall|j: int| 0 <= j < indices.len() ==> indices[j] < values.len(),
            picked@ == selected(values@, indices@.take(k as int)),
        decreases indices.len() - k,
    {
        picked.push(values[indices[k]]);
        k += 1;
        assert(picked@ =~= selected(values@, indices@.take(k as int)));
    }
    assert(indices@.take(k as int) == indices@);
    picked
}

/// Every present item of `counts` has a place below `limit`.
pub open spec fn present_within(counts: Seq<u64>, limit: nat) -> bool {
    forall|i: int| 0 <= i < counts.len() && spec_is_positive(#[trigger] counts[i]) ==> i < limit
}

/// The values of the present items of a system, in index order: from its
/// counts and its inverse ranks, the terms over which the normalisation sums.
/// There are none to give if a present item lies beyond the end of `values`.
pub fn present_terms(counts: &[u64], values: &[u64]) -> (terms: Option<Vec<u64>>)
    ensures
        terms is Some <==> present_within(counts@, values@.len()),
        terms matches Some(picked) ==> picked@ == selected(values@, present_indices(counts@)),
        counts.len() <= values.len() ==> terms is Some,
{
    let indices = which_positive(counts);
    let n: usize = indices.len();
    if n > 0 && indices[n - 1] >= values.len() {
        assert(spec_is_positive(counts@[indices@[n - 1] as int]));
        None
    } else {
        assert forall|k: int| 0 <= k < indices.len() implies indices[k] < values.len() by {
            if k < n - 1 {
                assert(indices[k] < indices[n - 1]);
            }
        }
        assert forall|i: int|
            0 <= i < counts.len() && spec_is_positive(#[trigger] counts@[i]) implies i
            < values.len() by {
            let k = choose|k: int| 0 <= k < indices.len() && indices[k] == i as usize;
            assert(indices[k] < values.len());
        }
        Some(select(values, indices.as_slice()))
    }
}

/// Where every count is above zero, the selected values are all the values.
pub proof fn lemma_all_positive_selects_all(counts: Seq<u64>, values: Seq<u64>)
    requires
        counts.len() <= usize::MAX,
        counts.len() == values.len(),
        forall|i: int| 0 <= i < counts.len() ==> spec_is_positive(#[trigger] counts[i]),
    ensures
        selected(values, present_indices(counts)) == values,
{
    lemma_all_positive_all_present(counts);
}

} // verus!
