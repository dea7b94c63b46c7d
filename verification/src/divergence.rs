//! Divergence elements of the maximum-shift limit.
//!
//! With the sensitivity parameter at positive infinity the divergence of an
//! item is decided by comparison alone: nothing where its two inverse ranks
//! are equal, the larger inverse rank where they differ.

use crate::binary64::{
    equal, is_finite, larger, lemma_only_zero_is_zero, lemma_order_key_orders_values, order_key,
    scaled_value, spec_equal, spec_is_nan, spec_is_positive, spec_larger, POSITIVE_ZERO,
    QUIET_NAN,
};
use crate::presence::{lemma_all_positive_selects_all, present_indices, selected};
use vstd::prelude::*;

verus! {

/// The divergence element of one item in the maximum-shift limit, from its
/// inverse ranks in the two systems.
pub open spec fn spec_max_shift_element(x: u64, y: u64) -> u64 {
    if spec_equal(x, y) {
        POSITIVE_ZERO
    } else {
        spec_larger(x, y)
    }
}

/// The divergence elements of the maximum-shift limit: one for each index
/// that both vectors have.
pub open spec fn max_shift_elements(inv_r1: Seq<u64>, inv_r2: Seq<u64>) -> Seq<u64> {
    Seq::new(
        if inv_r1.len() <= inv_r2.len() {
            inv_r1.len()
        } else {
            inv_r2.len()
        },
        |i: int| spec_max_shift_element(inv_r1[i], inv_r2[i]),
    )
}

/// The divergence element of one item in the maximum-shift limit: positive
/// zero where the inverse ranks are equal, else the larger of them.
#[verifier::when_used_as_spec(spec_max_shift_element)]
pub fn max_shift_element(x: u64, y: u64) -> (element: u64)
    ensures
        element == spec_max_shift_element(x, y),
{
    if equal(x, y) {
        POSITIVE_ZERO
    } else {
        larger(x, y)
    }
}

/// The raw divergence elements for a sensitivity parameter of positive
/// infinity, item by item. Where one vector is longer than the other, the
/// items that only it has are left out.
pub fn div_elems_infinite(inv_r1: &[u64], inv_r2: &[u64]) -> (elements: Vec<u64>)
    ensures
        elements@ == max_shift_elements(inv_r1@, inv_r2@),
        elements.len() == inv_r1.len() || elements.len() == inv_r2.len(),
        elements.len() <= inv_r1.len(),
        elements.len() <= inv_r2.len(),
        forall|i: int|
            0 <= i < elements.len() && spec_equal(inv_r1[i], inv_r2[i]) ==> #[trigger] elements[i]
                == POSITIVE_ZERO,
{
    let n: usize = if inv_r1.len() <= inv_r2.len() {
        inv_r1.len()
    } else {
        inv_r2.len()
    };
    let mut elements: Vec<u64> = Vec::with_capacity(n);
    let mut i: usize = 0;
    while i < n
        invariant
            i <= n,
            n <= inv_r1.len(),
            n <= inv_r2.len(),
            elements.len() == i,
            forall|j: int|
                0 <= j < i ==> #[trigger] elements[j] == spec_max_shift_element(
                    inv_r1[j],
                    inv_r2[j],
                ),
        decreases n - i,
    {
        elements.push(max_shift_element(inv_r1[i], inv_r2[i]));
        i += 1;
    }
    assert(elements@ =~= max_shift_elements(inv_r1@, inv_r2@));
    elements
}

/// Swapping the two systems leaves the element of an item as it is.
pub proof fn lemma_max_shift_element_symmetric(x: u64, y: u64)
    ensures
        spec_max_shift_element(x, y) == spec_max_shift_element(y, x),
{
}

/// Swapping the two systems leaves every divergence element of the
/// maximum-shift limit as it is.
pub proof fn lemma_max_shift_elements_symmetric(inv_r1: Seq<u64>, inv_r2: Seq<u64>)
    ensures
        max_shift_elements(inv_r1, inv_r2) == max_shift_elements(inv_r2, inv_r1),
{
    assert(max_shift_elements(inv_r1, inv_r2) =~= max_shift_elements(inv_r2, inv_r1));
}

/// An item whose inverse ranks are equal contributes positive zero, and so
/// does an item that has the same inverse rank in both systems, unless that
/// inverse rank is a NaN.
pub proof fn lemma_equal_inverse_ranks_give_zero(x: u64, y: u64)
    ensures
        spec_equal(x, y) ==> spec_max_shift_element(x, y) == POSITIVE_ZERO,
        !spec_is_nan(x) ==> spec_max_shift_element(x, x) == POSITIVE_ZERO,
{
}

/// An element is one of its two inverse ranks unless it is positive zero, or
/// `QUIET_NAN` where both inverse ranks are NaNs.
pub proof fn lemma_max_shift_element_is_an_argument(x: u64, y: u64)
    ensures
        ({
            let element = spec_max_shift_element(x, y);
            ||| element == POSITIVE_ZERO
            ||| element == x
            ||| element == y
            ||| (element == QUIET_NAN && spec_is_nan(x) && spec_is_nan(y))
        }),
{
}

/// Between inverse ranks that are numbers and not negative, an element is a
/// number, is not negative, and is no larger than the larger of the two.
pub proof fn lemma_max_shift_element_bounded(x: u64, y: u64)
    requires
        !spec_is_nan(x),
        !spec_is_nan(y),
        0 <= order_key(x),
        0 <= order_key(y),
    ensures
        ({
            let element = spec_max_shift_element(x, y);
            &&& !spec_is_nan(element)
            &&& 0 <= order_key(element) <= order_key(spec_larger(x, y))
        }),
{
}

/// Read as real numbers, the element of two finite inverse ranks is zero
/// where they are the same number and the larger of them where they are not.
pub proof fn lemma_max_shift_element_value(x: u64, y: u64)
    requires
        is_finite(x),
        is_finite(y),
    ensures
        is_finite(spec_max_shift_element(x, y)),
        scaled_value(spec_max_shift_element(x, y)) == if scaled_value(x) == scaled_value(y) {
            0
        } else if scaled_value(x) < scaled_value(y) {
            scaled_value(y)
        } else {
            scaled_value(x)
        },
{
    lemma_order_key_orders_values(x, y);
    lemma_only_zero_is_zero(POSITIVE_ZERO);
}

/// Where every item of both systems is present and no inverse rank is a
/// NaN, each element is positive zero or one of the two terms that its item
/// adds to the normalisation of the maximum-shift limit.
pub proof fn lemma_element_is_zero_or_a_normalisation_term(
    counts1: Seq<u64>,
    counts2: Seq<u64>,
    inv_r1: Seq<u64>,
    inv_r2: Seq<u64>,
    i: int,
)
    requires
        counts1.len() <= usize::MAX,
        counts1.len() == counts2.len(),
        counts1.len() == inv_r1.len(),
        counts1.len() == inv_r2.len(),
        forall|j: int| 0 <= j < counts1.len() ==> spec_is_positive(#[trigger] counts1[j]),
        forall|j: int| 0 <= j < counts2.len() ==> spec_is_positive(#[trigger] counts2[j]),
        0 <= i < counts1.len(),
        !spec_is_nan(inv_r1[i]),
        !spec_is_nan(inv_r2[i]),
    ensures
        ({
            let element = max_shift_elements(inv_r1, inv_r2)[i];
            let terms1 = selected(inv_r1, present_indices(counts1));
            let terms2 = selected(inv_r2, present_indices(counts2));
            &&& terms1.len() == counts1.len()
            &&& terms2.len() == counts2.len()
            &&& element == POSITIVE_ZERO || element == terms1[i] || element == terms2[i]
        }),
{
    lemma_all_positive_selects_all(counts1, inv_r1);
    lemma_all_positive_selects_all(counts2, inv_r2);
}

} // verus!
