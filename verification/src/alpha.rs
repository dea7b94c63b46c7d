//! The sensitivity parameter and the closed form it selects.

use crate::binary64::{
    equal, is_finite, lemma_only_zero_is_zero, scaled_value, spec_equal, POSITIVE_INFINITY,
    POSITIVE_ZERO, SIGN_BIT,
};
use vstd::prelude::*;

verus! {

/// The sensitivity parameter, told apart once where it enters.
///
/// Two values have a closed form of their own: positive infinity, the
/// maximum-shift limit, and zero, the logarithmic limit. Every other value
/// goes into the general formula and is carried along as its bit pattern.
#[derive(Clone, Copy, Debug, PartialEq, Eq, Structural)]
pub enum Alpha {
    /// Exactly positive infinity.
    Infinite,
    /// Exactly zero, of either sign.
    Zero,
    /// Anything else, a NaN and negative infinity included.
    General(u64),
}

impl Alpha {
    /// A `General` parameter is neither positive infinity nor a zero.
    pub open spec fn well_formed(self) -> bool {
        match self {
            Alpha::General(bits) => !spec_equal(bits, POSITIVE_INFINITY) && !spec_equal(
                bits,
                POSITIVE_ZERO,
            ),
            _ => true,
        }
    }

    /// The form that the parameter encoded by `bits` selects.
    pub open spec fn spec_from_bits(bits: u64) -> Alpha {
        if spec_equal(bits, POSITIVE_INFINITY) {
            Alpha::Infinite
        } else if spec_equal(bits, POSITIVE_ZERO) {
            Alpha::Zero
        } else {
            Alpha::General(bits)
        }
    }

    /// Tells the parameter apart by exact comparison: only positive infinity
    /// itself is `Infinite`, only a zero is `Zero`, however close another
    /// value comes to either.
    #[verifier::when_used_as_spec(spec_from_bits)]
    pub fn from_bits(bits: u64) -> (alpha: Alpha)
        ensures
            alpha == Alpha::spec_from_bits(bits),
            alpha.well_formed(),
            alpha is Infinite <==> bits == POSITIVE_INFINITY,
            alpha is Zero <==> bits == POSITIVE_ZERO || bits == SIGN_BIT,
            alpha is General <==> alpha == Alpha::General(bits),
    {
        if equal(bits, POSITIVE_INFINITY) {
            Alpha::Infinite
        } else if equal(bits, POSITIVE_ZERO) {
            Alpha::Zero
        } else {
            Alpha::General(bits)
        }
    }
}

/// The logarithmic limit is selected by the real number zero and by nothing
/// else.
pub proof fn lemma_zero_is_selected_by_zero(bits: u64)
    ensures
        Alpha::spec_from_bits(bits) is Zero <==> is_finite(bits) && scaled_value(bits) == 0,
{
    if is_finite(bits) {
        lemma_only_zero_is_zero(bits);
    }
}

} // verus!
