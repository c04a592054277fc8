//! What holds of equality and order on encoded integers, at every width.

use crate::bits::{GarbledInt, GarbledUint};
use crate::comparator::ordering_of;
use std::cmp::Ordering;
use vstd::prelude::*;
use vstd::std_specs::cmp::{PartialEqSpec, PartialOrdIs, PartialOrdSpec};

verus! {

/// Every unsigned operand equals itself and compares as equal with itself.
pub proof fn lemma_unsigned_reflexive<const N: usize>(a: GarbledUint<N>)
    ensures
        a.eq_spec(&a),
        a.partial_cmp_spec(&a) == Some(Ordering::Equal),
{
}

/// Every signed operand equals itself and compares as equal with itself.
pub proof fn lemma_signed_reflexive<const N: usize>(a: GarbledInt<N>)
    ensures
        a.eq_spec(&a),
        a.partial_cmp_spec(&a) == Some(Ordering::Equal),
{
}

/// Two unsigned operands that encode the native numbers `x` and `y` compare
/// as `x` and `y` do, and are equal exactly when `x` and `y` are.
pub proof fn lemma_unsigned_agrees_with_native<const N: usize>(
    a: GarbledUint<N>,
    b: GarbledUint<N>,
    x: u128,
    y: u128,
)
    requires
        a.value() == x,
        b.value() == y,
    ensures
        a.partial_cmp_spec(&b) == x.partial_cmp_spec(&y),
        a.eq_spec(&b) == x.eq_spec(&y),
{
}

/// Two signed operands that encode the native numbers `x` and `y` compare as
/// `x` and `y` do, negative numbers included.
pub proof fn lemma_signed_agrees_with_native<const N: usize>(
    a: GarbledInt<N>,
    b: GarbledInt<N>,
    x: i128,
    y: i128,
)
    requires
        a.value() == x,
        b.value() == y,
    ensures
        a.partial_cmp_spec(&b) == x.partial_cmp_spec(&y),
        a.eq_spec(&b) == x.eq_spec(&y),
{
}

/// Swapping the operands mirrors the three-way result, and leaves equality
/// as it was.
pub proof fn lemma_unsigned_antisymmetric<const N: usize>(a: GarbledUint<N>, b: GarbledUint<N>)
    ensures
        a.partial_cmp_spec(&b) == Some(Ordering::Less) <==> b.partial_cmp_spec(&a) == Some(
            Ordering::Greater,
        ),
        a.partial_cmp_spec(&b) == Some(Ordering::Equal) <==> b.partial_cmp_spec(&a) == Some(
            Ordering::Equal,
        ),
        a.is_le(&b) && b.is_le(&a) ==> a.eq_spec(&b),
        a.eq_spec(&b) == b.eq_spec(&a),
{
}

/// Swapping the operands mirrors the three-way result, and leaves equality
/// as it was.
pub proof fn lemma_signed_antisymmetric<const N: usize>(a: GarbledInt<N>, b: GarbledInt<N>)
    ensures
        a.partial_cmp_spec(&b) == Some(Ordering::Less) <==> b.partial_cmp_spec(&a) == Some(
            Ordering::Greater,
        ),
        a.partial_cmp_spec(&b) == Some(Ordering::Equal) <==> b.partial_cmp_spec(&a) == Some(
            Ordering::Equal,
        ),
        a.is_le(&b) && b.is_le(&a) ==> a.eq_spec(&b),
        a.eq_spec(&b) == b.eq_spec(&a),
{
}

/// "Less" and "less or equal" are transitive, and equal operands stand alike
/// to any third.
pub proof fn lemma_unsigned_transitive<const N: usize>(
    a: GarbledUint<N>,
    b: GarbledUint<N>,
    c: GarbledUint<N>,
)
    ensures
        a.is_lt(&b) && b.is_lt(&c) ==> a.is_lt(&c),
        a.is_le(&b) && b.is_le(&c) ==> a.is_le(&c),
        a.eq_spec(&b) ==> a.partial_cmp_spec(&c) == b.partial_cmp_spec(&c),
{
}

/// "Less" and "less or equal" are transitive, and equal operands stand alike
/// to any third.
pub proof fn lemma_signed_transitive<const N: usize>(
    a: GarbledInt<N>,
    b: GarbledInt<N>,
    c: GarbledInt<N>,
)
    ensures
        a.is_lt(&b) && b.is_lt(&c) ==> a.is_lt(&c),
        a.is_le(&b) && b.is_le(&c) ==> a.is_le(&c),
        a.eq_spec(&b) ==> a.partial_cmp_spec(&c) == b.partial_cmp_spec(&c),
{
}

/// The order is total, and the six relational operators all read off the one
/// three-way result as they do for native integers.
pub proof fn lemma_unsigned_operators_agree<const N: usize>(a: GarbledUint<N>, b: GarbledUint<N>)
    ensures
        a.partial_cmp_spec(&b) == Some(ordering_of(a.value(), b.value())),
        a.is_lt(&b) <==> a.value() < b.value(),
        a.is_le(&b) <==> a.value() <= b.value(),
        a.is_gt(&b) <==> a.value() > b.value(),
        a.is_ge(&b) <==> a.value() >= b.value(),
        a.eq_spec(&b) <==> a.value() == b.value(),
        a.eq_spec(&b) <==> a.partial_cmp_spec(&b) == Some(Ordering::Equal),
        a.is_lt(&b) || a.eq_spec(&b) || a.is_gt(&b),
{
}

/// The order is total, and the six relational operators all read off the one
/// three-way result as they do for native integers.
pub proof fn lemma_signed_operators_agree<const N: usize>(a: GarbledInt<N>, b: GarbledInt<N>)
    ensures
        a.partial_cmp_spec(&b) == Some(ordering_of(a.value(), b.value())),
        a.is_lt(&b) <==> a.value() < b.value(),
        a.is_le(&b) <==> a.value() <= b.value(),
        a.is_gt(&b) <==> a.value() > b.value(),
        a.is_ge(&b) <==> a.value() >= b.value(),
        a.eq_spec(&b) <==> a.value() == b.value(),
        a.eq_spec(&b) <==> a.partial_cmp_spec(&b) == Some(Ordering::Equal),
        a.is_lt(&b) || a.eq_spec(&b) || a.is_gt(&b),
{
}

} // verus!
