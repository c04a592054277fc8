//! Equality and ordering of encoded integers, each answered by building the
//! circuit for it and running it under the garbling protocol.

use crate::bits::{GarbledInt, GarbledUint};
use crate::builder::{
    build_comparator, build_equality, build_signed_comparator, build_signed_equality,
    lemma_outputs_on_operands,
};
use crate::protocol::{fresh_seed, run};
use std::cmp::Ordering;
use vstd::prelude::*;
use vstd::std_specs::cmp::{PartialEqSpecImpl, PartialOrdSpecImpl};

verus! {

/// How `x` stands to `y` among the integers.
pub open spec fn ordering_of(x: int, y: int) -> Ordering {
    if x < y {
        Ordering::Less
    } else if x == y {
        Ordering::Equal
    } else {
        Ordering::Greater
    }
}

/// Reads the two output bits of the ordering circuit.
pub fn decode_ordering(is_less: bool, is_equal: bool) -> (r: Ordering)
    ensures
        r == (if is_less {
            Ordering::Less
        } else if is_equal {
            Ordering::Equal
        } else {
            Ordering::Greater
        }),
{
    if is_less {
        Ordering::Less
    } else if is_equal {
        Ordering::Equal
    } else {
        Ordering::Greater
    }
}

/// Orders two unsigned operands under the protocol, with labels drawn from
/// `seed`. The answer does not depend on the seed.
pub fn compare_with_seed<const N: usize>(a: &GarbledUint<N>, b: &GarbledUint<N>, seed: u128) -> (r:
    Ordering)
    ensures
        r == ordering_of(a.value(), b.value()),
{
    let circuit = build_comparator(a, b);
    let answer = run(&circuit, a.bits(), b.bits(), seed);
    proof {
        lemma_outputs_on_operands(a@, b@, false);
    }
    decode_ordering(answer[0], answer[1])
}

/// Orders two two's-complement operands under the protocol, with labels
/// drawn from `seed`. The answer does not depend on the seed.
pub fn compare_signed_with_seed<const N: usize>(
    a: &GarbledInt<N>,
    b: &GarbledInt<N>,
    seed: u128,
) -> (r: Ordering)
    ensures
        r == ordering_of(a.value(), b.value()),
{
    let circuit = build_signed_comparator(a, b);
    let answer = run(&circuit, a.bits(), b.bits(), seed);
    proof {
        lemma_outputs_on_operands(a@, b@, true);
    }
    decode_ordering(answer[0], answer[1])
}

/// Tests two unsigned operands for equality under the protocol, with labels
/// drawn from `seed`. The answer does not depend on the seed.
pub fn equal_with_seed<const N: usize>(a: &GarbledUint<N>, b: &GarbledUint<N>, seed: u128) -> (r:
    bool)
    ensures
        r == (a.value() == b.value()),
{
    let circuit = build_equality(a, b);
    let answer = run(&circuit, a.bits(), b.bits(), seed);
    proof {
        lemma_outputs_on_operands(a@, b@, false);
    }
    answer[0]
}

/// Tests two two's-complement operands for equality under the protocol, with
/// labels drawn from `seed`. The answer does not depend on the seed.
pub fn equal_signed_with_seed<const N: usize>(
    a: &GarbledInt<N>,
    b: &GarbledInt<N>,
    seed: u128,
) -> (r: bool)
    ensures
        r == (a.value() == b.value()),
{
    let circuit = build_signed_equality(a, b);
    let answer = run(&circuit, a.bits(), b.bits(), seed);
    proof {
        lemma_outputs_on_operands(a@, b@, true);
    }
    answer[0]
}

/// Builds, garbles and evaluates the ordering circuit for two unsigned
/// operands, in one pass and with fresh labels.
pub fn build_and_execute_comparator<const N: usize>(a: &GarbledUint<N>, b: &GarbledUint<N>) -> (r:
    Ordering)
    ensures
        r == ordering_of(a.value(), b.value()),
{
    compare_with_seed(a, b, fresh_seed())
}

/// Builds, garbles and evaluates the ordering circuit for two
/// two's-complement operands, in one pass and with fresh labels.
pub fn build_and_execute_signed_comparator<const N: usize>(
    a: &GarbledInt<N>,
    b: &GarbledInt<N>,
) -> (r: Ordering)
    ensures
        r == ordering_of(a.value(), b.value()),
{
    compare_signed_with_seed(a, b, fresh_seed())
}

/// Builds, garbles and evaluates the equality circuit for two unsigned
/// operands, in one pass and with fresh labels.
pub fn build_and_execute_equality<const N: usize>(a: &GarbledUint<N>, b: &GarbledUint<N>) -> (r:
    bool)
    ensures
        r == (a.value() == b.value()),
{
    equal_with_seed(a, b, fresh_seed())
}

/// Builds, garbles and evaluates the equality circuit for two
/// two's-complement operands, in one pass and with fresh labels.
pub fn build_and_execute_signed_equality<const N: usize>(
    a: &GarbledInt<N>,
    b: &GarbledInt<N>,
) -> (r: bool)
    ensures
        r == (a.value() == b.value()),
{
    equal_signed_with_seed(a, b, fresh_seed())
}

impl<const N: usize> PartialEqSpecImpl for GarbledUint<N> {
    open spec fn obeys_eq_spec() -> bool {
        true
    }

    open spec fn eq_spec(&self, other: &Self) -> bool {
        self.value() == other.value()
    }
}

impl<const N: usize> PartialEq for GarbledUint<N> {
    fn eq(&self, other: &Self) -> (r: bool) {
        build_and_execute_equality(self, other)
    }
}

impl<const N: usize> Eq for GarbledUint<N> {

}

impl<const N: usize> PartialOrdSpecImpl for GarbledUint<N> {
    open spec fn obeys_partial_cmp_spec() -> bool {
        true
    }

    open spec fn partial_cmp_spec(&self, other: &Self) -> Option<Ordering> {
        Some(ordering_of(self.value(), other.value()))
    }
}

impl<const N: usize> PartialOrd for GarbledUint<N> {
    fn partial_cmp(&self, other: &Self) -> (r: Option<Ordering>) {
        Some(build_and_execute_comparator(self, other))
    }
}

impl<const N: usize> GarbledUint<N> {
    /// The three-way order of the two numbers.
    pub fn cmp(&self, other: &Self) -> (r: Ordering)
        ensures
            r == ordering_of(self.value(), other.value()),
    {
        build_and_execute_comparator(self, other)
    }
}

impl<'a, const N: usize> PartialEqSpecImpl<&'a GarbledUint<N>> for GarbledUint<N> {
    open spec fn obeys_eq_spec() -> bool {
        true
    }

    open spec fn eq_spec(&self, other: &&'a GarbledUint<N>) -> bool {
        self.value() == other.value()
    }
}

/// Equality with a borrowed operand: true exactly when the numbers are equal.
impl<'a, const N: usize> PartialEq<&'a GarbledUint<N>> for GarbledUint<N> {
    fn eq(&self, other: &&'a GarbledUint<N>) -> (r: bool) {
        build_and_execute_equality(self, *other)
    }
}

impl<'a, const N: usize> PartialOrdSpecImpl<&'a GarbledUint<N>> for GarbledUint<N> {
    open spec fn obeys_partial_cmp_spec() -> bool {
        true
    }

    open spec fn partial_cmp_spec(&self, other: &&'a GarbledUint<N>) -> Option<Ordering> {
        Some(ordering_of(self.value(), other.value()))
    }
}

impl<'a, const N: usize> PartialOrd<&'a GarbledUint<N>> for GarbledUint<N> {
    fn partial_cmp(&self, other: &&'a GarbledUint<N>) -> (r: Option<Ordering>) {
        Some(build_and_execute_comparator(self, *other))
    }
}

impl<const N: usize> PartialEqSpecImpl for GarbledInt<N> {
    open spec fn obeys_eq_spec() -> bool {
        true
    }

    open spec fn eq_spec(&self, other: &Self) -> bool {
        self.value() == other.value()
    }
}

impl<const N: usize> PartialEq for GarbledInt<N> {
    fn eq(&self, other: &Self) -> (r: bool) {
        build_and_execute_signed_equality(self, other)
    }
}

impl<const N: usize> Eq for GarbledInt<N> {

}

impl<const N: usize> PartialOrdSpecImpl for GarbledInt<N> {
    open spec fn obeys_partial_cmp_spec() -> bool {
        true
    }

    open spec fn partial_cmp_spec(&self, other: &Self) -> Option<Ordering> {
        Some(ordering_of(self.value(), other.value()))
    }
}

impl<const N: usize> PartialOrd for GarbledInt<N> {
    fn partial_cmp(&self, other: &Self) -> (r: Option<Ordering>) {
        Some(build_and_execute_signed_comparator(self, other))
    }
}

impl<const N: usize> GarbledInt<N> {
    /// The three-way order of the two numbers.
    pub fn cmp(&self, other: &Self) -> (r: Ordering)
        ensures
            r == ordering_of(self.value(), other.value()),
    {
        build_and_execute_signed_comparator(self, other)
    }
}

} // verus!
