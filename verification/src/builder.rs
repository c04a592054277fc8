//! Construction of the equality and ordering circuits.
//!
//! Both circuits take the bits of the left operand on wires `0..n` and those
//! of the right operand on wires `n..2n`, most significant first. Their shape
//! depends on the width alone, never on the bits that will flow through.

use crate::bits::{prefix_value, GarbledInt, GarbledUint, MAX_WIDTH};
use crate::circuit::{
    and_count, arena_ok, gate_reads_below, gate_value, lemma_wire_values_len,
    lemma_wire_values_stable, wire_values, Circuit, Gate,
};
use vstd::prelude::*;

verus! {

/// What the ordering circuit answers on `inputs`: first "left is less", then
/// "both are equal".
pub open spec fn comparator_outputs(inputs: Seq<bool>, n: nat, signed: bool) -> Seq<bool> {
    seq![
        prefix_value(inputs, 0, n, signed) < prefix_value(inputs, n as int, n, signed),
        prefix_value(inputs, 0, n, signed) == prefix_value(inputs, n as int, n, signed),
    ]
}

/// What the equality circuit answers on `inputs`.
pub open spec fn equality_outputs(inputs: Seq<bool>, n: nat) -> Seq<bool> {
    seq![prefix_value(inputs, 0, n, false) == prefix_value(inputs, n as int, n, false)]
}

/// On the bits of two operands of one width, one after the other, the
/// circuits answer about the numbers that the operands spell.
pub proof fn lemma_outputs_on_operands(left: Seq<bool>, right: Seq<bool>, signed: bool)
    requires
        left.len() == right.len(),
    ensures
        comparator_outputs(left + right, left.len(), signed) == seq![
            prefix_value(left, 0, left.len(), signed) < prefix_value(
                right,
                0,
                right.len(),
                signed,
            ),
            prefix_value(left, 0, left.len(), signed) == prefix_value(
                right,
                0,
                right.len(),
                signed,
            ),
        ],
        equality_outputs(left + right, left.len()) == seq![
            prefix_value(left, 0, left.len(), signed) == prefix_value(
                right,
                0,
                right.len(),
                signed,
            ),
        ],
{
    crate::bits::lemma_prefix_value_of_halves(left, right, left.len(), signed);
    crate::bits::lemma_prefix_value_of_halves(left, right, left.len(), false);
    crate::bits::lemma_equal_in_either_reading(left, 0, right, 0, left.len());
}

/// `after` is `before` with more wires behind it, and its wire `w`, the last
/// one, carries `v`.
pub open spec fn extends_with(before: Seq<bool>, after: Seq<bool>, w: int, v: bool) -> bool {
    &&& before.len() <= w
    &&& after.len() == w + 1
    &&& after[w] == v
    &&& forall|j: int| 0 <= j < before.len() ==> #[trigger] after[j] == before[j]
}

/// A gate arena under construction.
pub struct CircuitBuilder {
    pub input_count: usize,
    pub gates: Vec<Gate>,
}

impl CircuitBuilder {
    /// Every gate so far reads earlier wires only, and wire numbers fit the
    /// machine word.
    pub open spec fn well_formed(&self) -> bool {
        &&& self.input_count + self.gates@.len() <= usize::MAX
        &&& arena_ok(self.gates@, self.input_count as int)
    }

    /// The bits on all wires built so far when run in the clear on `inputs`.
    pub open spec fn wires(&self, inputs: Seq<bool>) -> Seq<bool> {
        wire_values(self.gates@, inputs, self.gates@.len())
    }

    /// An arena with `input_count` input wires and no gate.
    pub fn new(input_count: usize) -> (b: Self)
        ensures
            b.well_formed(),
            b.input_count == input_count,
            b.gates@.len() == 0,
    {
        CircuitBuilder { input_count, gates: Vec::new() }
    }

    /// Appends `g` and returns the number of its output wire. Earlier wires
    /// keep their bits; the new wire carries what `g` computes from them.
    pub fn push(&mut self, g: Gate) -> (w: usize)
        requires
            old(self).well_formed(),
            gate_reads_below(g, old(self).input_count + old(self).gates@.len()),
            old(self).input_count + old(self).gates@.len() < usize::MAX,
        ensures
            final(self).well_formed(),
            final(self).input_count == old(self).input_count,
            final(self).gates@ == old(self).gates@.push(g),
            w == old(self).input_count + old(self).gates@.len(),
            and_count(final(self).gates@) == and_count(old(self).gates@) + (if g is And {
                1nat
            } else {
                0nat
            }),
            forall|inputs: Seq<bool>|
                inputs.len() == old(self).input_count ==> {
                    &&& #[trigger] final(self).wires(inputs) == old(self).wires(inputs).push(
                        gate_value(g, old(self).wires(inputs)),
                    )
                    &&& old(self).wires(inputs).len() == w
                },
    {
        let w = self.input_count + self.gates.len();
        let ghost before = self.gates@;
        self.gates.push(g);
        proof {
            assert(self.gates@.drop_last() == before);
            assert forall|inputs: Seq<bool>| inputs.len() == self.input_count implies {
                &&& #[trigger] self.wires(inputs) == wire_values(
                    before,
                    inputs,
                    before.len(),
                ).push(gate_value(g, wire_values(before, inputs, before.len())))
                &&& wire_values(before, inputs, before.len()).len() == w
            } by {
                crate::circuit::lemma_wire_values_prefix(
                    self.gates@,
                    before,
                    inputs,
                    before.len(),
                );
                lemma_wire_values_len(before, inputs, before.len());
                let earlier = wire_values(self.gates@, inputs, before.len());
                assert(self.gates@.len() == before.len() + 1);
                assert(self.gates@[before.len() as int] == g);
                assert(wire_values(self.gates@, inputs, (before.len() + 1) as nat) == earlier.push(
                    gate_value(g, earlier),
                ));
            }
        }
        w
    }

    /// Appends `x XNOR y`: an XOR gate and a NOT gate.
    pub fn xnor(&mut self, x: usize, y: usize) -> (w: usize)
        requires
            old(self).well_formed(),
            x < old(self).input_count + old(self).gates@.len(),
            y < old(self).input_count + old(self).gates@.len(),
            old(self).input_count + old(self).gates@.len() + 2 <= usize::MAX,
        ensures
            final(self).well_formed(),
            final(self).gates@ == old(self).gates@.push(Gate::Xor(x, y)).push(Gate::Not((w - 1) as usize)),
            final(self).input_count == old(self).input_count,
            final(self).gates@.len() == old(self).gates@.len() + 2,
            w + 1 == final(self).input_count + final(self).gates@.len(),
            and_count(final(self).gates@) == and_count(old(self).gates@),
            forall|inputs: Seq<bool>|
                inputs.len() == old(self).input_count ==> extends_with(
                    old(self).wires(inputs),
                    #[trigger] final(self).wires(inputs),
                    w as int,
                    old(self).wires(inputs)[x as int] == old(self).wires(inputs)[y as int],
                ),
    {
        let d = self.push(Gate::Xor(x, y));
        self.push(Gate::Not(d))
    }

    /// Appends `(NOT x) AND y`: a NOT gate and an AND gate.
    pub fn and_not(&mut self, x: usize, y: usize) -> (w: usize)
        requires
            old(self).well_formed(),
            x < old(self).input_count + old(self).gates@.len(),
            y < old(self).input_count + old(self).gates@.len(),
            old(self).input_count + old(self).gates@.len() + 2 <= usize::MAX,
        ensures
            final(self).well_formed(),
            final(self).gates@ == old(self).gates@.push(Gate::Not(x)).push(Gate::And((w - 1) as usize, y)),
            final(self).input_count == old(self).input_count,
            final(self).gates@.len() == old(self).gates@.len() + 2,
            w + 1 == final(self).input_count + final(self).gates@.len(),
            and_count(final(self).gates@) == and_count(old(self).gates@) + 1,
            forall|inputs: Seq<bool>|
                inputs.len() == old(self).input_count ==> extends_with(
                    old(self).wires(inputs),
                    #[trigger] final(self).wires(inputs),
                    w as int,
                    !old(self).wires(inputs)[x as int] && old(self).wires(inputs)[y as int],
                ),
    {
        let nx = self.push(Gate::Not(x));
        self.push(Gate::And(nx, y))
    }

    /// Appends `x AND y`.
    pub fn and(&mut self, x: usize, y: usize) -> (w: usize)
        requires
            old(self).well_formed(),
            x < old(self).input_count + old(self).gates@.len(),
            y < old(self).input_count + old(self).gates@.len(),
            old(self).input_count + old(self).gates@.len() + 1 <= usize::MAX,
        ensures
            final(self).well_formed(),
            final(self).gates@ == old(self).gates@.push(Gate::And(x, y)),
            final(self).input_count == old(self).input_count,
            final(self).gates@.len() == old(self).gates@.len() + 1,
            w + 1 == final(self).input_count + final(self).gates@.len(),
            and_count(final(self).gates@) == and_count(old(self).gates@) + 1,
            forall|inputs: Seq<bool>|
                inputs.len() == old(self).input_count ==> extends_with(
                    old(self).wires(inputs),
                    #[trigger] final(self).wires(inputs),
                    w as int,
                    old(self).wires(inputs)[x as int] && old(self).wires(inputs)[y as int],
                ),
    {
        self.push(Gate::And(x, y))
    }

    /// Appends `x OR y`, as the negation of `(NOT x) AND (NOT y)`: three NOT
    /// gates and an AND gate.
    pub fn or(&mut self, x: usize, y: usize) -> (w: usize)
        requires
            old(self).well_formed(),
            x < old(self).input_count + old(self).gates@.len(),
            y < old(self).input_count + old(self).gates@.len(),
            old(self).input_count + old(self).gates@.len() + 4 <= usize::MAX,
        ensures
            final(self).well_formed(),
            final(self).gates@ == old(self).gates@.push(Gate::Not(x)).push(Gate::Not(y)).push(
                Gate::And((w - 3) as usize, (w - 2) as usize),
            ).push(Gate::Not((w - 1) as usize)),
            final(self).input_count == old(self).input_count,
            final(self).gates@.len() == old(self).gates@.len() + 4,
            w + 1 == final(self).input_count + final(self).gates@.len(),
            and_count(final(self).gates@) == and_count(old(self).gates@) + 1,
            forall|inputs: Seq<bool>|
                inputs.len() == old(self).input_count ==> extends_with(
                    old(self).wires(inputs),
                    #[trigger] final(self).wires(inputs),
                    w as int,
                    old(self).wires(inputs)[x as int] || old(self).wires(inputs)[y as int],
                ),
    {
        let nx = self.push(Gate::Not(x));
        let ny = self.push(Gate::Not(y));
        let neither = self.push(Gate::And(nx, ny));
        self.push(Gate::Not(neither))
    }

    /// Closes the arena with the given output wires.
    pub fn finish(self, outputs: Vec<usize>) -> (c: Circuit)
        requires
            self.well_formed(),
            forall|j: int|
                0 <= j < outputs@.len() ==> (#[trigger] outputs@[j]) < self.input_count
                    + self.gates@.len(),
        ensures
            c.well_formed(),
            c.input_count == self.input_count,
            c.gates@ == self.gates@,
            c.outputs@ == outputs@,
    {
        Circuit { input_count: self.input_count, gates: self.gates, outputs }
    }
}

/// The equality circuit for operands of `n` bits: one XNOR per position,
/// AND-reduced into a single output wire.
pub fn equality_circuit(n: usize) -> (c: Circuit)
    requires
        1 <= n <= MAX_WIDTH,
    ensures
        c.well_formed(),
        c.input_count == 2 * n,
        c.outputs@.len() == 1,
        c.gates@.len() == 3 * n - 1,
        and_count(c.gates@) == n - 1,
        forall|inputs: Seq<bool>|
            inputs.len() == 2 * n ==> #[trigger] c.output_values(inputs) == equality_outputs(
                inputs,
                n as nat,
            ),
{
    let mut b = CircuitBuilder::new(2 * n);
    let d = b.push(Gate::Xor(0, n));
    let mut acc: usize = b.push(Gate::Not(d));
    proof {
        assert forall|inputs: Seq<bool>| inputs.len() == 2 * n implies (#[trigger] b.wires(
            inputs,
        ))[acc as int] == (prefix_value(inputs, 0, 1, false) == prefix_value(
            inputs,
            n as int,
            1,
            false,
        )) by {}
    }
    let mut i: usize = 1;
    while i < n
        invariant
            1 <= i <= n <= MAX_WIDTH,
            b.well_formed(),
            b.input_count == 2 * n,
            b.gates@.len() == 3 * i - 1,
            and_count(b.gates@) == i - 1,
            acc < 2 * n + b.gates@.len(),
            forall|inputs: Seq<bool>|
                inputs.len() == 2 * n ==> {
                    &&& (#[trigger] b.wires(inputs)).len() == 2 * n + b.gates@.len()
                    &&& b.wires(inputs)[acc as int] == (prefix_value(inputs, 0, i as nat, false)
                        == prefix_value(inputs, n as int, i as nat, false))
                },
        decreases n - i,
    {
        let ghost b0 = b;
        let d = b.push(Gate::Xor(i, n + i));
        let e = b.push(Gate::Not(d));
        let next = b.push(Gate::And(acc, e));
        proof {
            assert forall|inputs: Seq<bool>| inputs.len() == 2 * n implies {
                &&& (#[trigger] b.wires(inputs)).len() == 2 * n + b.gates@.len()
                &&& b.wires(inputs)[next as int] == (prefix_value(
                    inputs,
                    0,
                    (i + 1) as nat,
                    false,
                ) == prefix_value(inputs, n as int, (i + 1) as nat, false))
            } by {
                lemma_wire_values_stable(b0.gates@, inputs, 0, b0.gates@.len(), i as int);
                lemma_wire_values_stable(b0.gates@, inputs, 0, b0.gates@.len(), n + i);
            }
        }
        acc = next;
        i = i + 1;
    }
    let mut outputs: Vec<usize> = Vec::new();
    outputs.push(acc);
    let c = b.finish(outputs);
    proof {
        assert forall|inputs: Seq<bool>| inputs.len() == 2 * n implies #[trigger] c.output_values(
            inputs,
        ) == equality_outputs(inputs, n as nat) by {
            assert(c.wires(inputs) == b.wires(inputs));
            assert(c.output_values(inputs) =~= equality_outputs(inputs, n as nat));
        }
    }
    c
}

/// The ordering circuit for operands of `n` bits: a ripple from the most
/// significant position down, carrying "still tied" and "left is less". With
/// `signed`, the leading position is the sign, where a set bit makes the
/// smaller number.
pub fn comparator_circuit(n: usize, signed: bool) -> (c: Circuit)
    requires
        1 <= n <= MAX_WIDTH,
    ensures
        c.well_formed(),
        c.input_count == 2 * n,
        c.outputs@.len() == 2,
        c.gates@.len() == 10 * n - 6,
        and_count(c.gates@) == 4 * n - 3,
        forall|inputs: Seq<bool>|
            inputs.len() == 2 * n ==> #[trigger] c.output_values(inputs) == comparator_outputs(
                inputs,
                n as nat,
                signed,
            ),
{
    let mut b = CircuitBuilder::new(2 * n);
    let mut less: usize = if signed {
        let ny = b.push(Gate::Not(n));
        b.push(Gate::And(0, ny))
    } else {
        let nx = b.push(Gate::Not(0));
        b.push(Gate::And(nx, n))
    };
    let d = b.push(Gate::Xor(0, n));
    let mut tied: usize = b.push(Gate::Not(d));
    proof {
        assert forall|inputs: Seq<bool>| inputs.len() == 2 * n implies {
            &&& (#[trigger] b.wires(inputs))[tied as int] == (prefix_value(inputs, 0, 1, signed)
                == prefix_value(inputs, n as int, 1, signed))
            &&& b.wires(inputs)[less as int] == (prefix_value(inputs, 0, 1, signed)
                < prefix_value(inputs, n as int, 1, signed))
        } by {}
    }
    let mut i: usize = 1;
    while i < n
        invariant
            1 <= i <= n <= MAX_WIDTH,
            b.well_formed(),
            b.input_count == 2 * n,
            b.gates@.len() == 10 * i - 6,
            and_count(b.gates@) == 4 * i - 3,
            tied < 2 * n + b.gates@.len(),
            less < 2 * n + b.gates@.len(),
            forall|inputs: Seq<bool>|
                inputs.len() == 2 * n ==> {
                    &&& (#[trigger] b.wires(inputs)).len() == 2 * n + b.gates@.len()
                    &&& b.wires(inputs)[tied as int] == (prefix_value(inputs, 0, i as nat, signed)
                        == prefix_value(inputs, n as int, i as nat, signed))
                    &&& b.wires(inputs)[less as int] == (prefix_value(inputs, 0, i as nat, signed)
                        < prefix_value(inputs, n as int, i as nat, signed))
                },
        decreases n - i,
    {
        let ghost b0 = b;
        let lt_bit = b.and_not(i, n + i);
        let lt_here = b.and(lt_bit, tied);
        let next_less = b.or(less, lt_here);
        let same = b.xnor(i, n + i);
        let next_tied = b.and(tied, same);
        proof {
            assert forall|inputs: Seq<bool>| inputs.len() == 2 * n implies {
                &&& (#[trigger] b.wires(inputs)).len() == 2 * n + b.gates@.len()
                &&& b.wires(inputs)[next_tied as int] == (prefix_value(
                    inputs,
                    0,
                    (i + 1) as nat,
                    signed,
                ) == prefix_value(inputs, n as int, (i + 1) as nat, signed))
                &&& b.wires(inputs)[next_less as int] == (prefix_value(
                    inputs,
                    0,
                    (i + 1) as nat,
                    signed,
                ) < prefix_value(inputs, n as int, (i + 1) as nat, signed))
            } by {
                lemma_wire_values_stable(b0.gates@, inputs, 0, b0.gates@.len(), i as int);
                lemma_wire_values_stable(b0.gates@, inputs, 0, b0.gates@.len(), n + i);
            }
        }
        less = next_less;
        tied = next_tied;
        i = i + 1;
    }
    let mut outputs: Vec<usize> = Vec::new();
    outputs.push(less);
    outputs.push(tied);
    let c = b.finish(outputs);
    proof {
        assert forall|inputs: Seq<bool>| inputs.len() == 2 * n implies #[trigger] c.output_values(
            inputs,
        ) == comparator_outputs(inputs, n as nat, signed) by {
            assert(c.wires(inputs) == b.wires(inputs));
            assert(c.output_values(inputs) =~= comparator_outputs(inputs, n as nat, signed));
        }
    }
    c
}

/// The equality circuit for two unsigned operands of one width.
pub fn build_equality<const N: usize>(a: &GarbledUint<N>, b: &GarbledUint<N>) -> (c: Circuit)
    ensures
        c.well_formed(),
        c.input_count == 2 * N,
        c.outputs@.len() == 1,
        c.gates@.len() == 3 * N - 1,
        and_count(c.gates@) == N - 1,
        forall|inputs: Seq<bool>|
            inputs.len() == 2 * N ==> #[trigger] c.output_values(inputs) == equality_outputs(
                inputs,
                N as nat,
            ),
{
    let n = a.width();
    equality_circuit(n)
}

/// The equality circuit for two two's-complement operands of one width: the
/// same circuit, since equal numbers have equal bits in either reading.
pub fn build_signed_equality<const N: usize>(a: &GarbledInt<N>, b: &GarbledInt<N>) -> (c: Circuit)
    ensures
        c.well_formed(),
        c.input_count == 2 * N,
        c.outputs@.len() == 1,
        c.gates@.len() == 3 * N - 1,
        and_count(c.gates@) == N - 1,
        forall|inputs: Seq<bool>|
            inputs.len() == 2 * N ==> #[trigger] c.output_values(inputs) == equality_outputs(
                inputs,
                N as nat,
            ),
{
    let n = a.width();
    equality_circuit(n)
}

/// The ordering circuit for two unsigned operands of one width.
pub fn build_comparator<const N: usize>(a: &GarbledUint<N>, b: &GarbledUint<N>) -> (c: Circuit)
    ensures
        c.well_formed(),
        c.input_count == 2 * N,
        c.outputs@.len() == 2,
        c.gates@.len() == 10 * N - 6,
        forall|inputs: Seq<bool>|
            inputs.len() == 2 * N ==> #[trigger] c.output_values(inputs) == comparator_outputs(
                inputs,
                N as nat,
                false,
            ),
{
    let n = a.width();
    comparator_circuit(n, false)
}

/// The ordering circuit for two two's-complement operands of one width.
pub fn build_signed_comparator<const N: usize>(a: &GarbledInt<N>, b: &GarbledInt<N>) -> (c:
    Circuit)
    ensures
        c.well_formed(),
        c.input_count == 2 * N,
        c.outputs@.len() == 2,
        c.gates@.len() == 10 * N - 6,
        forall|inputs: Seq<bool>|
            inputs.len() == 2 * N ==> #[trigger] c.output_values(inputs) == comparator_outputs(
                inputs,
                N as nat,
                true,
            ),
{
    let n = a.width();
    comparator_circuit(n, true)
}

} // verus!
