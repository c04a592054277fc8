//! Boolean circuits as a flat arena of gates, and their cleartext meaning.
//!
//! Wires are numbered: the declared inputs come first, then the output of each
//! gate in the order of the arena. A gate may only read wires with a smaller
//! number than its own output, so index order is a topological order.

use vstd::prelude::*;

verus! {

/// A primitive boolean gate; the payload names the wires it reads.
#[derive(Clone, Copy, Debug)]
pub enum Gate {
    Xor(usize, usize),
    And(usize, usize),
    Not(usize),
}

/// A circuit: declared inputs, an arena of gates, and the wires that are outputs.
#[derive(Debug)]
pub struct Circuit {
    pub input_count: usize,
    pub gates: Vec<Gate>,
    pub outputs: Vec<usize>,
}

/// Every wire that `g` reads has a number below `limit`.
pub open spec fn gate_reads_below(g: Gate, limit: int) -> bool {
    match g {
        Gate::Xor(a, b) => a < limit && b < limit,
        Gate::And(a, b) => a < limit && b < limit,
        Gate::Not(a) => a < limit,
    }
}

/// The bit that `g` puts on its output wire, given the bits on the wires before it.
pub open spec fn gate_value(g: Gate, wires: Seq<bool>) -> bool {
    match g {
        Gate::Xor(a, b) => wires[a as int] != wires[b as int],
        Gate::And(a, b) => wires[a as int] && wires[b as int],
        Gate::Not(a) => !wires[a as int],
    }
}

/// The bits on the input wires and on the outputs of the first `k` gates.
pub open spec fn wire_values(gates: Seq<Gate>, inputs: Seq<bool>, k: nat) -> Seq<bool>
    decreases k,
{
    if k == 0 {
        inputs
    } else {
        let before = wire_values(gates, inputs, (k - 1) as nat);
        before.push(gate_value(gates[k - 1], before))
    }
}

/// How many of the gates are AND gates, the only ones that need a garbled table.
pub open spec fn and_count(gates: Seq<Gate>) -> nat
    decreases gates.len(),
{
    if gates.len() == 0 {
        0
    } else {
        and_count(gates.drop_last()) + (if gates.last() is And { 1nat } else { 0nat })
    }
}

/// The gates form an arena over `input_count` inputs: each reads earlier wires only.
pub open spec fn arena_ok(gates: Seq<Gate>, input_count: int) -> bool {
    forall|i: int| 0 <= i < gates.len() ==> gate_reads_below(#[trigger] gates[i], input_count + i)
}

/// Evaluating `k` gates yields one bit per input and one per gate.
pub proof fn lemma_wire_values_len(gates: Seq<Gate>, inputs: Seq<bool>, k: nat)
    ensures
        wire_values(gates, inputs, k).len() == inputs.len() + k,
    decreases k,
{
    if k > 0 {
        lemma_wire_values_len(gates, inputs, (k - 1) as nat);
    }
}

/// Gates after the first `k` do not influence the first `k` outputs.
pub proof fn lemma_wire_values_prefix(g1: Seq<Gate>, g2: Seq<Gate>, inputs: Seq<bool>, k: nat)
    requires
        k <= g1.len(),
        k <= g2.len(),
        forall|i: int| 0 <= i < k ==> g1[i] == g2[i],
    ensures
        wire_values(g1, inputs, k) == wire_values(g2, inputs, k),
    decreases k,
{
    if k > 0 {
        lemma_wire_values_prefix(g1, g2, inputs, (k - 1) as nat);
    }
}

/// A wire keeps its bit when more gates are evaluated.
pub proof fn lemma_wire_values_stable(gates: Seq<Gate>, inputs: Seq<bool>, j: nat, k: nat, w: int)
    requires
        j <= k,
        0 <= w < inputs.len() + j,
    ensures
        wire_values(gates, inputs, k)[w] == wire_values(gates, inputs, j)[w],
    decreases k,
{
    if j < k {
        lemma_wire_values_stable(gates, inputs, j, (k - 1) as nat, w);
        lemma_wire_values_len(gates, inputs, (k - 1) as nat);
    }
}

impl Circuit {
    /// Gates read earlier wires only, outputs name existing wires, and wire
    /// numbers fit the machine word.
    pub open spec fn well_formed(&self) -> bool {
        &&& self.input_count + self.gates@.len() <= usize::MAX
        &&& arena_ok(self.gates@, self.input_count as int)
        &&& forall|j: int|
            0 <= j < self.outputs@.len() ==> (#[trigger] self.outputs@[j]) < self.input_count
                + self.gates@.len()
    }

    /// The bits on all wires when the circuit is run in the clear on `inputs`.
    pub open spec fn wires(&self, inputs: Seq<bool>) -> Seq<bool> {
        wire_values(self.gates@, inputs, self.gates@.len())
    }

    /// The bits on the declared output wires when run in the clear on `inputs`.
    pub open spec fn output_values(&self, inputs: Seq<bool>) -> Seq<bool> {
        Seq::new(self.outputs@.len(), |j: int| self.wires(inputs)[self.outputs@[j] as int])
    }

    /// Tells whether the circuit is well formed.
    pub fn check(&self) -> (ok: bool)
        ensures
            ok == self.well_formed(),
    {
        let count = self.gates.len();
        if count > usize::MAX - self.input_count {
            return false;
        }
        let limit = self.input_count + count;
        let mut i: usize = 0;
        while i < count
            invariant
                i <= count == self.gates@.len(),
                limit == self.input_count + count,
                forall|m: int|
                    0 <= m < i ==> gate_reads_below(
                        #[trigger] self.gates@[m],
                        self.input_count + m,
                    ),
            decreases count - i,
        {
            let below = self.input_count + i;
            let fits = match self.gates[i] {
                Gate::Xor(a, b) => a < below && b < below,
                Gate::And(a, b) => a < below && b < below,
                Gate::Not(a) => a < below,
            };
            if !fits {
                assert(!gate_reads_below(self.gates@[i as int], self.input_count + i));
                return false;
            }
            i = i + 1;
        }
        let mut j: usize = 0;
        while j < self.outputs.len()
            invariant
                j <= self.outputs@.len(),
                limit == self.input_count + self.gates@.len(),
                forall|m: int| 0 <= m < j ==> (#[trigger] self.outputs@[m]) < limit,
            decreases self.outputs@.len() - j,
        {
            if self.outputs[j] >= limit {
                assert(!(self.outputs@[j as int] < self.input_count + self.gates@.len()));
                return false;
            }
            j = j + 1;
        }
        true
    }

    /// Counts the AND gates of the arena.
    pub fn and_gate_count(&self) -> (n: usize)
        ensures
            n == and_count(self.gates@),
    {
        let mut n: usize = 0;
        let mut i: usize = 0;
        while i < self.gates.len()
            invariant
                i <= self.gates@.len(),
                n == and_count(self.gates@.take(i as int)),
                n <= i,
            decreases self.gates@.len() - i,
        {
            proof {
                assert(self.gates@.take(i + 1).drop_last() == self.gates@.take(i as int));
            }
            match self.gates[i] {
                Gate::And(_, _) => {
                    n = n + 1;
                },
                _ => {},
            }
            i = i + 1;
        }
        proof {
            assert(self.gates@.take(i as int) == self.gates@);
        }
        n
    }
}

} // verus!
