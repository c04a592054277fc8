//! One run of the two-party protocol: garble, hand over one label per input
//! bit, evaluate, decode. Also the proof that what is decoded is what the
//! circuit computes in the clear.

use crate::circuit::{gate_reads_below, gate_value, wire_values, Circuit, Gate};
use crate::garble::{
    decodable, evaluate, evaluate_spec, gate_label, label_values, output_label, permute_bit,
    shade, tables_fit, token_of, tokens, Garbling, Label, LabelPair, ProtocolError,
};
use crate::generator::{garble, garbles, gate_garbled, pair_of, valid_garbling};
use vstd::prelude::*;

verus! {

/// The label of `pair` that stands for `bit`.
pub open spec fn chosen(pair: LabelPair, bit: bool) -> Label {
    if bit {
        pair.one
    } else {
        pair.zero
    }
}

/// One label per input wire, picked by the clear bits.
pub open spec fn selected(pairs: Seq<LabelPair>, bits: Seq<bool>) -> Seq<Label> {
    Seq::new(pairs.len(), |w: int| chosen(pairs[w], bits[w]))
}

proof fn lemma_xor_algebra(x: u128, y: u128, d: u128)
    ensures
        (x ^ d) ^ (y ^ d) == x ^ y,
        (x ^ d) ^ y == (x ^ y) ^ d,
        x ^ (y ^ d) == (x ^ y) ^ d,
        (x ^ d) ^ d == x,
        (x ^ y) ^ x == y,
        permute_bit(d) ==> x ^ d != x,
{
    assert((x ^ d) ^ (y ^ d) == x ^ y) by (bit_vector);
    assert((x ^ d) ^ y == (x ^ y) ^ d) by (bit_vector);
    assert(x ^ (y ^ d) == (x ^ y) ^ d) by (bit_vector);
    assert((x ^ d) ^ d == x) by (bit_vector);
    assert((x ^ y) ^ x == y) by (bit_vector);
    assert(d & 1 == 1 ==> x ^ d != x) by (bit_vector);
}

/// Under a garbling, the label on every wire is the wire's label for the bit
/// that the wire carries in the clear.
pub proof fn lemma_labels_track_bits(
    c: Circuit,
    g: Garbling,
    zero: Seq<u128>,
    delta: u128,
    bits: Seq<bool>,
    inputs: Seq<u128>,
    k: nat,
)
    requires
        c.well_formed(),
        garbles(c, g, zero, delta),
        bits.len() == c.input_count,
        inputs.len() == c.input_count,
        forall|w: int|
            0 <= w < c.input_count ==> #[trigger] inputs[w] == shade(zero[w], delta, bits[w]),
        k <= c.gates@.len(),
    ensures
        label_values(c.gates@, g.tables@, inputs, k).len() == c.input_count + k,
        wire_values(c.gates@, bits, k).len() == c.input_count + k,
        forall|w: int|
            0 <= w < c.input_count + k ==> #[trigger] label_values(
                c.gates@,
                g.tables@,
                inputs,
                k,
            )[w] == shade(zero[w], delta, wire_values(c.gates@, bits, k)[w]),
    decreases k,
{
    if k > 0 {
        let j = (k - 1) as nat;
        lemma_labels_track_bits(c, g, zero, delta, bits, inputs, j);
        let lab = label_values(c.gates@, g.tables@, inputs, j);
        let val = wire_values(c.gates@, bits, j);
        let gate = c.gates@[j as int];
        let slot = g.tables@[j as int];
        let zout = zero[c.input_count + j];
        assert(gate_reads_below(gate, c.input_count + j));
        assert(gate_garbled(gate, j as int, slot, zero, delta, c.input_count as int));
        assert(gate_label(gate, slot, j, lab) == shade(zout, delta, gate_value(gate, val))) by {
            match gate {
                Gate::Xor(a, b) => {
                    assert(lab[a as int] == shade(zero[a as int], delta, val[a as int]));
                    assert(lab[b as int] == shade(zero[b as int], delta, val[b as int]));
                    lemma_xor_algebra(zero[a as int], zero[b as int], delta);
                },
                Gate::Not(a) => {
                    assert(lab[a as int] == shade(zero[a as int], delta, val[a as int]));
                    lemma_xor_algebra(zero[a as int], zero[a as int], delta);
                },
                Gate::And(a, b) => {
                    assert(lab[a as int] == shade(zero[a as int], delta, val[a as int]));
                    assert(lab[b as int] == shade(zero[b as int], delta, val[b as int]));
                    let m = crate::garble::mix(lab[a as int], lab[b as int], j as u128);
                    lemma_xor_algebra(m, shade(zout, delta, gate_value(gate, val)), delta);
                },
            }
        }
        assert forall|w: int| 0 <= w < c.input_count + k implies #[trigger] label_values(
            c.gates@,
            g.tables@,
            inputs,
            k,
        )[w] == shade(zero[w], delta, wire_values(c.gates@, bits, k)[w]) by {
            if w < c.input_count + j {
                assert(lab[w] == shade(zero[w], delta, val[w]));
            }
        }
    }
}

/// Garbled evaluation is clear evaluation: on the labels that stand for
/// `bits`, evaluating any valid garbling of a circuit succeeds and decodes
/// exactly the bits that the circuit computes on `bits`.
pub proof fn lemma_evaluation_decodes(c: Circuit, g: Garbling, bits: Seq<bool>)
    requires
        c.well_formed(),
        valid_garbling(c, g),
        bits.len() == c.input_count,
    ensures
        evaluate_spec(c, g.tables@, g.decode@, tokens(selected(g.input_labels@, bits))) == Ok::<
            Seq<bool>,
            ProtocolError,
        >(c.output_values(bits)),
{
    let (zero, delta) = choose|zero: Seq<u128>, delta: u128| garbles(c, g, zero, delta);
    let inputs = tokens(selected(g.input_labels@, bits));
    assert forall|w: int| 0 <= w < c.input_count implies #[trigger] inputs[w] == shade(
        zero[w],
        delta,
        bits[w],
    ) by {
        assert(pair_of(g.input_labels@[w], zero[w], delta));
    }
    let n = c.gates@.len();
    lemma_labels_track_bits(c, g, zero, delta, bits, inputs, n);
    assert(tables_fit(c.gates@, g.tables@)) by {
        assert forall|k: int| 0 <= k < n && (#[trigger] c.gates@[k]) is And implies g.tables@[k] is Some by {
            assert(gate_garbled(c.gates@[k], k, g.tables@[k], zero, delta, c.input_count as int));
        }
    }
    let active = label_values(c.gates@, g.tables@, inputs, n);
    let clear = wire_values(c.gates@, bits, n);
    assert forall|j: int| 0 <= j < c.outputs@.len() implies decodable(
        #[trigger] g.decode@[j],
        output_label(c, active, j),
    ) && (output_label(c, active, j) != token_of(g.decode@[j].zero)) == clear[c.outputs@[j] as int] by {
        let w = c.outputs@[j] as int;
        assert(w < c.input_count + n);
        assert(pair_of(g.decode@[j], zero[w], delta));
        assert(active[w] == shade(zero[w], delta, clear[w]));
        lemma_xor_algebra(zero[w], zero[w], delta);
    }
    let got = evaluate_spec(c, g.tables@, g.decode@, inputs);
    assert(got is Ok);
    assert(got->Ok_0 =~= c.output_values(bits));
}

/// Hands over the label of `pair` that `choice` asks for, and only that one.
pub fn transfer(pair: &LabelPair, choice: bool) -> (l: Label)
    ensures
        l == chosen(*pair, choice),
{
    if choice {
        pair.one
    } else {
        pair.zero
    }
}

/// The labels for `bits` on the input wires that begin at `start`.
pub fn select_labels(pairs: &Vec<LabelPair>, start: usize, bits: &Vec<bool>) -> (labels: Vec<Label>)
    requires
        start + bits@.len() <= pairs@.len(),
    ensures
        labels@.len() == bits@.len(),
        forall|i: int|
            0 <= i < bits@.len() ==> #[trigger] labels@[i] == chosen(pairs@[start + i], bits@[i]),
{
    let total: usize = pairs.len();
    let mut labels: Vec<Label> = Vec::new();
    let mut i: usize = 0;
    while i < bits.len()
        invariant
            i <= bits@.len(),
            start + bits@.len() <= pairs@.len() == total,
            labels@.len() == i,
            forall|m: int|
                0 <= m < i ==> #[trigger] labels@[m] == chosen(pairs@[start + m], bits@[m]),
        decreases bits@.len() - i,
    {
        labels.push(transfer(&pairs[start + i], bits[i]));
        i = i + 1;
    }
    labels
}

/// Runs `circuit` under the protocol on the generator's bits `left` and the
/// evaluator's bits `right`, with labels drawn from `seed`. Whatever the
/// seed, the answer is what the circuit computes in the clear.
pub fn execute(circuit: &Circuit, left: &Vec<bool>, right: &Vec<bool>, seed: u128) -> (r: Result<
    Vec<bool>,
    ProtocolError,
>)
    requires
        circuit.well_formed(),
    ensures
        left@.len() + right@.len() != circuit.input_count ==> r == Err::<Vec<bool>, ProtocolError>(
            ProtocolError::MissingInputLabel,
        ),
        left@.len() + right@.len() == circuit.input_count ==> r is Ok && r->Ok_0@
            == circuit.output_values(left@ + right@),
{
    if left.len() > circuit.input_count || right.len() != circuit.input_count - left.len() {
        return Err(ProtocolError::MissingInputLabel);
    }
    let g = garble(circuit, seed);
    let mine = select_labels(&g.input_labels, 0, left);
    let theirs = select_labels(&g.input_labels, left.len(), right);
    proof {
        lemma_evaluation_decodes(*circuit, g, left@ + right@);
        assert(tokens(mine@ + theirs@) =~= tokens(selected(g.input_labels@, left@ + right@)));
    }
    evaluate(circuit, &g.tables, &g.decode, &mine, &theirs)
}

/// Runs `circuit` as `execute` does, on operands that fill its inputs.
pub fn run(circuit: &Circuit, left: &Vec<bool>, right: &Vec<bool>, seed: u128) -> (answer: Vec<
    bool,
>)
    requires
        circuit.well_formed(),
        left@.len() + right@.len() == circuit.input_count,
    ensures
        answer@ == circuit.output_values(left@ + right@),
{
    match execute(circuit, left, right, seed) {
        Ok(answer) => answer,
        Err(_) => vstd::pervasive::unreached(),
    }
}

/// A hasher state keyed by the operating system's randomness:
/// `RandomState::new`. Nothing is claimed of it.
#[verifier::external_body]
fn random_state() -> (s: std::collections::hash_map::RandomState) {
    std::collections::hash_map::RandomState::new()
}

/// The keyed hash of `word` under `state`: `BuildHasher::hash_one`. Nothing
/// is claimed of the result.
#[verifier::external_body]
fn keyed_hash(state: &std::collections::hash_map::RandomState, word: u64) -> (h: u64) {
    std::hash::BuildHasher::hash_one(state, word)
}

/// A seed that differs from run to run. Any value may come back; what is done with it is proved for every seed.
pub fn fresh_seed() -> (seed: u128) {
    let state = random_state();
    let high: u64 = keyed_hash(&state, 0);
    let low: u64 = keyed_hash(&state, 1);
    seed_from_words(high, low)
}

/// Joins two words into one seed, `high` in the upper half.
pub fn seed_from_words(high: u64, low: u64) -> (seed: u128)
    ensures
        seed == high * 0x1_0000_0000_0000_0000 + low,
{
    (high as u128) * 0x1_0000_0000_0000_0000 + (low as u128)
}

} // verus!
