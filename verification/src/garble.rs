//! Garbling a circuit and evaluating it on wire labels.
//!
//! Every wire has two labels that differ by one global offset. The generator
//! keeps the label for a clear bit 0 of each wire and the offset; the
//! evaluator holds exactly one label per wire and never a clear bit. XOR and
//! NOT gates cost nothing; an AND gate has a table of four masked rows, found
//! by the lowest bit of the two labels that enter it.

use crate::circuit::{gate_reads_below, Circuit, Gate};
use vstd::prelude::*;

verus! {

/// One of the two tokens of a wire. It is opaque outside this library: it
/// can be copied and handed on, not read or compared.
#[derive(Clone, Copy, Debug)]
pub struct Label {
    pub(crate) token: u128,
}

/// The token inside a label.
pub open(crate) spec fn token_of(l: Label) -> u128 {
    l.token
}

/// Both labels of one wire: the one for a clear 0 and the one for a clear 1.
#[derive(Clone, Copy, Debug)]
pub struct LabelPair {
    pub zero: Label,
    pub one: Label,
}

/// The four masked rows of an AND gate. Row `r_ij` is read when the lowest
/// bits of the entering labels are `i` and `j`.
#[derive(Clone, Copy, Debug)]
pub struct GateTable {
    pub r00: u128,
    pub r01: u128,
    pub r10: u128,
    pub r11: u128,
}

/// What the generator hands out: a table slot per gate (filled for AND gates
/// only), the label pair of each input wire, and the pair of each output wire.
#[derive(Debug)]
pub struct Garbling {
    pub tables: Vec<Option<GateTable>>,
    pub input_labels: Vec<LabelPair>,
    pub decode: Vec<LabelPair>,
}

/// Why an evaluation was abandoned.
#[derive(Clone, Copy, Debug, PartialEq, Eq, Structural)]
pub enum ProtocolError {
    /// The labels supplied are not one per input wire.
    MissingInputLabel,
    /// The tables or the decoding table do not fit the circuit.
    MalformedTable,
    /// An output wire ended with a label that its decoding pair does not hold.
    UndecodableOutput,
}

/// The odd multipliers of the pad.
pub const MIX_A: u128 = 0x9E37_79B9_7F4A_7C15_F39C_C060_5CED_C835;

pub const MIX_B: u128 = 0xC2B2_AE3D_27D4_EB4F_1656_67B1_9E37_79F9;

/// The keyed pad that masks a table row. Generator and evaluator compute the
/// same function; nothing else about it is used here.
pub open spec fn mix(a: u128, b: u128, tweak: u128) -> u128 {
    let x = a.wrapping_mul(MIX_A) ^ b.wrapping_add(tweak).wrapping_mul(MIX_B);
    let y = x ^ (x >> 61);
    y.wrapping_mul(MIX_A) ^ tweak
}

/// Computes the pad for a table row.
pub fn pad(a: u128, b: u128, tweak: u128) -> (r: u128)
    ensures
        r == mix(a, b, tweak),
{
    let x = a.wrapping_mul(MIX_A) ^ b.wrapping_add(tweak).wrapping_mul(MIX_B);
    let y = x ^ (x >> 61);
    y.wrapping_mul(MIX_A) ^ tweak
}

/// The label of a wire that carries `bit`, given its label for 0.
pub open spec fn shade(zero: u128, delta: u128, bit: bool) -> u128 {
    if bit {
        zero ^ delta
    } else {
        zero
    }
}

/// The lowest bit of a label, which picks the table row.
pub open spec fn permute_bit(x: u128) -> bool {
    x & 1 == 1
}

/// The row of `t` that is read when the entering labels end in `i` and `j`.
pub open spec fn row_of(t: GateTable, i: bool, j: bool) -> u128 {
    if i {
        if j {
            t.r11
        } else {
            t.r10
        }
    } else {
        if j {
            t.r01
        } else {
            t.r00
        }
    }
}

/// The label that gate number `k` puts on its output wire, given the labels
/// on the wires before it.
pub open spec fn gate_label(g: Gate, slot: Option<GateTable>, k: nat, active: Seq<u128>) -> u128 {
    match g {
        Gate::Xor(a, b) => active[a as int] ^ active[b as int],
        Gate::Not(a) => active[a as int],
        Gate::And(a, b) => match slot {
            Some(t) => row_of(t, permute_bit(active[a as int]), permute_bit(active[b as int]))
                ^ mix(active[a as int], active[b as int], k as u128),
            None => 0,
        },
    }
}

/// The labels on the input wires and on the outputs of the first `k` gates.
pub open spec fn label_values(
    gates: Seq<Gate>,
    tables: Seq<Option<GateTable>>,
    inputs: Seq<u128>,
    k: nat,
) -> Seq<u128>
    decreases k,
{
    if k == 0 {
        inputs
    } else {
        let before = label_values(gates, tables, inputs, (k - 1) as nat);
        before.push(gate_label(gates[k - 1], tables[k - 1], (k - 1) as nat, before))
    }
}

/// There is one slot per gate, and every AND gate has its table.
pub open spec fn tables_fit(gates: Seq<Gate>, tables: Seq<Option<GateTable>>) -> bool {
    &&& tables.len() == gates.len()
    &&& forall|k: int| 0 <= k < gates.len() && (#[trigger] gates[k]) is And ==> tables[k] is Some
}

/// The tokens of a list of labels.
pub open spec fn tokens(labels: Seq<Label>) -> Seq<u128> {
    Seq::new(labels.len(), |i: int| token_of(labels[i]))
}

/// `l` is one of the two labels of `pair`.
pub open spec fn decodable(pair: LabelPair, l: u128) -> bool {
    l == token_of(pair.zero) || l == token_of(pair.one)
}

/// The label that ends on output number `j`.
pub open spec fn output_label(c: Circuit, active: Seq<u128>, j: int) -> u128 {
    active[c.outputs@[j] as int]
}

/// What an evaluation returns, for any tables and labels whatever.
pub open spec fn evaluate_spec(
    c: Circuit,
    tables: Seq<Option<GateTable>>,
    decode: Seq<LabelPair>,
    inputs: Seq<u128>,
) -> Result<Seq<bool>, ProtocolError> {
    if inputs.len() != c.input_count {
        Err(ProtocolError::MissingInputLabel)
    } else if !tables_fit(c.gates@, tables) || decode.len() != c.outputs@.len() {
        Err(ProtocolError::MalformedTable)
    } else {
        let active = label_values(c.gates@, tables, inputs, c.gates@.len());
        if exists|j: int|
            0 <= j < c.outputs@.len() && !decodable(#[trigger] decode[j], output_label(c, active, j)) {
            Err(ProtocolError::UndecodableOutput)
        } else {
            Ok(
                Seq::new(
                    c.outputs@.len(),
                    |j: int| output_label(c, active, j) != token_of(decode[j].zero),
                ),
            )
        }
    }
}

/// Walks the circuit in index order on one label per input wire, the
/// generator's first, and decodes the labels that reach the outputs.
pub fn evaluate(
    circuit: &Circuit,
    tables: &Vec<Option<GateTable>>,
    decode: &Vec<LabelPair>,
    generator_labels: &Vec<Label>,
    evaluator_labels: &Vec<Label>,
) -> (r: Result<Vec<bool>, ProtocolError>)
    requires
        circuit.well_formed(),
    ensures
        match r {
            Ok(bits) => evaluate_spec(
                *circuit,
                tables@,
                decode@,
                tokens(generator_labels@ + evaluator_labels@),
            ) == Ok::<Seq<bool>, ProtocolError>(bits@),
            Err(e) => evaluate_spec(
                *circuit,
                tables@,
                decode@,
                tokens(generator_labels@ + evaluator_labels@),
            ) == Err::<Seq<bool>, ProtocolError>(e),
        },
{
    let ghost inputs = tokens(generator_labels@ + evaluator_labels@);
    let given = generator_labels.len();
    if given > circuit.input_count || evaluator_labels.len() != circuit.input_count - given {
        return Err(ProtocolError::MissingInputLabel);
    }
    if tables.len() != circuit.gates.len() || decode.len() != circuit.outputs.len() {
        return Err(ProtocolError::MalformedTable);
    }
    let mut active: Vec<u128> = Vec::new();
    let mut i: usize = 0;
    while i < given
        invariant
            i <= given == generator_labels@.len(),
            active@ == inputs.take(i as int),
            inputs == tokens(generator_labels@ + evaluator_labels@),
        decreases given - i,
    {
        active.push(generator_labels[i].token);
        proof {
            assert(active@ =~= inputs.take(i + 1));
        }
        i = i + 1;
    }
    let mut i: usize = 0;
    while i < evaluator_labels.len()
        invariant
            i <= evaluator_labels@.len(),
            given == generator_labels@.len(),
            active@ == inputs.take(given + i),
            inputs == tokens(generator_labels@ + evaluator_labels@),
        decreases evaluator_labels@.len() - i,
    {
        active.push(evaluator_labels[i].token);
        proof {
            assert(active@ =~= inputs.take(given + i + 1));
        }
        i = i + 1;
    }
    proof {
        assert(active@ =~= inputs);
    }
    let mut k: usize = 0;
    while k < circuit.gates.len()
        invariant
            k <= circuit.gates@.len(),
            circuit.well_formed(),
            tables@.len() == circuit.gates@.len(),
            inputs.len() == circuit.input_count,
            inputs == tokens(generator_labels@ + evaluator_labels@),
            active@ == label_values(circuit.gates@, tables@, inputs, k as nat),
            active@.len() == circuit.input_count + k,
            forall|m: int| 0 <= m < k && (#[trigger] circuit.gates@[m]) is And ==> tables@[m] is Some,
        decreases circuit.gates@.len() - k,
    {
        let g = circuit.gates[k];
        assert(gate_reads_below(circuit.gates@[k as int], circuit.input_count + k));
        let out: u128 = match g {
            Gate::Xor(a, b) => active[a] ^ active[b],
            Gate::Not(a) => active[a],
            Gate::And(a, b) => {
                match tables[k] {
                    Some(t) => {
                        let la = active[a];
                        let lb = active[b];
                        let row = if la & 1 == 1 {
                            if lb & 1 == 1 {
                                t.r11
                            } else {
                                t.r10
                            }
                        } else {
                            if lb & 1 == 1 {
                                t.r01
                            } else {
                                t.r00
                            }
                        };
                        row ^ pad(la, lb, k as u128)
                    },
                    None => {
                        assert(circuit.gates@[k as int] is And && tables@[k as int] is None);
                        assert(!tables_fit(circuit.gates@, tables@));
                        return Err(ProtocolError::MalformedTable);
                    },
                }
            },
        };
        active.push(out);
        k = k + 1;
    }
    assert(tables_fit(circuit.gates@, tables@));
    let mut bits: Vec<bool> = Vec::new();
    let mut j: usize = 0;
    while j < circuit.outputs.len()
        invariant
            j <= circuit.outputs@.len(),
            circuit.well_formed(),
            decode@.len() == circuit.outputs@.len(),
            active@.len() == circuit.input_count + circuit.gates@.len(),
            active@ == label_values(circuit.gates@, tables@, inputs, circuit.gates@.len()),
            tables_fit(circuit.gates@, tables@),
            inputs.len() == circuit.input_count,
            inputs == tokens(generator_labels@ + evaluator_labels@),
            bits@.len() == j,
            forall|m: int|
                0 <= m < j ==> decodable(
                    #[trigger] decode@[m],
                    output_label(*circuit, active@, m),
                ),
            forall|m: int|
                0 <= m < j ==> #[trigger] bits@[m] == (output_label(*circuit, active@, m)
                    != token_of(decode@[m].zero)),
        decreases circuit.outputs@.len() - j,
    {
        let w = circuit.outputs[j];
        assert(circuit.outputs@[j as int] < circuit.input_count + circuit.gates@.len());
        let l = active[w];
        let pair = decode[j];
        if l == pair.zero.token {
            bits.push(false);
        } else if l == pair.one.token {
            bits.push(true);
        } else {
            assert(!decodable(decode@[j as int], output_label(*circuit, active@, j as int)));
            return Err(ProtocolError::UndecodableOutput);
        }
        j = j + 1;
    }
    proof {
        let want = evaluate_spec(*circuit, tables@, decode@, inputs);
        assert(tables_fit(circuit.gates@, tables@));
        assert(want is Ok);
        assert(want->Ok_0 =~= bits@);
    }
    Ok(bits)
}

} // verus!
