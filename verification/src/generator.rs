//! The generator's side: choosing labels and masking the AND tables.

use crate::circuit::{gate_reads_below, Circuit, Gate};
use crate::garble::{
    mix, pad, permute_bit, row_of, shade, token_of, Garbling, GateTable, Label, LabelPair,
};
use vstd::prelude::*;

verus! {

/// The row that the evaluator will read when the wires carry `va` and `vb`
/// masks the right output label of AND gate number `k`.
pub open spec fn row_ok(
    t: GateTable,
    k: nat,
    za: u128,
    zb: u128,
    zout: u128,
    delta: u128,
    va: bool,
    vb: bool,
) -> bool {
    row_of(t, permute_bit(shade(za, delta, va)), permute_bit(shade(zb, delta, vb))) == mix(
        shade(za, delta, va),
        shade(zb, delta, vb),
        k as u128,
    ) ^ shade(zout, delta, va && vb)
}

/// All four rows of the table are right.
pub open spec fn table_encrypts(
    t: GateTable,
    k: nat,
    za: u128,
    zb: u128,
    zout: u128,
    delta: u128,
) -> bool {
    &&& row_ok(t, k, za, zb, zout, delta, false, false)
    &&& row_ok(t, k, za, zb, zout, delta, false, true)
    &&& row_ok(t, k, za, zb, zout, delta, true, false)
    &&& row_ok(t, k, za, zb, zout, delta, true, true)
}

/// Gate number `k` is garbled consistently with the labels for 0 in `zero`.
pub open spec fn gate_garbled(
    g: Gate,
    k: int,
    slot: Option<GateTable>,
    zero: Seq<u128>,
    delta: u128,
    input_count: int,
) -> bool {
    match g {
        Gate::Xor(a, b) => zero[input_count + k] == zero[a as int] ^ zero[b as int],
        Gate::Not(a) => zero[input_count + k] == zero[a as int] ^ delta,
        Gate::And(a, b) => slot is Some && table_encrypts(
            slot->0,
            k as nat,
            zero[a as int],
            zero[b as int],
            zero[input_count + k],
            delta,
        ),
    }
}

/// The pair of a wire whose label for 0 is `zero`.
pub open spec fn pair_of(pair: LabelPair, zero: u128, delta: u128) -> bool {
    token_of(pair.zero) == zero && token_of(pair.one) == zero ^ delta
}

/// `g` is a garbling of `c` under the secrets `zero` (the label for 0 of
/// every wire) and `delta` (the offset between the two labels of a wire).
pub open spec fn garbles(c: Circuit, g: Garbling, zero: Seq<u128>, delta: u128) -> bool {
    &&& permute_bit(delta)
    &&& zero.len() == c.input_count + c.gates@.len()
    &&& g.tables@.len() == c.gates@.len()
    &&& g.input_labels@.len() == c.input_count
    &&& g.decode@.len() == c.outputs@.len()
    &&& forall|w: int|
        0 <= w < c.input_count ==> pair_of(#[trigger] g.input_labels@[w], zero[w], delta)
    &&& forall|j: int|
        0 <= j < c.outputs@.len() ==> pair_of(
            #[trigger] g.decode@[j],
            zero[c.outputs@[j] as int],
            delta,
        )
    &&& forall|k: int|
        0 <= k < c.gates@.len() ==> gate_garbled(
            #[trigger] c.gates@[k],
            k,
            g.tables@[k],
            zero,
            delta,
            c.input_count as int,
        )
}

/// `g` is a garbling of `c` under some secrets.
pub open spec fn valid_garbling(c: Circuit, g: Garbling) -> bool {
    exists|zero: Seq<u128>, delta: u128| garbles(c, g, zero, delta)
}

proof fn lemma_offset_flips_permute_bit(x: u128, d: u128)
    requires
        permute_bit(d),
    ensures
        permute_bit(x ^ d) == !permute_bit(x),
{
    assert(d & 1 == 1 ==> (((x ^ d) & 1 == 1) == !(x & 1 == 1))) by (bit_vector);
}

/// One masked row: the pad of the two entering labels over the leaving one.
fn masked_row(za: u128, zb: u128, zout: u128, delta: u128, k: usize, va: bool, vb: bool) -> (r:
    u128)
    ensures
        r == mix(shade(za, delta, va), shade(zb, delta, vb), k as u128) ^ shade(
            zout,
            delta,
            va && vb,
        ),
{
    let la = if va {
        za ^ delta
    } else {
        za
    };
    let lb = if vb {
        zb ^ delta
    } else {
        zb
    };
    let lo = if va && vb {
        zout ^ delta
    } else {
        zout
    };
    pad(la, lb, k as u128) ^ lo
}

/// The table of AND gate number `k`, its rows placed by the lowest bits of
/// the labels that will enter.
fn garble_and(za: u128, zb: u128, zout: u128, delta: u128, k: usize) -> (t: GateTable)
    requires
        permute_bit(delta),
    ensures
        table_encrypts(t, k as nat, za, zb, zout, delta),
{
    let pa: bool = za & 1 == 1;
    let pb: bool = zb & 1 == 1;
    let t = GateTable {
        r00: masked_row(za, zb, zout, delta, k, pa, pb),
        r01: masked_row(za, zb, zout, delta, k, pa, !pb),
        r10: masked_row(za, zb, zout, delta, k, !pa, pb),
        r11: masked_row(za, zb, zout, delta, k, !pa, !pb),
    };
    proof {
        lemma_offset_flips_permute_bit(za, delta);
        lemma_offset_flips_permute_bit(zb, delta);
    }
    t
}

/// Garbles `circuit` with labels drawn from `seed`: a fresh label for 0 on
/// every input wire and behind every AND gate, one odd offset for all wires,
/// and a masked table per AND gate.
pub fn garble(circuit: &Circuit, seed: u128) -> (g: Garbling)
    requires
        circuit.well_formed(),
    ensures
        valid_garbling(*circuit, g),
        g.tables@.len() == circuit.gates@.len(),
        g.input_labels@.len() == circuit.input_count,
        g.decode@.len() == circuit.outputs@.len(),
{
    let delta: u128 = pad(seed, 0, 0) | 1;
    assert(permute_bit(delta)) by {
        let x = mix(seed, 0, 0);
        assert((x | 1) & 1 == 1) by (bit_vector);
    }
    let mut zero: Vec<u128> = Vec::new();
    let mut input_labels: Vec<LabelPair> = Vec::new();
    let mut w: usize = 0;
    while w < circuit.input_count
        invariant
            w <= circuit.input_count,
            zero@.len() == w,
            input_labels@.len() == w,
            forall|v: int| 0 <= v < w ==> pair_of(#[trigger] input_labels@[v], zero@[v], delta),
        decreases circuit.input_count - w,
    {
        let z = pad(seed, w as u128, 1);
        zero.push(z);
        input_labels.push(LabelPair { zero: Label { token: z }, one: Label { token: z ^ delta } });
        w = w + 1;
    }
    let ghost input_zero = zero@;
    let mut tables: Vec<Option<GateTable>> = Vec::new();
    let mut k: usize = 0;
    while k < circuit.gates.len()
        invariant
            k <= circuit.gates@.len(),
            circuit.well_formed(),
            permute_bit(delta),
            zero@.len() == circuit.input_count + k,
            tables@.len() == k,
            input_labels@.len() == circuit.input_count,
            forall|v: int|
                0 <= v < circuit.input_count ==> pair_of(
                    #[trigger] input_labels@[v],
                    zero@[v],
                    delta,
                ),
            forall|m: int|
                0 <= m < k ==> gate_garbled(
                    #[trigger] circuit.gates@[m],
                    m,
                    tables@[m],
                    zero@,
                    delta,
                    circuit.input_count as int,
                ),
        decreases circuit.gates@.len() - k,
    {
        let g = circuit.gates[k];
        let ghost zero0 = zero@;
        let ghost tables0 = tables@;
        assert(gate_reads_below(circuit.gates@[k as int], circuit.input_count + k));
        assert(forall|m: int|
            0 <= m < k ==> gate_reads_below(#[trigger] circuit.gates@[m], circuit.input_count + m));
        match g {
            Gate::Xor(a, b) => {
                let z = zero[a] ^ zero[b];
                zero.push(z);
                tables.push(None);
            },
            Gate::Not(a) => {
                let z = zero[a] ^ delta;
                zero.push(z);
                tables.push(None);
            },
            Gate::And(a, b) => {
                let z = pad(seed, (circuit.input_count + k) as u128, 1);
                let t = garble_and(zero[a], zero[b], z, delta, k);
                zero.push(z);
                tables.push(Some(t));
            },
        }
        proof {
            assert forall|m: int| 0 <= m < k + 1 implies gate_garbled(
                #[trigger] circuit.gates@[m],
                m,
                tables@[m],
                zero@,
                delta,
                circuit.input_count as int,
            ) by {
                if m < k {
                    assert(gate_garbled(
                        circuit.gates@[m],
                        m,
                        tables0[m],
                        zero0,
                        delta,
                        circuit.input_count as int,
                    ));
                    assert(gate_reads_below(circuit.gates@[m], circuit.input_count + m));
                }
            }
        }
        k = k + 1;
    }
    let mut decode: Vec<LabelPair> = Vec::new();
    let mut j: usize = 0;
    while j < circuit.outputs.len()
        invariant
            j <= circuit.outputs@.len(),
            circuit.well_formed(),
            zero@.len() == circuit.input_count + circuit.gates@.len(),
            decode@.len() == j,
            forall|m: int|
                0 <= m < j ==> pair_of(
                    #[trigger] decode@[m],
                    zero@[circuit.outputs@[m] as int],
                    delta,
                ),
        decreases circuit.outputs@.len() - j,
    {
        let out = circuit.outputs[j];
        assert(circuit.outputs@[j as int] < circuit.input_count + circuit.gates@.len());
        let z = zero[out];
        decode.push(LabelPair { zero: Label { token: z }, one: Label { token: z ^ delta } });
        j = j + 1;
    }
    let g = Garbling { tables, input_labels, decode };
    proof {
        assert(garbles(*circuit, g, zero@, delta));
    }
    g
}

} // verus!
