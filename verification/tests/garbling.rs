use compute::bits::{GarbledInt8, GarbledUint8};
use compute::builder::{
    build_comparator, build_equality, build_signed_comparator, comparator_circuit,
    equality_circuit, CircuitBuilder,
};
use compute::circuit::{Circuit, Gate};
use compute::garble::{evaluate, pad, Label, ProtocolError};
use compute::generator::garble;
use compute::protocol::{execute, fresh_seed, run, seed_from_words, select_labels, transfer};

fn and_circuit() -> Circuit {
    Circuit { input_count: 2, gates: vec![Gate::And(0, 1)], outputs: vec![2] }
}

fn mixed_circuit() -> Circuit {
    // out0 = (x XOR y) AND (NOT z); out1 = NOT (x AND y)
    Circuit {
        input_count: 3,
        gates: vec![
            Gate::Xor(0, 1),
            Gate::Not(2),
            Gate::And(3, 4),
            Gate::And(0, 1),
            Gate::Not(6),
        ],
        outputs: vec![5, 7],
    }
}

#[test]
fn pad_has_its_exact_values() {
    assert_eq!(pad(0, 0, 0), 0);
    assert_eq!(pad(1, 0, 0), 0x244e5367cc6be6bf5e345d3103a8b7e2);
    assert_eq!(pad(1, 2, 3), 0xb531086a2645de713197475432c216cf);
}

#[test]
fn equality_circuit_has_n_xnor_and_n_minus_one_and() {
    let c = equality_circuit(8);
    assert!(c.check());
    assert_eq!(c.input_count, 16);
    assert_eq!(c.gates.len(), 23);
    assert_eq!(c.and_gate_count(), 7);
    assert_eq!(c.outputs.len(), 1);
    let xors = c.gates.iter().filter(|g| matches!(g, Gate::Xor(_, _))).count();
    let nots = c.gates.iter().filter(|g| matches!(g, Gate::Not(_))).count();
    assert_eq!(xors, 8);
    assert_eq!(nots, 8);
    let one = equality_circuit(1);
    assert_eq!(one.and_gate_count(), 0);
    assert_eq!(one.gates.len(), 2);
}

#[test]
fn comparator_circuit_has_two_outputs_and_its_gate_counts() {
    let c = comparator_circuit(8, false);
    assert!(c.check());
    assert_eq!(c.input_count, 16);
    assert_eq!(c.outputs.len(), 2);
    assert_eq!(c.gates.len(), 74);
    assert_eq!(c.and_gate_count(), 29);
    let s = comparator_circuit(8, true);
    assert!(s.check());
    assert_eq!(s.gates.len(), 74);
    assert_eq!(s.and_gate_count(), 29);
}

#[test]
fn circuits_are_built_from_the_width_of_the_operands() {
    let a: GarbledUint8 = 3_u8.into();
    let b: GarbledUint8 = 200_u8.into();
    let e = build_equality(&a, &b);
    assert_eq!(e.input_count, 16);
    assert_eq!(e.and_gate_count(), 7);
    let c = build_comparator(&a, &b);
    assert_eq!(c.input_count, 16);
    assert_eq!(c.outputs.len(), 2);
    let x: GarbledInt8 = (-3_i8).into();
    let y: GarbledInt8 = 3_i8.into();
    let s = build_signed_comparator(&x, &y);
    assert_eq!(s.input_count, 16);
    assert_eq!(run(&s, x.bits(), y.bits(), 5), vec![true, false]);
    assert_eq!(run(&s, y.bits(), x.bits(), 5), vec![false, false]);
    assert_eq!(run(&c, a.bits(), b.bits(), 5), vec![true, false]);
    assert_eq!(run(&c, b.bits(), b.bits(), 5), vec![false, true]);
    assert_eq!(run(&e, a.bits(), b.bits(), 5), vec![false]);
    assert_eq!(run(&e, a.bits(), a.bits(), 5), vec![true]);
}

#[test]
fn check_refuses_gates_that_read_ahead_and_outputs_that_do_not_exist() {
    assert!(and_circuit().check());
    assert!(mixed_circuit().check());
    let reads_itself = Circuit { input_count: 2, gates: vec![Gate::Not(2)], outputs: vec![2] };
    assert!(!reads_itself.check());
    let reads_ahead =
        Circuit { input_count: 1, gates: vec![Gate::Xor(0, 2), Gate::Not(0)], outputs: vec![] };
    assert!(!reads_ahead.check());
    let no_such_output = Circuit { input_count: 2, gates: vec![Gate::And(0, 1)], outputs: vec![3] };
    assert!(!no_such_output.check());
    let too_many_inputs = Circuit { input_count: usize::MAX, gates: vec![Gate::Not(0)], outputs: vec![] };
    assert!(!too_many_inputs.check());
}

#[test]
fn builder_operations_have_their_truth_tables() {
    let mut b = CircuitBuilder::new(2);
    let x = b.push(Gate::Xor(0, 1));
    let n = b.push(Gate::Not(0));
    let a = b.and(0, 1);
    let o = b.or(0, 1);
    let q = b.xnor(0, 1);
    let m = b.and_not(0, 1);
    assert_eq!(x, 2);
    assert_eq!(n, 3);
    assert_eq!(a, 4);
    let c = b.finish(vec![x, n, a, o, q, m]);
    assert!(c.check());
    assert_eq!(c.gates.len(), 11);
    let cases = [(false, false), (false, true), (true, false), (true, true)];
    for (p, r) in cases {
        let got = run(&c, &vec![p], &vec![r], 99);
        assert_eq!(got, vec![p != r, !p, p && r, p || r, p == r, !p && r]);
    }
}

#[test]
fn garbling_has_tables_for_and_gates_only() {
    let c = mixed_circuit();
    let g = garble(&c, 7);
    assert_eq!(g.tables.len(), 5);
    assert!(g.tables[0].is_none());
    assert!(g.tables[1].is_none());
    assert!(g.tables[2].is_some());
    assert!(g.tables[3].is_some());
    assert!(g.tables[4].is_none());
    assert_eq!(g.input_labels.len(), 3);
    assert_eq!(g.decode.len(), 2);
}

#[test]
fn another_seed_gives_another_garbling() {
    let c = mixed_circuit();
    let g = garble(&c, 12345);
    let other = garble(&c, 12346);
    let t = g.tables[2].unwrap();
    let u = other.tables[2].unwrap();
    assert_ne!((t.r00, t.r01, t.r10, t.r11), (u.r00, u.r01, u.r10, u.r11));
    let again = garble(&c, 12345);
    let v = again.tables[2].unwrap();
    assert_eq!((t.r00, t.r01, t.r10, t.r11), (v.r00, v.r01, v.r10, v.r11));
}

#[test]
fn evaluation_decodes_what_the_circuit_computes() {
    let c = mixed_circuit();
    for seed in [0_u128, 1, 77, u128::MAX] {
        let g = garble(&c, seed);
        for bits in 0..8_u8 {
            let x = bits & 4 != 0;
            let y = bits & 2 != 0;
            let z = bits & 1 != 0;
            let mine = select_labels(&g.input_labels, 0, &vec![x]);
            let theirs = select_labels(&g.input_labels, 1, &vec![y, z]);
            let got = evaluate(&c, &g.tables, &g.decode, &mine, &theirs);
            assert_eq!(got, Ok(vec![(x != y) && !z, !(x && y)]));
        }
    }
}

#[test]
fn a_missing_input_label_aborts() {
    let c = and_circuit();
    let g = garble(&c, 3);
    let mine = select_labels(&g.input_labels, 0, &vec![true]);
    let none: Vec<Label> = Vec::new();
    assert_eq!(
        evaluate(&c, &g.tables, &g.decode, &mine, &none),
        Err(ProtocolError::MissingInputLabel)
    );
    let three = select_labels(&g.input_labels, 0, &vec![true, false]);
    assert_eq!(
        evaluate(&c, &g.tables, &g.decode, &mine, &three),
        Err(ProtocolError::MissingInputLabel)
    );
    // The labels are counted before the tables are looked at.
    assert_eq!(
        evaluate(&c, &Vec::new(), &g.decode, &mine, &none),
        Err(ProtocolError::MissingInputLabel)
    );
}

#[test]
fn a_malformed_table_aborts() {
    let c = and_circuit();
    let g = garble(&c, 3);
    let mine = select_labels(&g.input_labels, 0, &vec![true]);
    let theirs = select_labels(&g.input_labels, 1, &vec![true]);
    assert_eq!(
        evaluate(&c, &Vec::new(), &g.decode, &mine, &theirs),
        Err(ProtocolError::MalformedTable)
    );
    assert_eq!(
        evaluate(&c, &vec![None], &g.decode, &mine, &theirs),
        Err(ProtocolError::MalformedTable)
    );
    assert_eq!(
        evaluate(&c, &g.tables, &Vec::new(), &mine, &theirs),
        Err(ProtocolError::MalformedTable)
    );
}

#[test]
fn a_corrupted_row_or_decoding_pair_aborts() {
    let c = and_circuit();
    let g = garble(&c, 3);
    let mine = select_labels(&g.input_labels, 0, &vec![true]);
    let theirs = select_labels(&g.input_labels, 1, &vec![false]);
    let mut tables = g.tables.clone();
    let mut t = tables[0].unwrap();
    t.r00 ^= 2;
    t.r01 ^= 2;
    t.r10 ^= 2;
    t.r11 ^= 2;
    tables[0] = Some(t);
    assert_eq!(
        evaluate(&c, &tables, &g.decode, &mine, &theirs),
        Err(ProtocolError::UndecodableOutput)
    );
    let stranger = garble(&c, 4).decode;
    assert_eq!(
        evaluate(&c, &g.tables, &stranger, &mine, &theirs),
        Err(ProtocolError::UndecodableOutput)
    );
    assert_eq!(evaluate(&c, &g.tables, &g.decode, &mine, &theirs), Ok(vec![false]));
}

#[test]
fn transfer_hands_over_the_chosen_label() {
    let wires = Circuit { input_count: 2, gates: Vec::new(), outputs: vec![0, 1] };
    let g = garble(&wires, 8);
    for (p, q) in [(false, false), (false, true), (true, false), (true, true)] {
        let first = vec![transfer(&g.input_labels[0], p)];
        let second = vec![transfer(&g.input_labels[1], q)];
        assert_eq!(evaluate(&wires, &g.tables, &g.decode, &first, &second), Ok(vec![p, q]));
        let picked = select_labels(&g.input_labels, 1, &vec![q]);
        assert_eq!(picked.len(), 1);
        assert_eq!(evaluate(&wires, &g.tables, &g.decode, &first, &picked), Ok(vec![p, q]));
        let both = select_labels(&g.input_labels, 0, &vec![p, q]);
        assert_eq!(both.len(), 2);
        assert_eq!(evaluate(&wires, &g.tables, &g.decode, &both, &Vec::new()), Ok(vec![p, q]));
    }
    // A label of the wrong wire does not decode.
    let crossed = vec![transfer(&g.input_labels[1], true)];
    let second = vec![transfer(&g.input_labels[1], true)];
    assert_eq!(
        evaluate(&wires, &g.tables, &g.decode, &crossed, &second),
        Err(ProtocolError::UndecodableOutput)
    );
}

#[test]
fn execute_counts_the_operand_bits() {
    let c = and_circuit();
    assert_eq!(execute(&c, &vec![true], &vec![true], 1), Ok(vec![true]));
    assert_eq!(execute(&c, &vec![true], &vec![false], 1), Ok(vec![false]));
    assert_eq!(execute(&c, &vec![true, true], &Vec::new(), 1), Ok(vec![true]));
    assert_eq!(execute(&c, &vec![true], &Vec::new(), 1), Err(ProtocolError::MissingInputLabel));
    assert_eq!(
        execute(&c, &vec![true, false], &vec![true], 1),
        Err(ProtocolError::MissingInputLabel)
    );
}

#[test]
fn a_fresh_seed_gives_the_same_answers() {
    let c = mixed_circuit();
    for _ in 0..4 {
        let seed = fresh_seed();
        assert_eq!(run(&c, &vec![true], &vec![false, false], seed), vec![true, true]);
        assert_eq!(run(&c, &vec![true], &vec![true, false], seed), vec![false, false]);
    }
}

#[test]
fn a_seed_is_two_words_joined() {
    assert_eq!(seed_from_words(0, 0), 0);
    assert_eq!(seed_from_words(0, 7), 7);
    assert_eq!(seed_from_words(1, 0), 0x1_0000_0000_0000_0000);
    assert_eq!(seed_from_words(0x0123_4567_89AB_CDEF, 0xFEDC_BA98_7654_3210), 0x0123_4567_89AB_CDEF_FEDC_BA98_7654_3210);
    assert_eq!(seed_from_words(u64::MAX, u64::MAX), u128::MAX);
}
