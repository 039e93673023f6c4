use qsrs::circuits::{
    total_dits, total_inputs, Gate, GateCNOT, GateConstantUnitary, GateIdentity, GateKronecker,
    GateProduct, GateSingleQutrit, GateU1, GateU2, GateU3, GateX, GateXZXZ, GateY, GateZ,
    GateZXZXZ, QuantumGateData,
};

fn every_leaf() -> Vec<(Gate, usize, u8)> {
    vec![
        (Gate::Identity(GateIdentity::new(2)), 0, 1),
        (Gate::CNOT(GateCNOT::new(0)), 0, 2),
        (Gate::U3(GateU3::new()), 3, 1),
        (Gate::U2(GateU2::new()), 2, 1),
        (Gate::U1(GateU1::new()), 1, 1),
        (Gate::X(GateX::new()), 1, 1),
        (Gate::Y(GateY::new()), 1, 1),
        (Gate::Z(GateZ::new()), 1, 1),
        (Gate::XZXZ(GateXZXZ::new(1)), 2, 1),
        (Gate::ZXZXZ(GateZXZXZ::new(1)), 3, 1),
        (Gate::ConstantUnitary(GateConstantUnitary::new(4, 3)), 0, 3),
        (Gate::SingleQutrit(GateSingleQutrit::new()), 8, 1),
    ]
}

#[test]
fn every_primitive_gate_has_its_parameter_and_qudit_count() {
    for (gate, inputs, dits) in every_leaf() {
        assert_eq!(gate.inputs(), inputs, "{:?}", gate);
        assert_eq!(gate.dits(), dits, "{:?}", gate);
    }
}

#[test]
fn constant_gates_remember_their_table_index() {
    assert_eq!(GateIdentity::new(7).index(), 7);
    assert_eq!(GateCNOT::new(3).index(), 3);
    assert_eq!(GateConstantUnitary::new(9, 2).index(), 9);
    assert_eq!(GateConstantUnitary::new(9, 2).dits(), 2);
    assert_eq!(GateXZXZ::new(5).x90_index(), 5);
    assert_eq!(GateZXZXZ::new(6).x90_index(), 6);
}

#[test]
fn kronecker_counts_the_parameters_and_qudits_of_its_children() {
    let row = GateKronecker::new(vec![Gate::U3(GateU3::new()), Gate::XZXZ(GateXZXZ::new(1))]);
    assert_eq!(row.inputs(), 5);
    assert_eq!(row.dits(), 2);
    assert_eq!(row.substeps().len(), 2);
}

#[test]
fn kronecker_of_nothing_has_no_parameters_and_no_qudits() {
    let empty = GateKronecker::new(Vec::new());
    assert_eq!(empty.inputs(), 0);
    assert_eq!(empty.dits(), 0);
}

#[test]
fn kronecker_sums_over_every_primitive_gate() {
    let gates: Vec<Gate> = every_leaf().into_iter().map(|(gate, _, _)| gate).collect();
    let row = GateKronecker::new(gates);
    assert_eq!(row.inputs(), 3 + 2 + 1 + 1 + 1 + 1 + 2 + 3 + 8);
    assert_eq!(row.dits(), 1 + 2 + 8 + 3 + 1);
}

#[test]
fn product_acts_on_the_qudits_of_its_first_child() {
    let product = GateProduct::new(vec![Gate::CNOT(GateCNOT::new(0)), Gate::U3(GateU3::new())]);
    assert_eq!(product.dits(), 2);
    assert_eq!(product.inputs(), 3);
}

#[test]
fn append_adds_a_last_step_and_its_parameters() {
    let product = GateProduct::new(vec![Gate::CNOT(GateCNOT::new(0)), Gate::U3(GateU3::new())]);
    let longer = product.append(Gate::XZXZ(GateXZXZ::new(1)));
    assert_eq!(longer.inputs(), 5);
    assert_eq!(longer.dits(), 2);
    assert_eq!(longer.substeps().len(), 3);
    assert_eq!(longer.substeps()[2], Gate::XZXZ(GateXZXZ::new(1)));
    assert_eq!(longer.substeps()[0], Gate::CNOT(GateCNOT::new(0)));
}

#[test]
fn nested_composites_count_recursively() {
    let singles = GateKronecker::new(vec![Gate::XZXZ(GateXZXZ::new(1)), Gate::U3(GateU3::new())]);
    let block = GateProduct::new(vec![Gate::CNOT(GateCNOT::new(0)), Gate::Kronecker(singles)]);
    let layer = GateKronecker::new(vec![
        Gate::Identity(GateIdentity::new(2)),
        Gate::Product(block),
    ]);
    assert_eq!(layer.inputs(), 5);
    assert_eq!(layer.dits(), 3);
    let gate = Gate::Kronecker(layer);
    assert_eq!(gate.inputs(), 5);
    assert_eq!(gate.dits(), 3);
}

#[test]
fn a_clone_is_equal_to_its_original() {
    let singles = GateKronecker::new(vec![Gate::XZXZ(GateXZXZ::new(1)), Gate::U3(GateU3::new())]);
    let block = GateProduct::new(vec![Gate::CNOT(GateCNOT::new(0)), Gate::Kronecker(singles)]);
    let gate = Gate::Product(block);
    let copy = gate.clone();
    assert_eq!(copy, gate);
    assert_eq!(copy.inputs(), gate.inputs());
    assert_eq!(copy.dits(), gate.dits());
}

#[test]
fn totals_are_sums_when_they_can_be_held() {
    let gates = vec![Gate::U3(GateU3::new()), Gate::CNOT(GateCNOT::new(0)), Gate::Z(GateZ::new())];
    assert_eq!(total_inputs(&gates), Some(4));
    assert_eq!(total_dits(&gates), Some(4));
    assert_eq!(total_inputs(&Vec::new()), Some(0));
    assert_eq!(total_dits(&Vec::new()), Some(0));
}

#[test]
fn total_of_qudits_beyond_255_cannot_be_held() {
    let gates: Vec<Gate> =
        (0..2).map(|_| Gate::ConstantUnitary(GateConstantUnitary::new(0, 200))).collect();
    assert_eq!(total_dits(&gates), None);
    assert_eq!(total_inputs(&gates), Some(0));
}

#[test]
fn checked_constructors_refuse_what_cannot_be_counted() {
    let heavy = || Gate::ConstantUnitary(GateConstantUnitary::new(0, 128));
    assert!(GateKronecker::try_new(vec![heavy(), heavy()]).is_none());
    let row = GateKronecker::try_new(vec![heavy(), Gate::U3(GateU3::new())]).unwrap();
    assert_eq!(row.dits(), 129);
    assert_eq!(row.inputs(), 3);
    assert_eq!(GateKronecker::try_new(Vec::new()).unwrap().dits(), 0);

    assert!(GateProduct::try_new(Vec::new()).is_none());
    let product = GateProduct::try_new(vec![heavy(), heavy()]).unwrap();
    assert_eq!(product.dits(), 128);
    assert_eq!(product, GateProduct::new(vec![heavy(), heavy()]));

    let longer = product.try_append(Gate::U3(GateU3::new())).unwrap();
    assert_eq!(longer.inputs(), 3);
    assert_eq!(longer.substeps().len(), 3);
}

#[test]
fn data_holds_both_counts() {
    let gate = Gate::Kronecker(GateKronecker::new(vec![
        Gate::U3(GateU3::new()),
        Gate::CNOT(GateCNOT::new(0)),
    ]));
    assert_eq!(gate.data().dits, 3);
    assert_eq!(gate.data().num_inputs, 3);
}

#[test]
fn a_gate_fits_a_table_that_holds_every_constant_it_names() {
    let singles = GateKronecker::new(vec![Gate::XZXZ(GateXZXZ::new(1)), Gate::U3(GateU3::new())]);
    let block = GateProduct::new(vec![Gate::CNOT(GateCNOT::new(0)), Gate::Kronecker(singles)]);
    let layer = Gate::Kronecker(GateKronecker::new(vec![
        Gate::Identity(GateIdentity::new(2)),
        Gate::Product(block),
    ]));
    assert!(layer.fits(3));
    assert!(layer.fits(4));
    assert!(!layer.fits(2));
    assert!(!layer.fits(0));
    assert!(Gate::U3(GateU3::new()).fits(0));
    assert!(!Gate::Kronecker(GateKronecker::new(Vec::new())).fits(10));
    assert!(!Gate::Kronecker(GateKronecker::new(vec![
        Gate::U3(GateU3::new()),
        Gate::Kronecker(GateKronecker::new(Vec::new())),
    ]))
    .fits(10));
}

#[test]
fn closed_form_gates_carry_the_counts_of_their_kind() {
    assert_eq!(GateU3::new().data(), QuantumGateData { dits: 1, num_inputs: 3 });
    assert_eq!(GateU2::new().data(), QuantumGateData { dits: 1, num_inputs: 2 });
    assert_eq!(GateU1::new().data(), QuantumGateData { dits: 1, num_inputs: 1 });
    assert_eq!(GateX::new().data(), QuantumGateData { dits: 1, num_inputs: 1 });
    assert_eq!(GateY::new().data(), QuantumGateData { dits: 1, num_inputs: 1 });
    assert_eq!(GateZ::new().data(), QuantumGateData { dits: 1, num_inputs: 1 });
    assert_eq!(GateSingleQutrit::new().data(), QuantumGateData { dits: 1, num_inputs: 8 });
    assert_eq!(GateU3::new().data().num_inputs, GateU3::new().inputs());
    assert_eq!(Gate::U3(GateU3::new()).data(), GateU3::new().data());
}
