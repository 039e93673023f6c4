use qsrs::circuits::{
    Gate, GateCNOT, GateIdentity, GateKronecker, GateProduct, GateU3, GateXZXZ, GateZ,
};
use qsrs::gatesets::{fill_row, linear_topology, ConstantGate, GateSetLinearCNOT, Gateset};

fn u3() -> Gate {
    Gate::U3(GateU3::new())
}

fn id() -> Gate {
    Gate::Identity(GateIdentity::new(2))
}

fn block() -> Gate {
    let singles = GateKronecker::new(vec![Gate::XZXZ(GateXZXZ::new(1)), u3()]);
    Gate::Product(GateProduct::new(vec![Gate::CNOT(GateCNOT::new(0)), Gate::Kronecker(singles)]))
}

#[test]
fn fill_row_repeats_the_step() {
    let row = fill_row(&Gate::Z(GateZ::new()), 3);
    let z = || Gate::Z(GateZ::new());
    assert_eq!(row, Gate::Kronecker(GateKronecker::new(vec![z(), z(), z()])));
    assert_eq!(row.inputs(), 3);
    assert_eq!(row.dits(), 3);
    assert_eq!(fill_row(&z(), 0), Gate::Kronecker(GateKronecker::new(Vec::new())));
}

#[test]
fn the_table_holds_the_entangler_the_quarter_turn_and_the_identity() {
    let gateset = GateSetLinearCNOT::new();
    assert_eq!(
        gateset.constant_gates(),
        vec![ConstantGate::Cnot, ConstantGate::QuarterTurnX, ConstantGate::Identity { size: 2 }]
    );
    assert_eq!(gateset.d(), 2);
}

#[test]
fn the_initial_layer_is_a_general_rotation_on_every_qubit() {
    let gateset = GateSetLinearCNOT::new();
    let layer = gateset.initial_layer(3);
    assert_eq!(layer, Gate::Kronecker(GateKronecker::new(vec![u3(), u3(), u3()])));
    assert_eq!(layer.inputs(), 9);
    assert_eq!(layer.dits(), 3);
    assert_eq!(gateset.initial_layer(1), Gate::Kronecker(GateKronecker::new(vec![u3()])));
}

#[test]
fn two_qubits_have_one_search_layer() {
    let gateset = GateSetLinearCNOT::new();
    let layers = gateset.search_layers(2);
    assert_eq!(layers.len(), 1);
    assert_eq!(layers[0].1, 1);
    assert_eq!(layers[0].0, Gate::Kronecker(GateKronecker::new(vec![block()])));
    assert_eq!(layers[0].0.inputs(), 5);
    assert_eq!(layers[0].0.dits(), 2);
}

#[test]
fn three_qubits_have_a_search_layer_for_each_pair_of_neighbours() {
    let gateset = GateSetLinearCNOT::new();
    let layers = gateset.search_layers(3);
    assert_eq!(layers.len(), 2);
    assert_eq!(layers[0].0, Gate::Kronecker(GateKronecker::new(vec![block(), id()])));
    assert_eq!(layers[1].0, Gate::Kronecker(GateKronecker::new(vec![id(), block()])));
    for (layer, weight) in &layers {
        assert_eq!(*weight, 1);
        assert_eq!(layer.inputs(), 5);
        assert_eq!(layer.dits(), 3);
    }
}

#[test]
fn five_qubits_have_four_search_layers_with_the_block_moving_along() {
    let gateset = GateSetLinearCNOT::new();
    let layers = gateset.search_layers(5);
    assert_eq!(layers.len(), 4);
    for (position, (layer, _)) in layers.iter().enumerate() {
        let mut slots = vec![id(), id(), id()];
        slots.insert(position, block());
        assert_eq!(*layer, Gate::Kronecker(GateKronecker::new(slots)));
        assert_eq!(layer.dits(), 5);
    }
}

#[test]
fn fewer_than_two_qubits_have_no_search_layer() {
    let gateset = GateSetLinearCNOT::new();
    assert!(gateset.search_layers(1).is_empty());
    assert!(gateset.search_layers(0).is_empty());
}

#[test]
fn a_layer_weighs_one_entangler_and_two_single_qudit_gates() {
    let z = Gate::Z(GateZ::new());
    let layers = linear_topology(&Gate::CNOT(GateCNOT::new(0)), &z, &u3(), &id(), 3, 7, 2);
    assert_eq!(layers.len(), 2);
    assert_eq!(layers[0].1, 11);
    assert_eq!(layers[1].1, 11);
    let singles = GateKronecker::new(vec![Gate::Z(GateZ::new()), u3()]);
    let block = Gate::Product(GateProduct::new(vec![
        Gate::CNOT(GateCNOT::new(0)),
        Gate::Kronecker(singles),
    ]));
    assert_eq!(layers[1].0, Gate::Kronecker(GateKronecker::new(vec![id(), block])));
}
