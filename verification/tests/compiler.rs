use qsrs::circuits::{Gate, GateKronecker, GateProduct, GateU3};
use qsrs::compiler::{default_beams, pool_size, qudit_count, SearchCompiler};
use qsrs::gatesets::GateSetLinearCNOT;

#[test]
fn a_power_of_the_radix_has_its_exponent_as_qudit_count() {
    assert_eq!(qudit_count(1, 2), Some(0));
    assert_eq!(qudit_count(2, 2), Some(1));
    assert_eq!(qudit_count(4, 2), Some(2));
    assert_eq!(qudit_count(8, 2), Some(3));
    assert_eq!(qudit_count(1024, 2), Some(10));
    assert_eq!(qudit_count(3, 3), Some(1));
    assert_eq!(qudit_count(9, 3), Some(2));
    assert_eq!(qudit_count(27, 3), Some(3));
    assert_eq!(qudit_count(1usize << 63, 2), Some(63));
}

#[test]
fn bad_dimension() {
    assert_eq!(qudit_count(5, 2), None);
    assert_eq!(SearchCompiler::new(1, GateSetLinearCNOT::new(), None).qudits(5), None);
}

#[test]
fn a_size_that_is_no_power_of_the_radix_has_no_qudit_count() {
    assert_eq!(qudit_count(0, 2), None);
    assert_eq!(qudit_count(3, 2), None);
    assert_eq!(qudit_count(6, 2), None);
    assert_eq!(qudit_count(12, 2), None);
    assert_eq!(qudit_count(8, 3), None);
    assert_eq!(qudit_count(10, 3), None);
    assert_eq!(qudit_count(usize::MAX, 2), None);
    assert_eq!(qudit_count(usize::MAX, 3), None);
}

#[test]
fn degenerate_radices() {
    assert_eq!(qudit_count(1, 1), Some(0));
    assert_eq!(qudit_count(2, 1), None);
    assert_eq!(qudit_count(1, 0), Some(0));
    assert_eq!(qudit_count(0, 0), Some(1));
    assert_eq!(qudit_count(7, 0), None);
}

#[test]
fn the_compiler_counts_qubits_for_a_qubit_gate_set() {
    let compiler = SearchCompiler::new(1, GateSetLinearCNOT::new(), None);
    assert_eq!(compiler.qudits(4), Some(2));
    assert_eq!(compiler.qudits(8), Some(3));
    assert_eq!(compiler.qudits(9), None);
}

#[test]
fn default_beams_share_the_processors_among_the_layers() {
    assert_eq!(default_beams(8, 2), 4);
    assert_eq!(default_beams(8, 3), 2);
    assert_eq!(default_beams(8, 8), 1);
    assert_eq!(default_beams(1, 1), 1);
}

#[test]
fn default_beams_are_at_least_one() {
    assert_eq!(default_beams(2, 5), 1);
    assert_eq!(default_beams(0, 5), 1);
    assert_eq!(default_beams(8, 0), 1);
}

#[test]
fn the_pool_has_a_worker_for_each_child_but_no_more_than_processors() {
    assert_eq!(pool_size(8, 2, 3), 6);
    assert_eq!(pool_size(8, 3, 3), 8);
    assert_eq!(pool_size(8, 0, 3), 0);
    assert_eq!(pool_size(8, usize::MAX, 2), 8);
}

#[test]
fn a_fixed_beam_factor_is_kept() {
    let compiler = SearchCompiler::new(1, GateSetLinearCNOT::new(), Some(3));
    assert_eq!(compiler.beam_factor(2), 3);
    assert_eq!(compiler.beam_factor(0), 3);
}

#[test]
fn without_a_fixed_beam_factor_the_processors_decide() {
    let compiler = SearchCompiler::new(1, GateSetLinearCNOT::new(), None);
    let cpus = num_cpus::get();
    assert_eq!(compiler.beam_factor(2), default_beams(cpus, 2));
    assert!(compiler.beam_factor(1_000_000) >= 1);
    assert_eq!(compiler.workers(2, 3), pool_size(cpus, 2, 3));
    // the number of processors is looked up, not taken from the arguments
    assert_eq!(compiler.workers(usize::MAX, 1), cpus);
}

#[test]
fn the_root_is_the_product_of_the_initial_layer_alone() {
    let compiler = SearchCompiler::new(1, GateSetLinearCNOT::new(), None);
    let u3 = || Gate::U3(GateU3::new());
    let root = compiler.root(2);
    assert_eq!(
        root,
        GateProduct::new(vec![Gate::Kronecker(GateKronecker::new(vec![u3(), u3()]))])
    );
    assert_eq!(root.inputs(), 6);
    assert_eq!(root.dits(), 2);
}
