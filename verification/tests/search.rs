use qsrs::circuits::{Gate, GateCNOT, GateKronecker, GateProduct, GateU3, GateZ};
use qsrs::frontier::QueueItem;
use qsrs::search::{expand, Candidate, Search};

// Distances are keyed in millionths; the heuristic is ten times the distance plus a
// million for every level.
fn astar(distance: u64, depth: usize) -> u64 {
    10 * distance + 1_000_000 * depth as u64
}

fn root() -> GateProduct {
    GateProduct::new(vec![Gate::Kronecker(GateKronecker::new(vec![
        Gate::U3(GateU3::new()),
        Gate::U3(GateU3::new()),
    ]))])
}

fn layers() -> Vec<(Gate, usize)> {
    vec![(Gate::CNOT(GateCNOT::new(0)), 1), (Gate::Z(GateZ::new()), 1)]
}

fn start(
    threshold: u64,
    max_depth: Option<usize>,
    beams: usize,
    distance: u64,
) -> Search<Vec<u8>, String> {
    Search::start(threshold, max_depth, beams, root(), distance, vec![0u8], "M0".to_string(), &astar)
}

fn candidate(steps: usize, depth: usize) -> Candidate {
    let mut circuit = root();
    for _ in 0..steps {
        circuit = circuit.append(Gate::Z(GateZ::new()));
    }
    Candidate { circuit, depth }
}

#[test]
fn the_root_is_the_best_result_at_depth_zero() {
    let search = start(100, None, 1, 700_000);
    let best = search.best();
    assert_eq!(best.distance, 700_000);
    assert_eq!(best.depth, 0);
    assert_eq!(best.matrix, "M0");
    assert_eq!(best.params, vec![0u8]);
    assert_eq!(best.circuit, root());
    assert!(!search.finished());
}

#[test]
fn a_depth_bound_of_zero_ends_the_search_at_the_root() {
    let mut search = start(100, Some(0), 1, 700_000);
    assert!(search.finished());
    assert!(search.next_batch().is_empty());
    let best = search.into_best();
    assert_eq!(best.depth, 0);
    assert_eq!(best.circuit, root());
    assert_eq!(best.distance, 700_000);
}

#[test]
fn a_root_below_the_threshold_ends_the_search() {
    let mut search = start(100, None, 4, 50);
    assert!(search.finished());
    assert!(search.next_batch().is_empty());
    assert_eq!(search.into_best().depth, 0);
}

#[test]
fn the_root_waits_on_the_frontier_with_the_heuristic_of_depth_zero() {
    let mut search = start(100, None, 4, 700_000);
    let batch = search.next_batch();
    assert_eq!(batch.len(), 1);
    assert_eq!(batch[0].heuristic, 7_000_000);
    assert_eq!(batch[0].depth, 0);
    assert_eq!(batch[0].distance, 700_000);
    assert_eq!(batch[0].tiebreaker, -1);
    assert_eq!(batch[0].params, vec![0u8]);
    assert_eq!(batch[0].circuit, root());
    assert!(search.finished());
}

#[test]
fn expand_appends_every_layer_to_every_popped_circuit_in_order() {
    let popped: Vec<QueueItem<u8>> = vec![
        QueueItem { heuristic: 1, depth: 2, distance: 1, tiebreaker: 0, params: 0, circuit: root() },
        QueueItem {
            heuristic: 2,
            depth: 5,
            distance: 2,
            tiebreaker: 1,
            params: 1,
            circuit: root().append(Gate::Z(GateZ::new())),
        },
    ];
    let children = expand(&popped, &layers());
    assert_eq!(children.len(), 4);
    assert_eq!(children[0].depth, 3);
    assert_eq!(children[1].depth, 3);
    assert_eq!(children[2].depth, 6);
    assert_eq!(children[3].depth, 6);
    assert_eq!(children[0].circuit, root().append(Gate::CNOT(GateCNOT::new(0))));
    assert_eq!(children[1].circuit, root().append(Gate::Z(GateZ::new())));
    assert_eq!(
        children[2].circuit,
        root().append(Gate::Z(GateZ::new())).append(Gate::CNOT(GateCNOT::new(0)))
    );
    assert_eq!(
        children[3].circuit,
        root().append(Gate::Z(GateZ::new())).append(Gate::Z(GateZ::new()))
    );
    assert_eq!(children[3].circuit.inputs(), 8);
}

#[test]
fn expand_of_nothing_is_nothing() {
    let popped: Vec<QueueItem<u8>> = Vec::new();
    assert!(expand(&popped, &layers()).is_empty());
    let popped: Vec<QueueItem<u8>> = vec![QueueItem {
        heuristic: 1,
        depth: 2,
        distance: 1,
        tiebreaker: 0,
        params: 0,
        circuit: root(),
    }];
    assert!(expand(&popped, &Vec::new()).is_empty());
}

#[test]
fn a_closer_child_replaces_the_best_result() {
    let mut search = start(100, None, 1, 700_000);
    search.record(candidate(1, 1), 400_000, vec![1u8], "M1".to_string(), &astar);
    let best = search.best();
    assert_eq!(best.distance, 400_000);
    assert_eq!(best.depth, 1);
    assert_eq!(best.matrix, "M1");
    assert_eq!(best.params, vec![1u8]);
    assert_eq!(best.circuit, candidate(1, 1).circuit);
}

#[test]
fn a_child_that_is_not_closer_leaves_the_best_result() {
    let mut search = start(100, None, 1, 700_000);
    search.record(candidate(1, 1), 700_000, vec![1u8], "M1".to_string(), &astar);
    assert_eq!(search.best().distance, 700_000);
    assert_eq!(search.best().depth, 0);
    search.record(candidate(1, 1), 900_000, vec![2u8], "M2".to_string(), &astar);
    assert_eq!(search.best().distance, 700_000);
    assert_eq!(search.best().matrix, "M0");
}

#[test]
fn below_the_threshold_a_closer_child_must_also_be_shallower() {
    let mut search = start(100, None, 1, 700_000);
    search.record(candidate(3, 3), 50, vec![3u8], "M3".to_string(), &astar);
    assert_eq!(search.best().depth, 3);
    // closer, but not shallower
    search.record(candidate(3, 3), 40, vec![4u8], "M4".to_string(), &astar);
    assert_eq!(search.best().distance, 50);
    search.record(candidate(4, 4), 10, vec![5u8], "M5".to_string(), &astar);
    assert_eq!(search.best().distance, 50);
    // closer and shallower
    search.record(candidate(2, 2), 45, vec![6u8], "M6".to_string(), &astar);
    assert_eq!(search.best().distance, 45);
    assert_eq!(search.best().depth, 2);
}

#[test]
fn below_the_threshold_a_circuit_two_levels_up_is_preferred_even_if_it_is_not_closer() {
    let mut search = start(100, None, 1, 700_000);
    search.record(candidate(5, 5), 10, vec![5u8], "M5".to_string(), &astar);
    assert_eq!(search.best().distance, 10);
    // one level up and not closer: stays
    search.record(candidate(4, 4), 60, vec![4u8], "M4".to_string(), &astar);
    assert_eq!(search.best().distance, 10);
    // two levels up and under the threshold: taken, although it is farther away
    search.record(candidate(3, 3), 60, vec![3u8], "M3".to_string(), &astar);
    assert_eq!(search.best().distance, 60);
    assert_eq!(search.best().depth, 3);
    // two levels up but not under the threshold: stays
    search.record(candidate(1, 1), 100, vec![1u8], "M1".to_string(), &astar);
    assert_eq!(search.best().distance, 60);
}

#[test]
fn solved_children_wait_on_the_frontier_with_the_heuristic_one_level_below() {
    let mut search = start(100, None, 8, 700_000);
    let batch = search.next_batch();
    assert_eq!(batch.len(), 1);
    search.record(candidate(1, 1), 600_000, vec![1u8], "A".to_string(), &astar);
    search.record(candidate(1, 1), 500_000, vec![2u8], "B".to_string(), &astar);
    let batch = search.next_batch();
    assert_eq!(batch.len(), 2);
    assert_eq!(batch[0].params, vec![2u8]);
    assert_eq!(batch[0].heuristic, 5_000_000 + 2_000_000);
    assert_eq!(batch[0].depth, 1);
    assert_eq!(batch[0].distance, 500_000);
    assert_eq!(batch[0].tiebreaker, 1);
    assert_eq!(batch[1].params, vec![1u8]);
    assert_eq!(batch[1].heuristic, 6_000_000 + 2_000_000);
    assert_eq!(batch[1].tiebreaker, 0);
}

#[test]
fn a_batch_holds_as_many_nodes_as_the_beam_factor() {
    let mut search = start(100, None, 2, 700_000);
    assert_eq!(search.next_batch().len(), 1);
    search.record(candidate(1, 1), 600_000, vec![1u8], "A".to_string(), &astar);
    search.record(candidate(1, 1), 500_000, vec![2u8], "B".to_string(), &astar);
    search.record(candidate(1, 1), 550_000, vec![3u8], "C".to_string(), &astar);
    let batch = search.next_batch();
    assert_eq!(batch.len(), 2);
    assert_eq!(batch[0].params, vec![2u8]);
    assert_eq!(batch[1].params, vec![3u8]);
    let batch = search.next_batch();
    assert_eq!(batch.len(), 1);
    assert_eq!(batch[0].params, vec![1u8]);
    assert!(search.finished());
}

#[test]
fn children_at_the_depth_bound_are_recorded_but_not_expanded() {
    let mut search = start(100, Some(2), 8, 700_000);
    assert_eq!(search.next_batch().len(), 1);
    search.record(candidate(1, 1), 600_000, vec![1u8], "A".to_string(), &astar);
    let batch = search.next_batch();
    assert_eq!(batch.len(), 1);
    search.record(candidate(2, 2), 300_000, vec![2u8], "B".to_string(), &astar);
    assert_eq!(search.best().distance, 300_000);
    assert_eq!(search.best().depth, 2);
    assert!(search.finished());
    assert!(search.next_batch().is_empty());
}

#[test]
fn reaching_the_threshold_empties_the_frontier() {
    let mut search = start(100, None, 1, 700_000);
    assert_eq!(search.next_batch().len(), 1);
    search.record(candidate(1, 1), 600_000, vec![1u8], "A".to_string(), &astar);
    search.record(candidate(1, 1), 99, vec![2u8], "B".to_string(), &astar);
    assert!(search.finished());
    assert!(search.next_batch().is_empty());
    let best = search.into_best();
    assert_eq!(best.distance, 99);
    assert_eq!(best.depth, 1);
    assert_eq!(best.matrix, "B");
}

#[test]
fn a_distance_equal_to_the_threshold_does_not_end_the_search() {
    let mut search = start(100, None, 1, 700_000);
    assert_eq!(search.next_batch().len(), 1);
    search.record(candidate(1, 1), 100, vec![1u8], "A".to_string(), &astar);
    assert_eq!(search.best().distance, 100);
    assert!(!search.finished());
}

#[test]
fn the_best_distance_never_grows_while_it_is_above_the_threshold() {
    let mut search = start(100, None, 1, 700_000);
    let mut last = search.best().distance;
    let distances = [650_000u64, 800_000, 640_000, 640_000, 900_000, 120_000, 500_000, 101];
    for (i, d) in distances.iter().enumerate() {
        search.record(candidate(1, 1 + i % 3), *d, vec![i as u8], format!("M{}", i), &astar);
        assert!(search.best().distance <= last);
        last = search.best().distance;
    }
    assert_eq!(last, 101);
}
