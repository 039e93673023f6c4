use qsrs::circuits::{Gate, GateProduct, GateU3};
use qsrs::frontier::{Frontier, QueueItem};

fn item(heuristic: u64, depth: usize, distance: u64, tiebreaker: i64, tag: &str) -> QueueItem<String> {
    QueueItem {
        heuristic,
        depth,
        distance,
        tiebreaker,
        params: tag.to_string(),
        circuit: GateProduct::new(vec![Gate::U3(GateU3::new())]),
    }
}

fn drain(frontier: &mut Frontier<String>) -> Vec<String> {
    let mut out = Vec::new();
    while let Some(next) = frontier.pop() {
        out.push(next.params);
    }
    out
}

#[test]
fn smaller_heuristic_is_expanded_first() {
    assert!(item(1, 9, 9, 9, "a").precedes(&item(2, 0, 0, 0, "b")));
    assert!(!item(2, 0, 0, 0, "b").precedes(&item(1, 9, 9, 9, "a")));
}

#[test]
fn equal_heuristics_are_ordered_by_depth_then_distance_then_tiebreaker() {
    assert!(item(5, 1, 9, 9, "a").precedes(&item(5, 2, 0, 0, "b")));
    assert!(!item(5, 2, 0, 0, "b").precedes(&item(5, 1, 9, 9, "a")));
    assert!(item(5, 2, 3, 9, "a").precedes(&item(5, 2, 4, 0, "b")));
    assert!(!item(5, 2, 4, 0, "b").precedes(&item(5, 2, 3, 9, "a")));
    assert!(item(5, 2, 3, -1, "a").precedes(&item(5, 2, 3, 0, "b")));
    assert!(!item(5, 2, 3, 0, "b").precedes(&item(5, 2, 3, -1, "a")));
}

#[test]
fn nodes_with_equal_keys_do_not_precede_each_other() {
    assert!(!item(5, 2, 3, 7, "a").precedes(&item(5, 2, 3, 7, "b")));
    assert!(!item(5, 2, 3, 7, "b").precedes(&item(5, 2, 3, 7, "a")));
}

#[test]
fn an_empty_frontier_has_nothing_to_pop() {
    let mut frontier: Frontier<String> = Frontier::new();
    assert!(frontier.is_empty());
    assert_eq!(frontier.len(), 0);
    assert!(frontier.pop().is_none());
    assert!(frontier.is_empty());
}

#[test]
fn nodes_are_popped_best_first() {
    let mut frontier = Frontier::new();
    frontier.push(item(30, 0, 0, 0, "c"));
    frontier.push(item(10, 0, 0, 1, "a"));
    frontier.push(item(40, 0, 0, 2, "d"));
    frontier.push(item(20, 0, 0, 3, "b"));
    assert_eq!(frontier.len(), 4);
    assert_eq!(drain(&mut frontier), vec!["a", "b", "c", "d"]);
    assert!(frontier.is_empty());
}

#[test]
fn ties_in_heuristic_fall_to_depth_distance_and_tiebreaker() {
    let mut frontier = Frontier::new();
    frontier.push(item(7, 3, 5, 0, "deep"));
    frontier.push(item(7, 1, 9, 1, "shallow"));
    frontier.push(item(7, 3, 4, 2, "deep and close"));
    frontier.push(item(7, 3, 4, 1, "deep and close and early"));
    assert_eq!(
        drain(&mut frontier),
        vec!["shallow", "deep and close and early", "deep and close", "deep"]
    );
}

#[test]
fn of_nodes_that_tie_the_one_pushed_first_is_popped_first() {
    let mut frontier = Frontier::new();
    frontier.push(item(7, 3, 5, -1, "first"));
    frontier.push(item(7, 3, 5, -1, "second"));
    frontier.push(item(6, 0, 0, 0, "best"));
    frontier.push(item(7, 3, 5, -1, "third"));
    assert_eq!(drain(&mut frontier), vec!["best", "first", "second", "third"]);
}

#[test]
fn pushing_between_pops_keeps_the_order() {
    let mut frontier = Frontier::new();
    frontier.push(item(5, 0, 0, 0, "five"));
    frontier.push(item(9, 0, 0, 1, "nine"));
    assert_eq!(frontier.pop().unwrap().params, "five");
    frontier.push(item(7, 0, 0, 2, "seven"));
    frontier.push(item(11, 0, 0, 3, "eleven"));
    assert_eq!(frontier.pop().unwrap().params, "seven");
    assert_eq!(frontier.pop().unwrap().params, "nine");
    assert_eq!(frontier.len(), 1);
}

#[test]
fn clear_drops_every_node() {
    let mut frontier = Frontier::new();
    frontier.push(item(5, 0, 0, 0, "five"));
    frontier.push(item(9, 0, 0, 1, "nine"));
    frontier.clear();
    assert!(frontier.is_empty());
    assert!(frontier.pop().is_none());
}
