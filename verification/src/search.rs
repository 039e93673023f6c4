//! The decisions of the best-first search over circuit topologies.
//!
//! The search alternates between solving circuits and deciding what to solve next.
//! Solving is numeric work that belongs to the caller. The decisions are made here: a
//! [`Search`] hands out the nodes to expand, [`expand`] turns them into the child circuits
//! to solve, and [`Search::record`] takes what the solver found for a child.
//!
//! Distances and heuristic values are order keys: the caller maps the real numbers to
//! unsigned integers that compare as the numbers do.
use vstd::prelude::*;
use crate::circuits::{Gate, GateProduct};
use crate::frontier::{Frontier, Node, QueueItem, landing, precedes};
use crate::layout::{cell, lemma_row_major};
use crate::shape::Shape;

verus! {

/// The best result so far, as a mathematical value.
pub ghost struct BestModel<P, M> {
    pub distance: u64,
    pub depth: usize,
    pub matrix: M,
    pub circuit: Shape,
    pub params: P,
}

/// The best result so far: a circuit, the parameters the solver found for it, the matrix
/// of the circuit at those parameters, and how far that matrix is from the target.
#[derive(Debug)]
pub struct Best<P, M> {
    pub distance: u64,
    pub depth: usize,
    pub matrix: M,
    pub circuit: GateProduct,
    pub params: P,
}

impl<P, M> View for Best<P, M> {
    type V = BestModel<P, M>;

    open spec fn view(&self) -> BestModel<P, M> {
        BestModel {
            distance: self.distance,
            depth: self.depth,
            matrix: self.matrix,
            circuit: self.circuit@,
            params: self.params,
        }
    }
}

/// A child circuit that waits to be solved, as a mathematical value.
pub ghost struct CandidateModel {
    pub circuit: Shape,
    pub depth: usize,
}

/// A child circuit that waits to be solved: a popped circuit with one search layer
/// appended, one level deeper than the popped node.
#[derive(Debug)]
pub struct Candidate {
    pub circuit: GateProduct,
    pub depth: usize,
}

impl View for Candidate {
    type V = CandidateModel;

    open spec fn view(&self) -> CandidateModel {
        CandidateModel { circuit: self.circuit@, depth: self.depth }
    }
}

/// The state of a search, as a mathematical value. The frontier is held worst first: its
/// last node is expanded next.
pub ghost struct SearchModel<P, M> {
    pub threshold: u64,
    pub max_depth: Option<usize>,
    pub beams: usize,
    pub tiebreaker: i64,
    pub best: BestModel<P, M>,
    pub frontier: Seq<Node<P>>,
}

/// The depth below which a solved child is put on the frontier.
pub open spec fn depth_limit(max_depth: Option<usize>) -> usize {
    match max_depth {
        Some(depth) => depth,
        None => usize::MAX,
    }
}

/// Whether a child solved to `distance` at `depth` replaces the best result.
///
/// It does if it is closer to the target than the best result, provided that the best
/// result has not reached the threshold yet or the child is shallower; and it does if it
/// reaches the threshold more than one level above the best result.
pub open spec fn improves(
    best_distance: u64,
    best_depth: usize,
    threshold: u64,
    distance: u64,
    depth: usize,
) -> bool {
    ||| distance < best_distance && (best_distance >= threshold || depth < best_depth)
    ||| distance < threshold && depth + 1 < best_depth
}

/// `child` is the circuit of `parent` with `layer` appended, one level deeper.
pub open spec fn is_child<P>(child: CandidateModel, parent: Node<P>, layer: Shape) -> bool {
    &&& child.depth == parent.depth + 1
    &&& parent.circuit matches Shape::Product { substeps }
    &&& child.circuit == (Shape::Product { substeps: substeps.push(layer) })
}

/// The frontier with `node` put where it belongs.
pub open spec fn with_node<P>(frontier: Seq<Node<P>>, node: Node<P>) -> Seq<Node<P>> {
    frontier.insert(landing(frontier, node) as int, node)
}

/// The tiebreaker that follows `t`.
pub open spec fn next_tiebreaker(t: i64) -> i64 {
    if t < i64::MAX {
        (t + 1) as i64
    } else {
        t
    }
}

/// A child that replaces the best result is strictly closer to the target than the result
/// it replaces, unless the replaced result had reached the threshold and the child reaches
/// it more than one level higher up: then the shallower circuit is preferred although it
/// is not closer.
pub proof fn lemma_best_distance_decreases(
    best_distance: u64,
    best_depth: usize,
    threshold: u64,
    distance: u64,
    depth: usize,
)
    requires
        improves(best_distance, best_depth, threshold, distance, depth),
        !(best_distance <= distance < threshold && depth + 1 < best_depth),
    ensures
        distance < best_distance,
{
}

/// The child circuits of the popped nodes: every popped circuit with every search
/// layer appended, node by node and, for each node, layer by layer. Every child is one
/// level deeper than the node it comes from.
pub fn expand<P>(popped: &Vec<QueueItem<P>>, layers: &Vec<(Gate, usize)>) -> (out: Vec<Candidate>)
    requires
        popped@.len() * layers@.len() <= usize::MAX,
        forall|a: int| 0 <= a < popped@.len() ==> (#[trigger] popped@[a]).depth < usize::MAX,
        forall|a: int, b: int|
            0 <= a < popped@.len() && 0 <= b < layers@.len() ==> (#[trigger] popped@[a]).circuit@.inputs()
                + (#[trigger] layers@[b]).0@.inputs() <= usize::MAX,
    ensures
        out@.len() == popped@.len() * layers@.len(),
        forall|a: int, b: int|
            0 <= a < popped@.len() && 0 <= b < layers@.len() ==> is_child(
                out@[#[trigger] cell(a, b, layers@.len() as int)]@,
                popped@[a]@,
                layers@[b].0@,
            ),
{
    let ghost columns = layers@.len() as int;
    let mut out: Vec<Candidate> = Vec::new();
    let mut a: usize = 0;
    while a < popped.len()
        invariant
            a <= popped@.len(),
            columns == layers@.len(),
            popped@.len() * layers@.len() <= usize::MAX,
            forall|a: int| 0 <= a < popped@.len() ==> (#[trigger] popped@[a]).depth < usize::MAX,
            forall|a: int, b: int|
                0 <= a < popped@.len() && 0 <= b < layers@.len() ==> (#[trigger] popped@[a]).circuit@.inputs()
                    + (#[trigger] layers@[b]).0@.inputs() <= usize::MAX,
            out@.len() == a * columns,
            forall|x: int, y: int|
                0 <= x < a && 0 <= y < columns ==> is_child(
                    out@[#[trigger] cell(x, y, columns)]@,
                    popped@[x]@,
                    layers@[y].0@,
                ),
        decreases popped.len() - a,
    {
        let mut b: usize = 0;
        while b < layers.len()
            invariant
                a < popped@.len(),
                b <= layers@.len(),
                columns == layers@.len(),
                popped@.len() * layers@.len() <= usize::MAX,
                popped@[a as int].depth < usize::MAX,
                forall|b: int|
                    0 <= b < layers@.len() ==> popped@[a as int].circuit@.inputs() + (
                    #[trigger] layers@[b]).0@.inputs() <= usize::MAX,
                out@.len() == a * columns + b,
                forall|x: int, y: int|
                    0 <= x < a && 0 <= y < columns ==> is_child(
                        out@[#[trigger] cell(x, y, columns)]@,
                        popped@[x]@,
                        layers@[y].0@,
                    ),
                forall|y: int|
                    0 <= y < b ==> is_child(
                        out@[#[trigger] cell(a as int, y, columns)]@,
                        popped@[a as int]@,
                        layers@[y].0@,
                    ),
            decreases layers.len() - b,
        {
            let ghost rows = out@;
            let circuit = popped[a].circuit.clone().append(layers[b].0.clone());
            let child = Candidate { circuit, depth: popped[a].depth + 1 };
            assert(is_child(child@, popped@[a as int]@, layers@[b as int].0@));
            out.push(child);
            proof {
                assert forall|x: int, y: int| 0 <= x < a && 0 <= y < columns implies is_child(
                    out@[#[trigger] cell(x, y, columns)]@,
                    popped@[x]@,
                    layers@[y].0@,
                ) by {
                    lemma_row_major(x, y, a as int, columns);
                    assert(out@[cell(x, y, columns)] == rows[cell(x, y, columns)]);
                }
                assert forall|y: int| 0 <= y < b + 1 implies is_child(
                    out@[#[trigger] cell(a as int, y, columns)]@,
                    popped@[a as int]@,
                    layers@[y].0@,
                ) by {
                    if y < b {
                        assert(out@[cell(a as int, y, columns)] == rows[cell(a as int, y, columns)]);
                    }
                }
            }
            b += 1;
        }
        proof {
            assert((a + 1) * columns == a * columns + columns) by (nonlinear_arith);
        }
        a += 1;
    }
    out
}

/// A best-first search in progress.
pub struct Search<P, M> {
    threshold: u64,
    max_depth: Option<usize>,
    beams: usize,
    tiebreaker: i64,
    best: Best<P, M>,
    frontier: Frontier<P>,
}

impl<P, M> View for Search<P, M> {
    type V = SearchModel<P, M>;

    closed spec fn view(&self) -> SearchModel<P, M> {
        SearchModel {
            threshold: self.threshold,
            max_depth: self.max_depth,
            beams: self.beams,
            tiebreaker: self.tiebreaker,
            best: self.best@,
            frontier: self.frontier@,
        }
    }
}

impl<P, M> Search<P, M> {
    #[verifier::type_invariant]
    spec fn inv(self) -> bool {
        forall|i: int|
            0 <= i < self.frontier@.len() ==> (#[trigger] self.frontier@[i]).depth < depth_limit(
                self.max_depth,
            )
    }
}

impl<P: Clone, M> Search<P, M> {
    /// Begins a search from the root circuit, which the caller has solved: `params` and
    /// `matrix` are what the solver found for `root`, and `distance` is how far `matrix`
    /// is from the target.
    ///
    /// The root is the best result so far, at depth 0. Unless the depth bound is 0, the
    /// root waits on the frontier with the heuristic value of its distance at depth 0.
    pub fn start<H>(
        threshold: u64,
        max_depth: Option<usize>,
        beams: usize,
        root: GateProduct,
        distance: u64,
        params: P,
        matrix: M,
        astar: &H,
    ) -> (out: Self) where H: Fn(u64, usize) -> u64
        requires
            call_requires(*astar, (distance, 0usize)),
        ensures
            out@.threshold == threshold,
            out@.max_depth == max_depth,
            out@.beams == beams,
            out@.best.distance == distance,
            out@.best.depth == 0,
            out@.best.matrix == matrix,
            out@.best.circuit == root@,
            cloned(params, out@.best.params),
            max_depth == Some(0usize) ==> out@.frontier.len() == 0 && out@.tiebreaker == -1,
            max_depth != Some(0usize) ==> out@.tiebreaker == 0 && out@.frontier.len() == 1 && {
                let node = out@.frontier[0];
                &&& call_ensures(*astar, (distance, 0usize), node.heuristic)
                &&& node.depth == 0
                &&& node.distance == distance
                &&& node.tiebreaker == -1
                &&& node.params == params
                &&& node.circuit == root@
            },
    {
        let best = Best {
            distance,
            depth: 0,
            matrix,
            circuit: root.clone(),
            params: params.clone(),
        };
        let mut frontier: Frontier<P> = Frontier::new();
        let mut tiebreaker: i64 = -1;
        let unbounded = match max_depth {
            Some(depth) => depth != 0,
            None => true,
        };
        if unbounded {
            let heuristic = astar(distance, 0);
            let item = QueueItem { heuristic, depth: 0, distance, tiebreaker, params, circuit: root };
            frontier.push(item);
            tiebreaker = 0;
        }
        Search { threshold, max_depth, beams, tiebreaker, best, frontier }
    }

    /// Whether the search has ended: the frontier is empty, or the best result has
    /// reached the threshold.
    pub fn finished(&self) -> (b: bool)
        ensures
            b == (self@.frontier.len() == 0 || self@.best.distance < self@.threshold),
    {
        self.frontier.is_empty() || self.best.distance < self.threshold
    }

    /// The best result so far.
    pub fn best(&self) -> (out: &Best<P, M>)
        ensures
            out@ == self@.best,
    {
        &self.best
    }

    /// Ends the search and hands out the best result.
    pub fn into_best(self) -> (out: Best<P, M>)
        ensures
            out@ == self@.best,
    {
        self.best
    }

    /// Takes the nodes to expand next off the frontier, in the order in which they are
    /// expanded: as many as the beam factor, or all of them if there are fewer.
    ///
    /// No node that stays on the frontier is expanded strictly before one that was taken.
    /// Once the best result has reached the threshold, the frontier is emptied and nothing
    /// is taken.
    pub fn next_batch(&mut self) -> (out: Vec<QueueItem<P>>)
        ensures
            final(self)@.threshold == old(self)@.threshold,
            final(self)@.max_depth == old(self)@.max_depth,
            final(self)@.beams == old(self)@.beams,
            final(self)@.tiebreaker == old(self)@.tiebreaker,
            final(self)@.best == old(self)@.best,
            old(self)@.best.distance < old(self)@.threshold ==> out@.len() == 0
                && final(self)@.frontier.len() == 0,
            old(self)@.best.distance >= old(self)@.threshold ==> {
                &&& out@.len() == vstd::math::min(
                    old(self)@.beams as int,
                    old(self)@.frontier.len() as int,
                )
                &&& final(self)@.frontier == old(self)@.frontier.take(
                    old(self)@.frontier.len() - out@.len(),
                )
                &&& forall|i: int|
                    0 <= i < out@.len() ==> (#[trigger] out@[i])@ == old(self)@.frontier[old(
                        self,
                    )@.frontier.len() - 1 - i]
            },
            forall|i: int|
                0 <= i < out@.len() ==> (#[trigger] out@[i]).depth < depth_limit(
                    old(self)@.max_depth,
                ),
            forall|i: int, j: int|
                0 <= i < out@.len() && 0 <= j < final(self)@.frontier.len() ==> !precedes(
                    #[trigger] final(self)@.frontier[j],
                    (#[trigger] out@[i])@,
                ),
    {
        proof {
            use_type_invariant(&*self);
        }
        let mut out: Vec<QueueItem<P>> = Vec::new();
        let mut frontier: Frontier<P> = Frontier::new();
        std::mem::swap(&mut self.frontier, &mut frontier);
        if self.best.distance < self.threshold {
            return out;
        }
        let ghost nodes = frontier@;
        let ghost limit = depth_limit(self.max_depth);
        let beams = self.beams;
        while out.len() < beams && !frontier.is_empty()
            invariant
                out@.len() <= beams,
                out@.len() <= nodes.len(),
                frontier@ == nodes.take(nodes.len() - out@.len()),
                limit == depth_limit(self.max_depth),
                forall|i: int| 0 <= i < nodes.len() ==> (#[trigger] nodes[i]).depth < limit,
                forall|i: int| 0 <= i < out@.len() ==> (#[trigger] out@[i])@ == nodes[nodes.len() - 1 - i],
                forall|i: int, j: int|
                    0 <= i < out@.len() && 0 <= j < frontier@.len() ==> !precedes(
                        #[trigger] frontier@[j],
                        (#[trigger] out@[i])@,
                    ),
            decreases frontier@.len(),
        {
            let ghost before = frontier@;
            let popped = frontier.pop();
            let item = popped.unwrap();
            proof {
                assert(frontier@ =~= nodes.take(nodes.len() - out@.len() - 1));
                assert forall|i: int, j: int|
                    0 <= i < out@.len() && 0 <= j < frontier@.len() implies !precedes(
                    #[trigger] frontier@[j],
                    (#[trigger] out@[i])@,
                ) by {
                    assert(frontier@[j] == before[j]);
                }
            }
            out.push(item);
        }
        self.frontier = frontier;
        out
    }

    /// Takes what the solver found for `candidate`: `params`, the matrix of the circuit
    /// at them, and the `distance` of that matrix from the target.
    ///
    /// The child replaces the best result where [`improves`] says so. It is put on the
    /// frontier, with the heuristic value of its distance one level below its own depth
    /// and with the next tiebreaker, if its depth is below the depth bound. A search
    /// without a depth bound is bounded by the largest depth that can be held.
    pub fn record<H>(
        &mut self,
        candidate: Candidate,
        distance: u64,
        params: P,
        matrix: M,
        astar: &H,
    ) where H: Fn(u64, usize) -> u64
        requires
            forall|d: u64, n: usize| call_requires(*astar, (d, n)),
        ensures
            final(self)@.threshold == old(self)@.threshold,
            final(self)@.max_depth == old(self)@.max_depth,
            final(self)@.beams == old(self)@.beams,
            improves(
                old(self)@.best.distance,
                old(self)@.best.depth,
                old(self)@.threshold,
                distance,
                candidate.depth,
            ) ==> {
                &&& final(self)@.best.distance == distance
                &&& final(self)@.best.depth == candidate.depth
                &&& final(self)@.best.matrix == matrix
                &&& final(self)@.best.circuit == candidate.circuit@
                &&& cloned(params, final(self)@.best.params)
            },
            !improves(
                old(self)@.best.distance,
                old(self)@.best.depth,
                old(self)@.threshold,
                distance,
                candidate.depth,
            ) ==> final(self)@.best == old(self)@.best,
            candidate.depth >= depth_limit(old(self)@.max_depth) ==> final(self)@.frontier == old(
                self,
            )@.frontier && final(self)@.tiebreaker == old(self)@.tiebreaker,
            candidate.depth < depth_limit(old(self)@.max_depth) ==> final(self)@.tiebreaker
                == next_tiebreaker(old(self)@.tiebreaker) && exists|heuristic: u64|
                #[trigger] call_ensures(*astar, (distance, (candidate.depth + 1) as usize), heuristic)
                    && final(self)@.frontier == with_node(
                    old(self)@.frontier,
                    Node {
                        heuristic,
                        depth: candidate.depth,
                        distance,
                        tiebreaker: old(self)@.tiebreaker,
                        params,
                        circuit: candidate.circuit@,
                    },
                ),
    {
        proof {
            use_type_invariant(&*self);
        }
        let Candidate { circuit, depth } = candidate;
        let better = (distance < self.best.distance && (self.best.distance >= self.threshold || depth
            < self.best.depth)) || (distance < self.threshold && depth < self.best.depth && depth + 1
            < self.best.depth);
        let bounded = match self.max_depth {
            Some(limit) => depth < limit,
            None => depth < usize::MAX,
        };
        if better && bounded {
            self.best =
            Best { distance, depth, matrix, circuit: circuit.clone(), params: params.clone() };
        } else if better {
            self.best = Best { distance, depth, matrix, circuit, params };
            return ;
        }
        if bounded {
            let heuristic = astar(distance, depth + 1);
            let item = QueueItem {
                heuristic,
                depth,
                distance,
                tiebreaker: self.tiebreaker,
                params,
                circuit,
            };
            let ghost nodes = self.frontier@;
            let mut frontier: Frontier<P> = Frontier::new();
            std::mem::swap(&mut self.frontier, &mut frontier);
            frontier.push(item);
            proof {
                let at = landing(nodes, item@) as int;
                assert forall|i: int| 0 <= i < frontier@.len() implies (#[trigger] frontier@[i]).depth
                    < depth_limit(self.max_depth) by {
                    if i < at {
                        assert(frontier@[i] == nodes[i]);
                    } else if i > at {
                        assert(frontier@[i] == nodes[i - 1]);
                    }
                }
            }
            self.frontier = frontier;
            if self.tiebreaker < i64::MAX {
                self.tiebreaker = self.tiebreaker + 1;
            }
        }
    }
}

} // verus!
