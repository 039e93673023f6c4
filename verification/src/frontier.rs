//! The frontier of the search: the nodes that wait to be expanded, best first.
use vstd::prelude::*;
use crate::circuits::GateProduct;
use crate::shape::Shape;

verus! {

/// A search node as a mathematical value.
pub ghost struct Node<P> {
    pub heuristic: u64,
    pub depth: usize,
    pub distance: u64,
    pub tiebreaker: i64,
    pub params: P,
    pub circuit: Shape,
}

/// A circuit that has been solved, with what decides where it stands in the frontier.
///
/// `heuristic` and `distance` are order keys: the caller maps the real numbers to
/// unsigned integers that compare as the numbers do. `params` is what the solver
/// returned for `circuit`.
#[derive(Debug)]
pub struct QueueItem<P> {
    pub heuristic: u64,
    pub depth: usize,
    pub distance: u64,
    pub tiebreaker: i64,
    pub params: P,
    pub circuit: GateProduct,
}

impl<P> View for QueueItem<P> {
    type V = Node<P>;

    open spec fn view(&self) -> Node<P> {
        Node {
            heuristic: self.heuristic,
            depth: self.depth,
            distance: self.distance,
            tiebreaker: self.tiebreaker,
            params: self.params,
            circuit: self.circuit@,
        }
    }
}

/// `a` is expanded strictly before `b`: by smaller heuristic, then by smaller depth, then
/// by smaller distance, then by smaller tiebreaker.
pub open spec fn precedes<P>(a: Node<P>, b: Node<P>) -> bool {
    ||| a.heuristic < b.heuristic
    ||| a.heuristic == b.heuristic && a.depth < b.depth
    ||| a.heuristic == b.heuristic && a.depth == b.depth && a.distance < b.distance
    ||| a.heuristic == b.heuristic && a.depth == b.depth && a.distance == b.distance
        && a.tiebreaker < b.tiebreaker
}

/// Neither node is expanded strictly before the other.
pub open spec fn ties<P>(a: Node<P>, b: Node<P>) -> bool {
    &&& a.heuristic == b.heuristic
    &&& a.depth == b.depth
    &&& a.distance == b.distance
    &&& a.tiebreaker == b.tiebreaker
}

/// The nodes are held worst first: no node is expanded strictly before one that stands
/// behind it.
pub open spec fn worst_first<P>(nodes: Seq<Node<P>>) -> bool {
    forall|i: int, j: int| 0 <= i < j < nodes.len() ==> !precedes(nodes[i], nodes[j])
}

/// How many nodes, counted from position `from`, a new node `x` is expanded strictly
/// before: where `x` lands among nodes held worst first.
pub open spec fn landing_from<P>(nodes: Seq<Node<P>>, x: Node<P>, from: nat) -> nat
    decreases nodes.len() - from,
{
    if from < nodes.len() && precedes(x, nodes[from as int]) {
        landing_from(nodes, x, from + 1)
    } else {
        from
    }
}

/// The position at which `x` is put among `nodes`: behind every node that it is expanded
/// strictly before, and in front of the first node that it ties with or comes after.
pub open spec fn landing<P>(nodes: Seq<Node<P>>, x: Node<P>) -> nat {
    landing_from(nodes, x, 0)
}

impl<P> QueueItem<P> {
    /// Whether `self` is expanded strictly before `other`.
    pub fn precedes(&self, other: &QueueItem<P>) -> (b: bool)
        ensures
            b == precedes(self@, other@),
    {
        if self.heuristic != other.heuristic {
            self.heuristic < other.heuristic
        } else if self.depth != other.depth {
            self.depth < other.depth
        } else if self.distance != other.distance {
            self.distance < other.distance
        } else {
            self.tiebreaker < other.tiebreaker
        }
    }
}

/// The order of expansion is a strict total order up to ties: of two nodes exactly one
/// comes first, unless all four of their keys agree, and the order is transitive. Giving
/// every node its own tiebreaker therefore fixes the order of expansion completely.
pub proof fn lemma_order_total<P>(a: Node<P>, b: Node<P>, c: Node<P>)
    ensures
        !(precedes(a, b) && precedes(b, a)),
        precedes(a, b) || precedes(b, a) || ties(a, b),
        ties(a, b) ==> !precedes(a, b) && !precedes(b, a),
        precedes(a, b) && precedes(b, c) ==> precedes(a, c),
        !precedes(b, a) && !precedes(c, b) ==> !precedes(c, a),
{
}

/// The nodes that wait to be expanded.
///
/// They are kept worst first, so that the node to expand next is the last one. Of nodes
/// that tie, the one that was pushed first is expanded first.
pub struct Frontier<P> {
    items: Vec<QueueItem<P>>,
}

impl<P> View for Frontier<P> {
    type V = Seq<Node<P>>;

    closed spec fn view(&self) -> Seq<Node<P>> {
        Seq::new(self.items@.len(), |i: int| self.items@[i]@)
    }
}

impl<P> Frontier<P> {
    #[verifier::type_invariant]
    spec fn inv(self) -> bool {
        worst_first(self@)
    }

    /// A frontier without nodes.
    pub fn new() -> (out: Self)
        ensures
            out@ == Seq::<Node<P>>::empty(),
    {
        let out = Frontier { items: Vec::new() };
        assert(out@ =~= Seq::<Node<P>>::empty());
        out
    }

    /// The number of nodes that wait.
    pub fn len(&self) -> (n: usize)
        ensures
            n == self@.len(),
    {
        self.items.len()
    }

    /// Whether no node waits.
    pub fn is_empty(&self) -> (b: bool)
        ensures
            b == (self@.len() == 0),
    {
        self.items.len() == 0
    }

    /// Puts `item` where it belongs.
    pub fn push(&mut self, item: QueueItem<P>)
        ensures
            final(self)@ == old(self)@.insert(landing(old(self)@, item@) as int, item@),
            landing(old(self)@, item@) <= old(self)@.len(),
    {
        proof {
            use_type_invariant(&*self);
        }
        let ghost nodes = self@;
        let mut items: Vec<QueueItem<P>> = Vec::new();
        std::mem::swap(&mut self.items, &mut items);
        let n = items.len();
        let mut at: usize = 0;
        while at < n && item.precedes(&items[at])
            invariant
                at <= n == items@.len() == nodes.len(),
                forall|i: int| 0 <= i < n ==> nodes[i] == (#[trigger] items@[i])@,
                landing_from(nodes, item@, at as nat) == landing(nodes, item@),
            decreases n - at,
        {
            at += 1;
        }
        proof {
            lemma_landing_keeps_order(nodes, item@);
        }
        items.insert(at, item);
        assert(Seq::new(items@.len(), |i: int| items@[i]@) =~= nodes.insert(at as int, item@));
        self.items = items;
    }

    /// Takes the node to expand next, if there is one: no node that stays is expanded
    /// strictly before it.
    pub fn pop(&mut self) -> (out: Option<QueueItem<P>>)
        ensures
            old(self)@.len() == 0 ==> out is None && final(self)@ == old(self)@,
            old(self)@.len() > 0 ==> out is Some && out->0@ == old(self)@.last()
                && final(self)@ == old(self)@.drop_last(),
            out is Some ==> forall|i: int|
                0 <= i < final(self)@.len() ==> !precedes(#[trigger] final(self)@[i], out->0@),
    {
        proof {
            use_type_invariant(&*self);
        }
        let ghost nodes = self@;
        let mut items: Vec<QueueItem<P>> = Vec::new();
        std::mem::swap(&mut self.items, &mut items);
        assert(Seq::new(items@.len(), |i: int| items@[i]@) =~= nodes);
        let out = items.pop();
        assert(Seq::new(items@.len(), |i: int| items@[i]@) =~= if nodes.len() == 0 {
            nodes
        } else {
            nodes.drop_last()
        });
        self.items = items;
        proof {
            if nodes.len() > 0 {
                assert forall|i: int| 0 <= i < self@.len() implies !precedes(
                    #[trigger] self@[i],
                    out->0@,
                ) by {
                    assert(self@[i] == nodes[i]);
                    assert(!precedes(nodes[i], nodes[nodes.len() - 1]));
                }
            }
        }
        out
    }

    /// Drops every node.
    pub fn clear(&mut self)
        ensures
            final(self)@ == Seq::<Node<P>>::empty(),
    {
        self.items = Vec::new();
        assert(self@ =~= Seq::<Node<P>>::empty());
    }
}

/// Putting a node where it lands keeps the nodes worst first.
pub proof fn lemma_landing_keeps_order<P>(nodes: Seq<Node<P>>, x: Node<P>)
    requires
        worst_first(nodes),
    ensures
        landing(nodes, x) <= nodes.len(),
        worst_first(nodes.insert(landing(nodes, x) as int, x)),
{
    lemma_landing_splits(nodes, x, 0);
    let at = landing(nodes, x) as int;
    let after = nodes.insert(at, x);
    assert forall|i: int, j: int| 0 <= i < j < after.len() implies !precedes(after[i], after[j]) by {
        if j < at {
            assert(after[i] == nodes[i] && after[j] == nodes[j]);
        } else if j == at {
            assert(after[i] == nodes[i]);
            assert(precedes(x, nodes[i]));
        } else if i < at {
            assert(after[i] == nodes[i] && after[j] == nodes[j - 1]);
        } else if i == at {
            assert(after[j] == nodes[j - 1]);
            assert(!precedes(x, nodes[at]));
            if j - 1 > at {
                assert(!precedes(nodes[at], nodes[j - 1]));
            }
        } else {
            assert(after[i] == nodes[i - 1] && after[j] == nodes[j - 1]);
        }
    }
}

/// Where a node lands, every node in front of it comes strictly after it, and the node
/// it lands on does not.
pub proof fn lemma_landing_splits<P>(nodes: Seq<Node<P>>, x: Node<P>, from: nat)
    requires
        from <= nodes.len(),
    ensures
        from <= landing_from(nodes, x, from) <= nodes.len(),
        forall|i: int| from <= i < landing_from(nodes, x, from) ==> precedes(x, #[trigger] nodes[i]),
        landing_from(nodes, x, from) < nodes.len() ==> !precedes(
            x,
            nodes[landing_from(nodes, x, from) as int],
        ),
    decreases nodes.len() - from,
{
    if from < nodes.len() && precedes(x, nodes[from as int]) {
        lemma_landing_splits(nodes, x, from + 1);
    }
}

} // verus!
