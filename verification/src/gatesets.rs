//! Gate-sets: which layers the search may build a circuit from.
//!
//! A gate-set proposes the layer every circuit begins with and the layers the search may
//! append, one for each position at which two neighbouring qudits can be entangled. The
//! gates it hands out name their constant matrices by index into the table that the
//! gate-set describes.
use vstd::prelude::*;
use crate::circuits::{
    Gate, GateCNOT, GateIdentity, GateKronecker, GateProduct, GateU3, GateXZXZ, shapes,
};
use crate::shape::{Shape, dits_before, inputs_before};

verus! {

/// What a matrix of the constant-gate table is. The numeric backend builds the table
/// from these.
#[derive(Clone, Copy, Debug, PartialEq, Eq, Structural)]
pub enum ConstantGate {
    /// The controlled-NOT on two qubits.
    Cnot,
    /// The rotation about X by a quarter turn.
    QuarterTurnX,
    /// The identity matrix with `size` rows.
    Identity { size: usize },
    /// The square root of X as the host supplies it, transposed.
    SqrtX,
    /// The `source`-th matrix that the host supplied, transposed.
    Unitary { source: usize },
}

/// What the search needs from a gate-set.
pub trait Gateset {
    /// The layer every circuit begins with, on `dits` qudits.
    fn initial_layer(&self, dits: u8) -> Gate;

    /// The layers the search may append to a circuit on `dits` qudits, each with its weight.
    fn search_layers(&self, dits: u8) -> Vec<(Gate, usize)>;

    /// The number of levels of a qudit: 2 for qubits, 3 for qutrits.
    fn d(&self) -> usize;

    /// What the entries of the constant-gate table are, in order.
    fn constant_gates(&self) -> Vec<ConstantGate>;
}

/// `count` copies of `step`, side by side.
pub open spec fn row_shape(step: Shape, count: nat) -> Shape {
    Shape::Kronecker { substeps: Seq::new(count, |k: int| step) }
}

/// An entangler on two neighbouring qudits, followed by a single-qudit gate on each.
pub open spec fn block_shape(double_step: Shape, single_step: Shape, alt_single_step: Shape) -> Shape {
    Shape::Product {
        substeps: seq![
            double_step,
            Shape::Kronecker { substeps: seq![single_step, alt_single_step] },
        ],
    }
}

/// The slots of a layer on `dits` qudits that entangles qudits `position` and
/// `position + 1`: the block stands in slot `position`, and `id` in every other slot.
pub open spec fn layer_slots(block: Shape, id: Shape, dits: nat, position: nat) -> Seq<Shape> {
    Seq::new(
        (dits - 1) as nat,
        |k: int|
            if k == position {
                block
            } else {
                id
            },
    )
}

/// The sums over a row of equal gates.
pub proof fn lemma_row_sums(row: Seq<Shape>, step: Shape, n: nat)
    requires
        n <= row.len(),
        forall|k: int| 0 <= k < n ==> row[k] == step,
    ensures
        inputs_before(row, n) == n * step.inputs(),
        dits_before(row, n) == n * step.dits(),
    decreases n,
{
    if n > 0 {
        lemma_row_sums(row, step, (n - 1) as nat);
        assert(n * step.inputs() == (n - 1) * step.inputs() + step.inputs()) by (nonlinear_arith);
        assert(n * step.dits() == (n - 1) * step.dits() + step.dits()) by (nonlinear_arith);
    }
}

/// The sums over the slots of a layer: one block among copies of `id`.
pub proof fn lemma_layer_sums(slots: Seq<Shape>, block: Shape, id: Shape, position: nat, n: nat)
    requires
        n <= slots.len(),
        forall|k: int| 0 <= k < n ==> slots[k] == if k == position {
            block
        } else {
            id
        },
    ensures
        n <= position ==> inputs_before(slots, n) == n * id.inputs() && dits_before(slots, n) == n
            * id.dits(),
        n > position ==> inputs_before(slots, n) == (n - 1) * id.inputs() + block.inputs()
            && dits_before(slots, n) == (n - 1) * id.dits() + block.dits(),
    decreases n,
{
    if n > 0 {
        lemma_layer_sums(slots, block, id, position, (n - 1) as nat);
        assert(n * id.inputs() == (n - 1) * id.inputs() + id.inputs()) by (nonlinear_arith);
        assert(n * id.dits() == (n - 1) * id.dits() + id.dits()) by (nonlinear_arith);
        if n - 1 > position {
            assert((n - 1) * id.inputs() == (n - 2) * id.inputs() + id.inputs())
                by (nonlinear_arith);
            assert((n - 1) * id.dits() == (n - 2) * id.dits() + id.dits()) by (nonlinear_arith);
        }
    }
}

/// A row of `dits` copies of `step`.
pub fn fill_row(step: &Gate, dits: u8) -> (out: Gate)
    requires
        dits * step@.dits() <= u8::MAX,
        dits * step@.inputs() <= usize::MAX,
    ensures
        out@ == row_shape(step@, dits as nat),
{
    let mut row: Vec<Gate> = Vec::new();
    let mut i: u8 = 0;
    while i < dits
        invariant
            i <= dits,
            row@.len() == i,
            forall|k: int| 0 <= k < i ==> (#[trigger] row@[k])@ == step@,
        decreases dits - i,
    {
        row.push(step.clone());
        i += 1;
    }
    proof {
        lemma_row_sums(shapes(row@), step@, dits as nat);
        assert(shapes(row@) =~= Seq::new(dits as nat, |k: int| step@));
    }
    Gate::Kronecker(GateKronecker::new(row))
}

/// The search layers of a line of `dits` qudits: for every pair of neighbours, a layer
/// that entangles the pair with `double_step`, applies `single_step` to the first and
/// `alt_single_step` to the second of them, and leaves the other qudits to `id`.
///
/// Every layer weighs one entangler and two single-qudit gates. A line of fewer than two
/// qudits has no pair of neighbours and no layer.
pub fn linear_topology(
    double_step: &Gate,
    single_step: &Gate,
    alt_single_step: &Gate,
    id: &Gate,
    dits: u8,
    double_weight: usize,
    single_weight: usize,
) -> (out: Vec<(Gate, usize)>)
    requires
        double_weight + 2 * single_weight <= usize::MAX,
        single_step@.dits() + alt_single_step@.dits() <= u8::MAX,
        double_step@.inputs() + single_step@.inputs() + alt_single_step@.inputs() <= usize::MAX,
        dits >= 2 ==> (dits - 2) * id@.dits() + double_step@.dits() <= u8::MAX,
        dits >= 2 ==> (dits - 2) * id@.inputs() + double_step@.inputs() + single_step@.inputs()
            + alt_single_step@.inputs() <= usize::MAX,
    ensures
        out@.len() == if dits >= 2 {
            dits - 1
        } else {
            0
        },
        forall|i: int|
            0 <= i < out@.len() ==> (#[trigger] out@[i]).1 == double_weight + 2 * single_weight
                && out@[i].0@ == (Shape::Kronecker {
                substeps: layer_slots(
                    block_shape(double_step@, single_step@, alt_single_step@),
                    id@,
                    dits as nat,
                    i as nat,
                ),
            }),
{
    let weight = double_weight + 2 * single_weight;
    let mut out: Vec<(Gate, usize)> = Vec::new();
    if dits < 2 {
        return out;
    }
    let ghost block = block_shape(double_step@, single_step@, alt_single_step@);
    let mut i: u8 = 0;
    while i < dits - 1
        invariant
            dits >= 2,
            i <= dits - 1,
            weight == double_weight + 2 * single_weight,
            block == block_shape(double_step@, single_step@, alt_single_step@),
            single_step@.dits() + alt_single_step@.dits() <= u8::MAX,
            double_step@.inputs() + single_step@.inputs() + alt_single_step@.inputs() <= usize::MAX,
            (dits - 2) * id@.dits() + double_step@.dits() <= u8::MAX,
            (dits - 2) * id@.inputs() + double_step@.inputs() + single_step@.inputs()
                + alt_single_step@.inputs() <= usize::MAX,
            out@.len() == i,
            forall|p: int|
                0 <= p < out@.len() ==> (#[trigger] out@[p]).1 == weight && out@[p].0@
                    == (Shape::Kronecker { substeps: layer_slots(block, id@, dits as nat, p as nat) }),
        decreases dits - 1 - i,
    {
        let mut layer: Vec<Gate> = Vec::new();
        let mut k: u8 = 0;
        while k < dits - 1
            invariant
                dits >= 2,
                i < dits - 1,
                k <= dits - 1,
                block == block_shape(double_step@, single_step@, alt_single_step@),
                single_step@.dits() + alt_single_step@.dits() <= u8::MAX,
                double_step@.inputs() + single_step@.inputs() + alt_single_step@.inputs()
                    <= usize::MAX,
                layer@.len() == k,
                forall|q: int|
                    0 <= q < k ==> (#[trigger] layer@[q])@ == if q == i {
                        block
                    } else {
                        id@
                    },
            decreases dits - 1 - k,
        {
            if k == i {
                let pair = vec![single_step.clone(), alt_single_step.clone()];
                proof {
                    let models = shapes(pair@);
                    assert(models =~= seq![single_step@, alt_single_step@]);
                    assert(inputs_before(models, 2) == single_step@.inputs()
                        + alt_single_step@.inputs()) by {
                        assert(inputs_before(models, 1) == single_step@.inputs()) by {
                            assert(inputs_before(models, 0) == 0);
                        }
                    }
                    assert(dits_before(models, 2) == single_step@.dits() + alt_single_step@.dits())
                        by {
                        assert(dits_before(models, 1) == single_step@.dits()) by {
                            assert(dits_before(models, 0) == 0);
                        }
                    }
                }
                let singles = GateKronecker::new(pair);
                let steps = vec![double_step.clone(), Gate::Kronecker(singles)];
                proof {
                    let models = shapes(steps@);
                    assert(models =~= seq![
                        double_step@,
                        Shape::Kronecker { substeps: seq![single_step@, alt_single_step@] },
                    ]);
                    assert(inputs_before(models, 2) == double_step@.inputs() + models[1].inputs())
                        by {
                        assert(inputs_before(models, 1) == double_step@.inputs()) by {
                            assert(inputs_before(models, 0) == 0);
                        }
                    }
                }
                let parameterized = GateProduct::new(steps);
                layer.push(Gate::Product(parameterized));
            } else {
                layer.push(id.clone());
            }
            k += 1;
        }
        proof {
            let slots = shapes(layer@);
            assert(slots =~= layer_slots(block, id@, dits as nat, i as nat));
            lemma_layer_sums(slots, block, id@, i as nat, (dits - 1) as nat);
            lemma_block_arity(double_step@, single_step@, alt_single_step@);
        }
        out.push((Gate::Kronecker(GateKronecker::new(layer)), weight));
        i += 1;
    }
    out
}

/// A block consumes the parameters of its three gates and acts on the qudits of its
/// entangler.
pub proof fn lemma_block_arity(double_step: Shape, single_step: Shape, alt_single_step: Shape)
    ensures
        block_shape(double_step, single_step, alt_single_step).inputs() == double_step.inputs()
            + single_step.inputs() + alt_single_step.inputs(),
        block_shape(double_step, single_step, alt_single_step).dits() == double_step.dits(),
{
    let pair = seq![single_step, alt_single_step];
    assert(inputs_before(pair, 2) == single_step.inputs() + alt_single_step.inputs()) by {
        assert(inputs_before(pair, 1) == single_step.inputs()) by {
            assert(inputs_before(pair, 0) == 0);
        }
    }
    let steps = seq![double_step, Shape::Kronecker { substeps: pair }];
    assert(inputs_before(steps, 2) == double_step.inputs() + steps[1].inputs()) by {
        assert(inputs_before(steps, 1) == double_step.inputs()) by {
            assert(inputs_before(steps, 0) == 0);
        }
    }
}

/// A gate-set of qubits on a line: general single-qubit rotations, and controlled-NOTs
/// between neighbours.
pub struct GateSetLinearCNOT {
    double_step: Gate,
    single_step: Gate,
    single_alt_step: Gate,
    id: Gate,
    const_gates: Vec<ConstantGate>,
}

impl GateSetLinearCNOT {
    #[verifier::type_invariant]
    spec fn inv(self) -> bool {
        &&& self.double_step@ == (Shape::CNOT { index: 0 })
        &&& self.single_step@ == Shape::U3
        &&& self.single_alt_step@ == (Shape::XZXZ { x90_index: 1 })
        &&& self.id@ == (Shape::Identity { index: 2 })
        &&& self.const_gates@ == Self::table()
    }

    /// The constant-gate table of this gate-set: the controlled-NOT, the quarter turn about
    /// X, and the identity on one qubit.
    pub open spec fn table() -> Seq<ConstantGate> {
        seq![ConstantGate::Cnot, ConstantGate::QuarterTurnX, ConstantGate::Identity { size: 2 }]
    }

    /// The layer every circuit begins with: a general rotation on every qubit.
    pub open spec fn initial_shape(dits: nat) -> Shape {
        row_shape(Shape::U3, dits)
    }

    /// The search layer that entangles qubits `position` and `position + 1` of `dits`:
    /// a controlled-NOT followed by a two-angle rotation on the first and a general
    /// rotation on the second of them, and the identity on every other qubit.
    pub open spec fn layer_shape(dits: nat, position: nat) -> Shape {
        Shape::Kronecker {
            substeps: layer_slots(
                block_shape(Shape::CNOT { index: 0 }, Shape::XZXZ { x90_index: 1 }, Shape::U3),
                Shape::Identity { index: 2 },
                dits,
                position,
            ),
        }
    }

    /// What the entries of the constant-gate table of this gate-set are.
    pub closed spec fn constants(&self) -> Seq<ConstantGate> {
        self.const_gates@
    }

    /// A gate-set of qubits on a line, with its table: the controlled-NOT at 0, the
    /// quarter turn at 1 and the identity at 2.
    pub fn new() -> (out: Self)
        ensures
            out.constants() == Self::table(),
    {
        GateSetLinearCNOT {
            double_step: Gate::CNOT(GateCNOT::new(0)),
            single_step: Gate::U3(GateU3::new()),
            single_alt_step: Gate::XZXZ(GateXZXZ::new(1)),
            id: Gate::Identity(GateIdentity::new(2)),
            const_gates: vec![
                ConstantGate::Cnot,
                ConstantGate::QuarterTurnX,
                ConstantGate::Identity { size: 2 },
            ],
        }
    }
}

impl Gateset for GateSetLinearCNOT {
    fn initial_layer(&self, dits: u8) -> (out: Gate)
        ensures
            out@ == Self::initial_shape(dits as nat),
            dits >= 1 ==> out@.fits(Self::table().len()),
            out@.dits() == dits,
            out@.inputs() == 3 * dits,
    {
        proof {
            use_type_invariant(self);
            let row = Seq::new(dits as nat, |k: int| Shape::U3);
            lemma_row_sums(row, Shape::U3, dits as nat);
            assert(Shape::U3.dits() == 1 && Shape::U3.inputs() == 3);
            assert(inputs_before(row, dits as nat) == 3 * dits);
            assert(dits_before(row, dits as nat) == dits);
            assert forall|k: int| 0 <= k < row.len() implies (#[trigger] row[k]).fits(3) by {}
        }
        fill_row(&self.single_step, dits)
    }

    fn search_layers(&self, dits: u8) -> (out: Vec<(Gate, usize)>)
        ensures
            out@.len() == if dits >= 2 {
                dits - 1
            } else {
                0
            },
            forall|i: int|
                0 <= i < out@.len() ==> {
                    &&& (#[trigger] out@[i]).1 == 1
                    &&& out@[i].0@ == Self::layer_shape(dits as nat, i as nat)
                    &&& out@[i].0@.fits(Self::table().len())
                    &&& out@[i].0@.dits() == dits
                    &&& out@[i].0@.inputs() == 5
                },
    {
        proof {
            use_type_invariant(self);
        }
        let out = linear_topology(
            &self.double_step,
            &self.single_alt_step,
            &self.single_step,
            &self.id,
            dits,
            1,
            0,
        );
        proof {
            assert forall|i: int| 0 <= i < out@.len() implies {
                &&& (#[trigger] out@[i]).0@.fits(Self::table().len())
                &&& out@[i].0@.dits() == dits
                &&& out@[i].0@.inputs() == 5
            } by {
                let block = block_shape(
                    Shape::CNOT { index: 0 },
                    Shape::XZXZ { x90_index: 1 },
                    Shape::U3,
                );
                let id = Shape::Identity { index: 2 };
                let slots = layer_slots(block, id, dits as nat, i as nat);
                lemma_layer_sums(slots, block, id, i as nat, (dits - 1) as nat);
                lemma_block_arity(Shape::CNOT { index: 0 }, Shape::XZXZ { x90_index: 1 }, Shape::U3);
                let pair = seq![Shape::XZXZ { x90_index: 1 }, Shape::U3];
                assert((Shape::Kronecker { substeps: pair }).fits(3)) by {
                    assert forall|k: int| 0 <= k < pair.len() implies (#[trigger] pair[k]).fits(
                        3,
                    ) by {}
                }
                assert(block.fits(3)) by {
                    let steps = seq![Shape::CNOT { index: 0 }, Shape::Kronecker { substeps: pair }];
                    assert forall|k: int| 0 <= k < steps.len() implies (#[trigger] steps[k]).fits(
                        3,
                    ) by {}
                }
                assert forall|k: int| 0 <= k < slots.len() implies (#[trigger] slots[k]).fits(3) by {}
            }
        }
        out
    }

    fn d(&self) -> (out: usize)
        ensures
            out == 2,
    {
        2
    }

    fn constant_gates(&self) -> (out: Vec<ConstantGate>)
        ensures
            out@ == self.constants(),
            out@ == Self::table(),
    {
        proof {
            use_type_invariant(self);
        }
        self.const_gates.clone()
    }
}

} // verus!
