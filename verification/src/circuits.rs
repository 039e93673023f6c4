//! Parameterized gates: the nodes a circuit is built from.
//!
//! Every node knows how many real parameters it consumes and how many qudits it acts on.
//! Constant gates carry no matrix of their own; they name an entry of a constant-gate
//! table by its index, so that a node is cheap to copy.
use vstd::prelude::*;
use crate::shape::{Shape, inputs_before, dits_before, lemma_before_monotonic, lemma_before_prefix};

verus! {

/// Qudit and parameter counts that every gate node carries.
#[derive(Clone, Copy, Debug, PartialEq, Eq, Structural)]
pub struct QuantumGateData {
    pub dits: u8,
    pub num_inputs: usize,
}

/// Any fixed unitary, stored in the constant-gate table.
#[derive(Clone, Copy, Debug, PartialEq)]
pub struct GateConstantUnitary {
    pub(crate) data: QuantumGateData,
    pub(crate) index: usize,
}

impl View for GateConstantUnitary {
    type V = Shape;

    open(crate) spec fn view(&self) -> Shape {
        Shape::ConstantUnitary { index: self.index as nat, dits: self.data.dits as nat }
    }
}

impl GateConstantUnitary {
    #[verifier::type_invariant]
    pub(crate) open spec fn inv(self) -> bool {
        self.data.num_inputs == 0
    }

    /// The constant unitary on `dits` qudits whose matrix is entry `index` of the
    /// constant-gate table.
    pub fn new(index: usize, dits: u8) -> (out: Self)
        ensures
            out@ == (Shape::ConstantUnitary { index: index as nat, dits: dits as nat }),
    {
        GateConstantUnitary { data: QuantumGateData { dits, num_inputs: 0 }, index }
    }

    /// Where this gate's matrix lives in the constant-gate table.
    pub fn index(&self) -> (i: usize)
        ensures
            self@ matches Shape::ConstantUnitary { index, .. } && index == i,
    {
        self.index
    }

    /// Number of qudits this gate acts on.
    pub fn dits(&self) -> (d: u8)
        ensures
            self@ matches Shape::ConstantUnitary { dits, .. } && dits == d,
    {
        self.data.dits
    }

    /// Number of real parameters this gate consumes.
    pub fn inputs(&self) -> (n: usize)
        ensures
            n == 0,
    {
        0
    }
}

/// The identity on one qudit, stored in the constant-gate table.
#[derive(Clone, Copy, Debug, PartialEq)]
pub struct GateIdentity {
    pub(crate) data: QuantumGateData,
    pub(crate) index: usize,
}

impl View for GateIdentity {
    type V = Shape;

    open(crate) spec fn view(&self) -> Shape {
        Shape::Identity { index: self.index as nat }
    }
}

impl GateIdentity {
    #[verifier::type_invariant]
    pub(crate) open spec fn inv(self) -> bool {
        self.data.dits == 1 && self.data.num_inputs == 0
    }

    /// The identity whose matrix is entry `n` of the constant-gate table.
    pub fn new(n: usize) -> (out: Self)
        ensures
            out@ == (Shape::Identity { index: n as nat }),
    {
        GateIdentity { data: QuantumGateData { dits: 1, num_inputs: 0 }, index: n }
    }

    /// Where the matrix of this gate lives in the constant-gate table.
    pub fn index(&self) -> (i: usize)
        ensures
            self@ == (Shape::Identity { index: i as nat }),
    {
        self.index
    }

    /// Number of real parameters this gate consumes.
    pub fn inputs(&self) -> (n: usize)
        ensures
            n == 0,
    {
        proof {
            use_type_invariant(self);
        }
        self.data.num_inputs
    }
}

/// The two-qudit entangler, stored in the constant-gate table.
#[derive(Clone, Copy, Debug, PartialEq)]
pub struct GateCNOT {
    pub(crate) data: QuantumGateData,
    pub(crate) index: usize,
}

impl View for GateCNOT {
    type V = Shape;

    open(crate) spec fn view(&self) -> Shape {
        Shape::CNOT { index: self.index as nat }
    }
}

impl GateCNOT {
    #[verifier::type_invariant]
    pub(crate) open spec fn inv(self) -> bool {
        self.data.dits == 2 && self.data.num_inputs == 0
    }

    /// The entangler whose matrix is entry `index` of the constant-gate table.
    pub fn new(index: usize) -> (out: Self)
        ensures
            out@ == (Shape::CNOT { index: index as nat }),
    {
        GateCNOT { data: QuantumGateData { dits: 2, num_inputs: 0 }, index }
    }

    /// Where the matrix of this gate lives in the constant-gate table.
    pub fn index(&self) -> (i: usize)
        ensures
            self@ == (Shape::CNOT { index: i as nat }),
    {
        self.index
    }

    /// Number of real parameters this gate consumes.
    pub fn inputs(&self) -> (n: usize)
        ensures
            n == 0,
    {
        proof {
            use_type_invariant(self);
        }
        self.data.num_inputs
    }
}

/// Two Z-rotations around a parameter-free quarter turn about X.
#[derive(Clone, Copy, Debug, PartialEq)]
pub struct GateXZXZ {
    pub(crate) data: QuantumGateData,
    pub(crate) x90_index: usize,
}

impl View for GateXZXZ {
    type V = Shape;

    open(crate) spec fn view(&self) -> Shape {
        Shape::XZXZ { x90_index: self.x90_index as nat }
    }
}

impl GateXZXZ {
    #[verifier::type_invariant]
    pub(crate) open spec fn inv(self) -> bool {
        self.data.dits == 1 && self.data.num_inputs == 2
    }

    /// `x90_index` is where the quarter turn about X lives in the constant-gate table.
    pub fn new(x90_index: usize) -> (out: Self)
        ensures
            out@ == (Shape::XZXZ { x90_index: x90_index as nat }),
    {
        GateXZXZ { data: QuantumGateData { dits: 1, num_inputs: 2 }, x90_index }
    }

    /// Where the quarter turn about X lives in the constant-gate table.
    pub fn x90_index(&self) -> (i: usize)
        ensures
            self@ == (Shape::XZXZ { x90_index: i as nat }),
    {
        self.x90_index
    }

    /// Number of real parameters this gate consumes.
    pub fn inputs(&self) -> (n: usize)
        ensures
            n == 2,
    {
        proof {
            use_type_invariant(self);
        }
        self.data.num_inputs
    }
}

/// Three Z-rotations around a parameter-free quarter turn about X.
#[derive(Clone, Copy, Debug, PartialEq)]
pub struct GateZXZXZ {
    pub(crate) data: QuantumGateData,
    pub(crate) x90_index: usize,
}

impl View for GateZXZXZ {
    type V = Shape;

    open(crate) spec fn view(&self) -> Shape {
        Shape::ZXZXZ { x90_index: self.x90_index as nat }
    }
}

impl GateZXZXZ {
    #[verifier::type_invariant]
    pub(crate) open spec fn inv(self) -> bool {
        self.data.dits == 1 && self.data.num_inputs == 3
    }

    /// `x90_index` is where the quarter turn about X lives in the constant-gate table.
    pub fn new(x90_index: usize) -> (out: Self)
        ensures
            out@ == (Shape::ZXZXZ { x90_index: x90_index as nat }),
    {
        GateZXZXZ { data: QuantumGateData { dits: 1, num_inputs: 3 }, x90_index }
    }

    /// Where the quarter turn about X lives in the constant-gate table.
    pub fn x90_index(&self) -> (i: usize)
        ensures
            self@ == (Shape::ZXZXZ { x90_index: i as nat }),
    {
        self.x90_index
    }

    /// Number of real parameters this gate consumes.
    pub fn inputs(&self) -> (n: usize)
        ensures
            n == 3,
    {
        proof {
            use_type_invariant(self);
        }
        self.data.num_inputs
    }
}

/// A general single-qubit rotation with three angles.
#[derive(Clone, Copy, Debug, PartialEq)]
pub struct GateU3 {
    pub(crate) data: QuantumGateData,
}

impl View for GateU3 {
    type V = Shape;

    open spec fn view(&self) -> Shape {
        Shape::U3
    }
}

impl GateU3 {
    #[verifier::type_invariant]
    pub(crate) open spec fn inv(self) -> bool {
        self.data.dits == 1 && self.data.num_inputs == 3
    }

    /// A gate of this kind: it carries the counts of one qudit and three parameters.
    pub fn new() -> (out: Self)
        ensures
            out@ == Shape::U3,
            out.counts() == (QuantumGateData { dits: 1, num_inputs: 3 }),
    {
        GateU3 { data: QuantumGateData { dits: 1, num_inputs: 3 } }
    }

    /// Number of real parameters this gate consumes.
    pub fn inputs(&self) -> (n: usize)
        ensures
            n == 3,
    {
        proof {
            use_type_invariant(self);
        }
        self.data.num_inputs
    }

    /// The qudit and parameter counts that this gate carries.
    pub closed spec fn counts(&self) -> QuantumGateData {
        self.data
    }

    /// The qudit and parameter counts that this gate carries: those of its kind.
    pub fn data(&self) -> (out: QuantumGateData)
        ensures
            out == self.counts(),
            out == (QuantumGateData { dits: 1, num_inputs: 3 }),
    {
        proof {
            use_type_invariant(self);
        }
        self.data
    }
}

/// A single-qubit rotation with two angles.
#[derive(Clone, Copy, Debug, PartialEq)]
pub struct GateU2 {
    pub(crate) data: QuantumGateData,
}

impl View for GateU2 {
    type V = Shape;

    open spec fn view(&self) -> Shape {
        Shape::U2
    }
}

impl GateU2 {
    #[verifier::type_invariant]
    pub(crate) open spec fn inv(self) -> bool {
        self.data.dits == 1 && self.data.num_inputs == 2
    }

    /// A gate of this kind: it carries the counts of one qudit and two parameters.
    pub fn new() -> (out: Self)
        ensures
            out@ == Shape::U2,
            out.counts() == (QuantumGateData { dits: 1, num_inputs: 2 }),
    {
        GateU2 { data: QuantumGateData { dits: 1, num_inputs: 2 } }
    }

    /// Number of real parameters this gate consumes.
    pub fn inputs(&self) -> (n: usize)
        ensures
            n == 2,
    {
        proof {
            use_type_invariant(self);
        }
        self.data.num_inputs
    }

    /// The qudit and parameter counts that this gate carries.
    pub closed spec fn counts(&self) -> QuantumGateData {
        self.data
    }

    /// The qudit and parameter counts that this gate carries: those of its kind.
    pub fn data(&self) -> (out: QuantumGateData)
        ensures
            out == self.counts(),
            out == (QuantumGateData { dits: 1, num_inputs: 2 }),
    {
        proof {
            use_type_invariant(self);
        }
        self.data
    }
}

/// A single-qubit Z-rotation times a global phase.
#[derive(Clone, Copy, Debug, PartialEq)]
pub struct GateU1 {
    pub(crate) data: QuantumGateData,
}

impl View for GateU1 {
    type V = Shape;

    open spec fn view(&self) -> Shape {
        Shape::U1
    }
}

impl GateU1 {
    #[verifier::type_invariant]
    pub(crate) open spec fn inv(self) -> bool {
        self.data.dits == 1 && self.data.num_inputs == 1
    }

    /// A gate of this kind: it carries the counts of one qudit and one parameter.
    pub fn new() -> (out: Self)
        ensures
            out@ == Shape::U1,
            out.counts() == (QuantumGateData { dits: 1, num_inputs: 1 }),
    {
        GateU1 { data: QuantumGateData { dits: 1, num_inputs: 1 } }
    }

    /// Number of real parameters this gate consumes.
    pub fn inputs(&self) -> (n: usize)
        ensures
            n == 1,
    {
        proof {
            use_type_invariant(self);
        }
        self.data.num_inputs
    }

    /// The qudit and parameter counts that this gate carries.
    pub closed spec fn counts(&self) -> QuantumGateData {
        self.data
    }

    /// The qudit and parameter counts that this gate carries: those of its kind.
    pub fn data(&self) -> (out: QuantumGateData)
        ensures
            out == self.counts(),
            out == (QuantumGateData { dits: 1, num_inputs: 1 }),
    {
        proof {
            use_type_invariant(self);
        }
        self.data
    }
}

/// A single-qubit rotation about the X axis.
#[derive(Clone, Copy, Debug, PartialEq)]
pub struct GateX {
    pub(crate) data: QuantumGateData,
}

impl View for GateX {
    type V = Shape;

    open spec fn view(&self) -> Shape {
        Shape::X
    }
}

impl GateX {
    #[verifier::type_invariant]
    pub(crate) open spec fn inv(self) -> bool {
        self.data.dits == 1 && self.data.num_inputs == 1
    }

    /// A gate of this kind: it carries the counts of one qudit and one parameter.
    pub fn new() -> (out: Self)
        ensures
            out@ == Shape::X,
            out.counts() == (QuantumGateData { dits: 1, num_inputs: 1 }),
    {
        GateX { data: QuantumGateData { dits: 1, num_inputs: 1 } }
    }

    /// Number of real parameters this gate consumes.
    pub fn inputs(&self) -> (n: usize)
        ensures
            n == 1,
    {
        proof {
            use_type_invariant(self);
        }
        self.data.num_inputs
    }

    /// The qudit and parameter counts that this gate carries.
    pub closed spec fn counts(&self) -> QuantumGateData {
        self.data
    }

    /// The qudit and parameter counts that this gate carries: those of its kind.
    pub fn data(&self) -> (out: QuantumGateData)
        ensures
            out == self.counts(),
            out == (QuantumGateData { dits: 1, num_inputs: 1 }),
    {
        proof {
            use_type_invariant(self);
        }
        self.data
    }
}

/// A single-qubit rotation about the Y axis.
#[derive(Clone, Copy, Debug, PartialEq)]
pub struct GateY {
    pub(crate) data: QuantumGateData,
}

impl View for GateY {
    type V = Shape;

    open spec fn view(&self) -> Shape {
        Shape::Y
    }
}

impl GateY {
    #[verifier::type_invariant]
    pub(crate) open spec fn inv(self) -> bool {
        self.data.dits == 1 && self.data.num_inputs == 1
    }

    /// A gate of this kind: it carries the counts of one qudit and one parameter.
    pub fn new() -> (out: Self)
        ensures
            out@ == Shape::Y,
            out.counts() == (QuantumGateData { dits: 1, num_inputs: 1 }),
    {
        GateY { data: QuantumGateData { dits: 1, num_inputs: 1 } }
    }

    /// Number of real parameters this gate consumes.
    pub fn inputs(&self) -> (n: usize)
        ensures
            n == 1,
    {
        proof {
            use_type_invariant(self);
        }
        self.data.num_inputs
    }

    /// The qudit and parameter counts that this gate carries.
    pub closed spec fn counts(&self) -> QuantumGateData {
        self.data
    }

    /// The qudit and parameter counts that this gate carries: those of its kind.
    pub fn data(&self) -> (out: QuantumGateData)
        ensures
            out == self.counts(),
            out == (QuantumGateData { dits: 1, num_inputs: 1 }),
    {
        proof {
            use_type_invariant(self);
        }
        self.data
    }
}

/// A single-qubit rotation about the Z axis.
#[derive(Clone, Copy, Debug, PartialEq)]
pub struct GateZ {
    pub(crate) data: QuantumGateData,
}

impl View for GateZ {
    type V = Shape;

    open spec fn view(&self) -> Shape {
        Shape::Z
    }
}

impl GateZ {
    #[verifier::type_invariant]
    pub(crate) open spec fn inv(self) -> bool {
        self.data.dits == 1 && self.data.num_inputs == 1
    }

    /// A gate of this kind: it carries the counts of one qudit and one parameter.
    pub fn new() -> (out: Self)
        ensures
            out@ == Shape::Z,
            out.counts() == (QuantumGateData { dits: 1, num_inputs: 1 }),
    {
        GateZ { data: QuantumGateData { dits: 1, num_inputs: 1 } }
    }

    /// Number of real parameters this gate consumes.
    pub fn inputs(&self) -> (n: usize)
        ensures
            n == 1,
    {
        proof {
            use_type_invariant(self);
        }
        self.data.num_inputs
    }

    /// The qudit and parameter counts that this gate carries.
    pub closed spec fn counts(&self) -> QuantumGateData {
        self.data
    }

    /// The qudit and parameter counts that this gate carries: those of its kind.
    pub fn data(&self) -> (out: QuantumGateData)
        ensures
            out == self.counts(),
            out == (QuantumGateData { dits: 1, num_inputs: 1 }),
    {
        proof {
            use_type_invariant(self);
        }
        self.data
    }
}

/// A general single-qutrit rotation with eight angles.
#[derive(Clone, Copy, Debug, PartialEq)]
pub struct GateSingleQutrit {
    pub(crate) data: QuantumGateData,
}

impl View for GateSingleQutrit {
    type V = Shape;

    open spec fn view(&self) -> Shape {
        Shape::SingleQutrit
    }
}

impl GateSingleQutrit {
    #[verifier::type_invariant]
    pub(crate) open spec fn inv(self) -> bool {
        self.data.dits == 1 && self.data.num_inputs == 8
    }

    /// A gate of this kind: it carries the counts of one qudit and eight parameters.
    pub fn new() -> (out: Self)
        ensures
            out@ == Shape::SingleQutrit,
            out.counts() == (QuantumGateData { dits: 1, num_inputs: 8 }),
    {
        GateSingleQutrit { data: QuantumGateData { dits: 1, num_inputs: 8 } }
    }

    /// Number of real parameters this gate consumes.
    pub fn inputs(&self) -> (n: usize)
        ensures
            n == 8,
    {
        proof {
            use_type_invariant(self);
        }
        self.data.num_inputs
    }

    /// The qudit and parameter counts that this gate carries.
    pub closed spec fn counts(&self) -> QuantumGateData {
        self.data
    }

    /// The qudit and parameter counts that this gate carries: those of its kind.
    pub fn data(&self) -> (out: QuantumGateData)
        ensures
            out == self.counts(),
            out == (QuantumGateData { dits: 1, num_inputs: 8 }),
    {
        proof {
            use_type_invariant(self);
        }
        self.data
    }
}

/// Tensor product of its children, taken in order.
///
/// It acts on the qudits of all its children and consumes their parameters one child
/// after the other.
#[derive(Debug, PartialEq)]
pub struct GateKronecker {
    pub(crate) data: QuantumGateData,
    pub(crate) substeps: Vec<Gate>,
}

/// Matrix product of its children; the child listed first is applied first.
///
/// It acts on the qudits of its first child and consumes the children's parameters one
/// child after the other.
#[derive(Debug, PartialEq)]
pub struct GateProduct {
    pub(crate) data: QuantumGateData,
    pub(crate) substeps: Vec<Gate>,
    pub(crate) index: usize,
}

/// A node of a circuit.
#[derive(Debug, PartialEq)]
pub enum Gate {
    Identity(GateIdentity),
    CNOT(GateCNOT),
    U3(GateU3),
    U2(GateU2),
    U1(GateU1),
    X(GateX),
    Y(GateY),
    Z(GateZ),
    XZXZ(GateXZXZ),
    ZXZXZ(GateZXZXZ),
    Kronecker(GateKronecker),
    Product(GateProduct),
    ConstantUnitary(GateConstantUnitary),
    SingleQutrit(GateSingleQutrit),
}

/// The models of a sequence of gates, in order.
pub open spec fn shapes(gates: Seq<Gate>) -> Seq<Shape>
    decreases gates, 1nat,
{
    Seq::new(
        gates.len(),
        |i: int|
            if 0 <= i < gates.len() {
                gates[i].view()
            } else {
                Shape::U3
            },
    )
}

impl View for GateKronecker {
    type V = Shape;

    open(crate) spec fn view(&self) -> Shape
        decreases *self, 0nat,
    {
        Shape::Kronecker { substeps: shapes(self.substeps@) }
    }
}

impl View for GateProduct {
    type V = Shape;

    open(crate) spec fn view(&self) -> Shape
        decreases *self, 0nat,
    {
        Shape::Product { substeps: shapes(self.substeps@) }
    }
}

impl View for Gate {
    type V = Shape;

    open spec fn view(&self) -> Shape
        decreases *self, 1nat,
    {
        match *self {
            Gate::Identity(g) => g.view(),
            Gate::CNOT(g) => g.view(),
            Gate::U3(g) => g.view(),
            Gate::U2(g) => g.view(),
            Gate::U1(g) => g.view(),
            Gate::X(g) => g.view(),
            Gate::Y(g) => g.view(),
            Gate::Z(g) => g.view(),
            Gate::XZXZ(g) => g.view(),
            Gate::ZXZXZ(g) => g.view(),
            Gate::Kronecker(g) => g.view(),
            Gate::Product(g) => g.view(),
            Gate::ConstantUnitary(g) => g.view(),
            Gate::SingleQutrit(g) => g.view(),
        }
    }
}

impl Gate {
    /// The qudit and parameter counts of this gate.
    pub fn data(&self) -> (out: QuantumGateData)
        ensures
            out.dits == self@.dits(),
            out.num_inputs == self@.inputs(),
    {
        QuantumGateData { dits: self.dits(), num_inputs: self.inputs() }
    }

    /// Number of qudits this gate acts on.
    pub fn dits(&self) -> (d: u8)
        ensures
            d == self@.dits(),
    {
        match self {
            Gate::Identity(g) => {
                proof {
                    use_type_invariant(g);
                }
                g.data.dits
            },
            Gate::CNOT(g) => {
                proof {
                    use_type_invariant(g);
                }
                g.data.dits
            },
            Gate::U3(g) => {
                proof {
                    use_type_invariant(g);
                }
                g.data.dits
            },
            Gate::U2(g) => {
                proof {
                    use_type_invariant(g);
                }
                g.data.dits
            },
            Gate::U1(g) => {
                proof {
                    use_type_invariant(g);
                }
                g.data.dits
            },
            Gate::X(g) => {
                proof {
                    use_type_invariant(g);
                }
                g.data.dits
            },
            Gate::Y(g) => {
                proof {
                    use_type_invariant(g);
                }
                g.data.dits
            },
            Gate::Z(g) => {
                proof {
                    use_type_invariant(g);
                }
                g.data.dits
            },
            Gate::XZXZ(g) => {
                proof {
                    use_type_invariant(g);
                }
                g.data.dits
            },
            Gate::ZXZXZ(g) => {
                proof {
                    use_type_invariant(g);
                }
                g.data.dits
            },
            Gate::Kronecker(g) => g.dits(),
            Gate::Product(g) => g.dits(),
            Gate::ConstantUnitary(g) => g.data.dits,
            Gate::SingleQutrit(g) => {
                proof {
                    use_type_invariant(g);
                }
                g.data.dits
            },
        }
    }

    /// Number of real parameters this gate consumes.
    pub fn inputs(&self) -> (n: usize)
        ensures
            n == self@.inputs(),
    {
        match self {
            Gate::Identity(g) => g.inputs(),
            Gate::CNOT(g) => g.inputs(),
            Gate::U3(g) => g.inputs(),
            Gate::U2(g) => g.inputs(),
            Gate::U1(g) => g.inputs(),
            Gate::X(g) => g.inputs(),
            Gate::Y(g) => g.inputs(),
            Gate::Z(g) => g.inputs(),
            Gate::XZXZ(g) => g.inputs(),
            Gate::ZXZXZ(g) => g.inputs(),
            Gate::Kronecker(g) => g.inputs(),
            Gate::Product(g) => g.inputs(),
            Gate::ConstantUnitary(g) => g.inputs(),
            Gate::SingleQutrit(g) => g.inputs(),
        }
    }
}

impl GateKronecker {
    #[verifier::type_invariant]
    pub(crate) open spec fn inv(self) -> bool {
        &&& self.data.dits == dits_before(shapes(self.substeps@), self.substeps@.len())
        &&& self.data.num_inputs == inputs_before(shapes(self.substeps@), self.substeps@.len())
    }

    /// The tensor product of `substeps`, in order.
    ///
    /// The qudit counts of the children must add up to at most 255, and their parameter
    /// counts to a number that can be held.
    pub fn new(substeps: Vec<Gate>) -> (out: Self)
        requires
            dits_before(shapes(substeps@), substeps@.len()) <= u8::MAX,
            inputs_before(shapes(substeps@), substeps@.len()) <= usize::MAX,
        ensures
            out@ == (Shape::Kronecker { substeps: shapes(substeps@) }),
    {
        let ghost models = shapes(substeps@);
        let mut dits: u8 = 0;
        let mut num_inputs: usize = 0;
        let mut i: usize = 0;
        while i < substeps.len()
            invariant
                i <= substeps.len(),
                models == shapes(substeps@),
                dits == dits_before(models, i as nat),
                num_inputs == inputs_before(models, i as nat),
                dits_before(models, substeps@.len()) <= u8::MAX,
                inputs_before(models, substeps@.len()) <= usize::MAX,
            decreases substeps.len() - i,
        {
            proof {
                lemma_before_monotonic(models, (i + 1) as nat, substeps@.len());
            }
            dits = dits + substeps[i].dits();
            num_inputs = num_inputs + substeps[i].inputs();
            i += 1;
        }
        GateKronecker { data: QuantumGateData { dits, num_inputs }, substeps }
    }

    /// The children, in order.
    pub fn substeps(&self) -> (out: &Vec<Gate>)
        ensures
            self@ == (Shape::Kronecker { substeps: shapes(out@) }),
    {
        &self.substeps
    }

    /// Number of qudits this gate acts on.
    pub fn dits(&self) -> (d: u8)
        ensures
            d == self@.dits(),
    {
        proof {
            use_type_invariant(self);
        }
        self.data.dits
    }

    /// Number of real parameters this gate consumes.
    pub fn inputs(&self) -> (n: usize)
        ensures
            n == self@.inputs(),
    {
        proof {
            use_type_invariant(self);
        }
        self.data.num_inputs
    }
}

impl GateProduct {
    #[verifier::type_invariant]
    pub(crate) open spec fn inv(self) -> bool {
        &&& self.substeps@.len() > 0
        &&& self.data.dits == self.substeps@[0]@.dits()
        &&& self.data.num_inputs == inputs_before(shapes(self.substeps@), self.substeps@.len())
    }

    /// The matrix product of `substeps`; the first of them is applied first.
    ///
    /// There must be at least one child, and the parameter counts of the children must
    /// add up to a number that can be held.
    pub fn new(substeps: Vec<Gate>) -> (out: Self)
        requires
            substeps@.len() > 0,
            inputs_before(shapes(substeps@), substeps@.len()) <= usize::MAX,
        ensures
            out@ == (Shape::Product { substeps: shapes(substeps@) }),
    {
        let ghost models = shapes(substeps@);
        let mut num_inputs: usize = 0;
        let mut i: usize = 0;
        while i < substeps.len()
            invariant
                i <= substeps.len(),
                models == shapes(substeps@),
                num_inputs == inputs_before(models, i as nat),
                inputs_before(models, substeps@.len()) <= usize::MAX,
            decreases substeps.len() - i,
        {
            proof {
                lemma_before_monotonic(models, (i + 1) as nat, substeps@.len());
            }
            num_inputs = num_inputs + substeps[i].inputs();
            i += 1;
        }
        let dits = substeps[0].dits();
        GateProduct { data: QuantumGateData { dits, num_inputs }, substeps, index: 0 }
    }

    /// The product with `gate` added as its last step.
    pub fn append(self, gate: Gate) -> (out: Self)
        requires
            self@.inputs() + gate@.inputs() <= usize::MAX,
        ensures
            self@ matches Shape::Product { substeps }
                && out@ == (Shape::Product { substeps: substeps.push(gate@) }),
    {
        proof {
            use_type_invariant(&self);
        }
        let GateProduct { data, mut substeps, index } = self;
        let ghost before = shapes(substeps@);
        let num_inputs = data.num_inputs + gate.inputs();
        substeps.push(gate);
        proof {
            let after = shapes(substeps@);
            assert(after =~= before.push(gate@));
            lemma_before_prefix(before, after, before.len());
        }
        GateProduct { data: QuantumGateData { dits: data.dits, num_inputs }, substeps, index }
    }

    /// The children, in the order in which they are applied.
    pub fn substeps(&self) -> (out: &Vec<Gate>)
        ensures
            out@.len() > 0,
            self@ == (Shape::Product { substeps: shapes(out@) }),
    {
        proof {
            use_type_invariant(self);
        }
        &self.substeps
    }

    /// Number of qudits this gate acts on.
    pub fn dits(&self) -> (d: u8)
        ensures
            d == self@.dits(),
    {
        proof {
            use_type_invariant(self);
        }
        self.data.dits
    }

    /// Number of real parameters this gate consumes.
    pub fn inputs(&self) -> (n: usize)
        ensures
            n == self@.inputs(),
    {
        proof {
            use_type_invariant(self);
        }
        self.data.num_inputs
    }
}

/// Whether every one of `gates` can be evaluated against a table of `table_len` entries.
fn all_fit(gates: &Vec<Gate>, table_len: usize) -> (b: bool)
    ensures
        b == forall|i: int|
            0 <= i < gates@.len() ==> (#[trigger] shapes(gates@)[i]).fits(table_len as nat),
    decreases gates,
{
    let mut i: usize = 0;
    while i < gates.len()
        invariant
            i <= gates.len(),
            forall|k: int| 0 <= k < i ==> (#[trigger] shapes(gates@)[k]).fits(table_len as nat),
        decreases gates.len() - i,
    {
        if !gates[i].fits(table_len) {
            assert(!shapes(gates@)[i as int].fits(table_len as nat));
            return false;
        }
        i += 1;
    }
    true
}

impl Gate {
    /// Whether this gate can be evaluated against a constant-gate table of `table_len`
    /// entries: every index it names is inside the table and no composite is empty.
    pub fn fits(&self, table_len: usize) -> (b: bool)
        ensures
            b == self@.fits(table_len as nat),
        decreases *self,
    {
        match self {
            Gate::Identity(g) => g.index() < table_len,
            Gate::CNOT(g) => g.index() < table_len,
            Gate::ConstantUnitary(g) => g.index() < table_len,
            Gate::XZXZ(g) => g.x90_index() < table_len,
            Gate::ZXZXZ(g) => g.x90_index() < table_len,
            Gate::Kronecker(g) => {
                assert(self@ == g@);
                assert(g@ == (Shape::Kronecker { substeps: shapes(g.substeps@) }));
                let some = g.substeps.len() > 0;
                let all = all_fit(&g.substeps, table_len);
                some && all
            },
            Gate::Product(g) => {
                assert(self@ == g@);
                assert(g@ == (Shape::Product { substeps: shapes(g.substeps@) }));
                let some = g.substeps.len() > 0;
                let all = all_fit(&g.substeps, table_len);
                some && all
            },
            _ => true,
        }
    }
}

/// The number of parameters that `gates` consume together, if it can be held.
pub fn total_inputs(gates: &Vec<Gate>) -> (out: Option<usize>)
    ensures
        out matches Some(n) ==> n == inputs_before(shapes(gates@), gates@.len()),
        out is None ==> inputs_before(shapes(gates@), gates@.len()) > usize::MAX,
{
    let ghost models = shapes(gates@);
    let mut total: usize = 0;
    let mut i: usize = 0;
    while i < gates.len()
        invariant
            i <= gates.len(),
            models == shapes(gates@),
            total == inputs_before(models, i as nat),
        decreases gates.len() - i,
    {
        proof {
            lemma_before_monotonic(models, (i + 1) as nat, gates@.len());
        }
        match total.checked_add(gates[i].inputs()) {
            Some(sum) => {
                total = sum;
            },
            None => {
                return None;
            },
        }
        i += 1;
    }
    Some(total)
}

/// The number of qudits that `gates` act on together, if it can be held.
pub fn total_dits(gates: &Vec<Gate>) -> (out: Option<u8>)
    ensures
        out matches Some(n) ==> n == dits_before(shapes(gates@), gates@.len()),
        out is None ==> dits_before(shapes(gates@), gates@.len()) > u8::MAX,
{
    let ghost models = shapes(gates@);
    let mut total: u8 = 0;
    let mut i: usize = 0;
    while i < gates.len()
        invariant
            i <= gates.len(),
            models == shapes(gates@),
            total == dits_before(models, i as nat),
        decreases gates.len() - i,
    {
        proof {
            lemma_before_monotonic(models, (i + 1) as nat, gates@.len());
        }
        match total.checked_add(gates[i].dits()) {
            Some(sum) => {
                total = sum;
            },
            None => {
                return None;
            },
        }
        i += 1;
    }
    Some(total)
}

impl GateKronecker {
    /// The tensor product of `substeps`, if their qudit counts add up to at most 255 and
    /// their parameter counts to a number that can be held.
    pub fn try_new(substeps: Vec<Gate>) -> (out: Option<Self>)
        ensures
            out is Some <==> dits_before(shapes(substeps@), substeps@.len()) <= u8::MAX
                && inputs_before(shapes(substeps@), substeps@.len()) <= usize::MAX,
            out matches Some(gate) ==> gate@ == (Shape::Kronecker { substeps: shapes(substeps@) }),
    {
        let dits = total_dits(&substeps);
        let inputs = total_inputs(&substeps);
        if dits.is_some() && inputs.is_some() {
            Some(GateKronecker::new(substeps))
        } else {
            None
        }
    }
}

impl GateProduct {
    /// The matrix product of `substeps`, if there is at least one of them and their
    /// parameter counts add up to a number that can be held.
    pub fn try_new(substeps: Vec<Gate>) -> (out: Option<Self>)
        ensures
            out is Some <==> substeps@.len() > 0 && inputs_before(
                shapes(substeps@),
                substeps@.len(),
            ) <= usize::MAX,
            out matches Some(gate) ==> gate@ == (Shape::Product { substeps: shapes(substeps@) }),
    {
        if substeps.len() == 0 {
            return None;
        }
        match total_inputs(&substeps) {
            Some(_) => Some(GateProduct::new(substeps)),
            None => None,
        }
    }

    /// The product with `gate` added as its last step, if the parameter counts add up to
    /// a number that can be held; otherwise the product as it was.
    pub fn try_append(self, gate: Gate) -> (out: Result<Self, Self>)
        ensures
            out is Ok <==> self@.inputs() + gate@.inputs() <= usize::MAX,
            out matches Ok(longer) ==> self@ matches Shape::Product { substeps } && longer@
                == (Shape::Product { substeps: substeps.push(gate@) }),
            out matches Err(same) ==> same@ == self@,
    {
        match self.inputs().checked_add(gate.inputs()) {
            Some(_) => Ok(self.append(gate)),
            None => Err(self),
        }
    }
}

/// A deep copy of `gates`.
fn clone_gates(gates: &Vec<Gate>) -> (out: Vec<Gate>)
    ensures
        out@.len() == gates@.len(),
        shapes(out@) == shapes(gates@),
    decreases gates,
{
    let mut out: Vec<Gate> = Vec::with_capacity(gates.len());
    let mut i: usize = 0;
    while i < gates.len()
        invariant
            i <= gates.len(),
            out@.len() == i,
            forall|j: int| 0 <= j < i ==> (#[trigger] out@[j])@ == gates@[j]@,
        decreases gates.len() - i,
    {
        out.push(gates[i].clone());
        i += 1;
    }
    assert(shapes(out@) =~= shapes(gates@));
    out
}

impl Clone for GateKronecker {
    fn clone(&self) -> (out: Self)
        ensures
            out@ == self@,
        decreases *self,
    {
        proof {
            use_type_invariant(self);
        }
        GateKronecker { data: self.data, substeps: clone_gates(&self.substeps) }
    }
}

impl Clone for GateProduct {
    fn clone(&self) -> (out: Self)
        ensures
            out@ == self@,
        decreases *self,
    {
        proof {
            use_type_invariant(self);
        }
        let substeps = clone_gates(&self.substeps);
        assert(shapes(substeps@)[0] == shapes(self.substeps@)[0]);
        GateProduct { data: self.data, substeps, index: self.index }
    }
}

impl Clone for Gate {
    fn clone(&self) -> (out: Self)
        ensures
            out@ == self@,
        decreases *self,
    {
        match self {
            Gate::Identity(g) => Gate::Identity(*g),
            Gate::CNOT(g) => Gate::CNOT(*g),
            Gate::U3(g) => Gate::U3(*g),
            Gate::U2(g) => Gate::U2(*g),
            Gate::U1(g) => Gate::U1(*g),
            Gate::X(g) => Gate::X(*g),
            Gate::Y(g) => Gate::Y(*g),
            Gate::Z(g) => Gate::Z(*g),
            Gate::XZXZ(g) => Gate::XZXZ(*g),
            Gate::ZXZXZ(g) => Gate::ZXZXZ(*g),
            Gate::Kronecker(g) => Gate::Kronecker(g.clone()),
            Gate::Product(g) => Gate::Product(g.clone()),
            Gate::ConstantUnitary(g) => Gate::ConstantUnitary(*g),
            Gate::SingleQutrit(g) => Gate::SingleQutrit(*g),
        }
    }
}

} // verus!
