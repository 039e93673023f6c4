//! The mathematical model of a gate tree and its arity.
use vstd::prelude::*;

verus! {

/// A gate tree as a mathematical value.
///
/// Constant gates name an entry of the constant-gate table by its index; composite gates
/// hold their children in order.
pub ghost enum Shape {
    /// The identity stored at `index` of the constant-gate table.
    Identity { index: nat },
    /// The two-qudit entangler stored at `index` of the constant-gate table.
    CNOT { index: nat },
    U3,
    U2,
    U1,
    X,
    Y,
    Z,
    /// Z-rotations around the parameter-free quarter turn stored at `x90_index`.
    XZXZ { x90_index: nat },
    ZXZXZ { x90_index: nat },
    /// Tensor product of the children.
    Kronecker { substeps: Seq<Shape> },
    /// Matrix product of the children; the first child is applied first.
    Product { substeps: Seq<Shape> },
    /// Any fixed unitary on `dits` qudits, stored at `index` of the constant-gate table.
    ConstantUnitary { index: nat, dits: nat },
    SingleQutrit,
}

/// Sum of the parameter counts of the first `n` gates of `gates`.
///
/// When these gates take consecutive slices of one parameter vector, this is where the
/// slice of `gates[n]` begins.
pub open spec fn inputs_before(gates: Seq<Shape>, n: nat) -> nat
    decreases gates, n,
{
    if n == 0 || n > gates.len() {
        0
    } else {
        inputs_before(gates, (n - 1) as nat) + gates[n - 1].inputs()
    }
}

/// Sum of the qudit counts of the first `n` gates of `gates`.
pub open spec fn dits_before(gates: Seq<Shape>, n: nat) -> nat
    decreases gates, n,
{
    if n == 0 || n > gates.len() {
        0
    } else {
        dits_before(gates, (n - 1) as nat) + gates[n - 1].dits()
    }
}

impl Shape {
    /// Number of real parameters this gate consumes.
    pub open spec fn inputs(self) -> nat
        decreases self,
    {
        match self {
            Shape::Identity { .. } => 0,
            Shape::CNOT { .. } => 0,
            Shape::U3 => 3,
            Shape::U2 => 2,
            Shape::U1 => 1,
            Shape::X => 1,
            Shape::Y => 1,
            Shape::Z => 1,
            Shape::XZXZ { .. } => 2,
            Shape::ZXZXZ { .. } => 3,
            Shape::Kronecker { substeps } => inputs_before(substeps, substeps.len()),
            Shape::Product { substeps } => inputs_before(substeps, substeps.len()),
            Shape::ConstantUnitary { .. } => 0,
            Shape::SingleQutrit => 8,
        }
    }

    /// Number of qudits this gate acts on.
    ///
    /// A tensor product acts on the qudits of all its children; a matrix product acts on
    /// the qudits of its first child.
    pub open spec fn dits(self) -> nat
        decreases self,
    {
        match self {
            Shape::Identity { .. } => 1,
            Shape::CNOT { .. } => 2,
            Shape::U3 => 1,
            Shape::U2 => 1,
            Shape::U1 => 1,
            Shape::X => 1,
            Shape::Y => 1,
            Shape::Z => 1,
            Shape::XZXZ { .. } => 1,
            Shape::ZXZXZ { .. } => 1,
            Shape::Kronecker { substeps } => dits_before(substeps, substeps.len()),
            Shape::Product { substeps } => if substeps.len() > 0 {
                substeps[0].dits()
            } else {
                0
            },
            Shape::ConstantUnitary { dits, .. } => dits,
            Shape::SingleQutrit => 1,
        }
    }

    /// Whether this gate can be evaluated against a constant-gate table of `table_len`
    /// entries: every index it names is inside the table and no composite is empty.
    pub open spec fn fits(self, table_len: nat) -> bool
        decreases self,
    {
        match self {
            Shape::Identity { index } => index < table_len,
            Shape::CNOT { index } => index < table_len,
            Shape::XZXZ { x90_index } => x90_index < table_len,
            Shape::ZXZXZ { x90_index } => x90_index < table_len,
            Shape::ConstantUnitary { index, .. } => index < table_len,
            Shape::Kronecker { substeps } => {
                &&& substeps.len() > 0
                &&& forall|i: int| 0 <= i < substeps.len() ==> (#[trigger] substeps[i]).fits(table_len)
            },
            Shape::Product { substeps } => {
                &&& substeps.len() > 0
                &&& forall|i: int| 0 <= i < substeps.len() ==> (#[trigger] substeps[i]).fits(table_len)
            },
            _ => true,
        }
    }
}

/// The running sums grow with the number of gates taken.
pub proof fn lemma_before_monotonic(gates: Seq<Shape>, m: nat, n: nat)
    requires
        m <= n <= gates.len(),
    ensures
        inputs_before(gates, m) <= inputs_before(gates, n),
        dits_before(gates, m) <= dits_before(gates, n),
    decreases n,
{
    if m < n {
        lemma_before_monotonic(gates, m, (n - 1) as nat);
    }
}

/// The running sums over a prefix do not depend on what follows the prefix.
pub proof fn lemma_before_prefix(gates: Seq<Shape>, longer: Seq<Shape>, n: nat)
    requires
        n <= gates.len() <= longer.len(),
        forall|i: int| 0 <= i < n ==> gates[i] == longer[i],
    ensures
        inputs_before(gates, n) == inputs_before(longer, n),
        dits_before(gates, n) == dits_before(longer, n),
    decreases n,
{
    if n > 0 {
        lemma_before_prefix(gates, longer, (n - 1) as nat);
    }
}

} // verus!
