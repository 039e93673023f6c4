//! What the matrix of a gate, and each of its partial derivatives, is made of.
//!
//! The parameters of a gate tree are laid out in one vector: a composite hands its
//! children consecutive slices, in order. Every function here takes the position
//! `offset` at which this gate's own slice begins.
use vstd::prelude::*;
use crate::kernels::{ClosedForm, MatTerm, lemma_within_wider};
use crate::shape::{Shape, inputs_before, lemma_before_monotonic};

verus! {

/// `outer · (x90 · (inner · x90))`: two rotations around a quarter turn.
pub open spec fn xzxz(x90: MatTerm, inner: MatTerm, outer: MatTerm) -> MatTerm {
    MatTerm::matmul(outer, MatTerm::matmul(x90, MatTerm::matmul(inner, x90)))
}

/// `last · (x90 · (middle · (x90 · first)))`: three rotations around a quarter turn.
pub open spec fn zxzxz(x90: MatTerm, first: MatTerm, middle: MatTerm, last: MatTerm) -> MatTerm {
    MatTerm::matmul(
        last,
        MatTerm::matmul(x90, MatTerm::matmul(middle, MatTerm::matmul(x90, first))),
    )
}

/// A Z-rotation by the parameter at `position`, or its derivative where `varied`.
pub open spec fn rot_z(position: nat, varied: bool) -> MatTerm {
    if varied {
        MatTerm::closed_partial(ClosedForm::Z, position, 0)
    } else {
        MatTerm::closed(ClosedForm::Z, position)
    }
}

/// Where the slice of `gates[i]` begins when the slice of the whole row begins at `offset`.
pub open spec fn slot(gates: Seq<Shape>, offset: nat, i: nat) -> nat {
    offset + inputs_before(gates, i)
}

/// The tensor product of the first `n` gates, folded from the left:
/// `((M_0 ⊗ M_1) ⊗ …) ⊗ M_{n-1}`.
pub open spec fn kron_fold(gates: Seq<Shape>, offset: nat, n: nat) -> MatTerm
    decreases gates, n,
{
    if gates.len() == 0 {
        MatTerm::Constant { index: 0 }
    } else if n <= 1 || n > gates.len() {
        gates[0].term(offset)
    } else {
        MatTerm::kron(
            kron_fold(gates, offset, (n - 1) as nat),
            gates[n - 1].term(slot(gates, offset, (n - 1) as nat)),
        )
    }
}

/// The matrix product of the first `n` gates, the first gate applied first:
/// `M_{n-1} · (… · (M_1 · M_0))`.
pub open spec fn product_fold(gates: Seq<Shape>, offset: nat, n: nat) -> MatTerm
    decreases gates, n,
{
    if gates.len() == 0 {
        MatTerm::Constant { index: 0 }
    } else if n <= 1 || n > gates.len() {
        gates[0].term(offset)
    } else {
        MatTerm::matmul(
            gates[n - 1].term(slot(gates, offset, (n - 1) as nat)),
            product_fold(gates, offset, (n - 1) as nat),
        )
    }
}

/// The matrix product of the row from gate `from` to the last:
/// `((M_{n-1} · M_{n-2}) · …) · M_from`.
pub open spec fn product_suffix(gates: Seq<Shape>, offset: nat, from: nat) -> MatTerm
    decreases gates, gates.len() - from,
{
    if gates.len() == 0 {
        MatTerm::Constant { index: 0 }
    } else if from + 1 >= gates.len() {
        gates[gates.len() - 1].term(slot(gates, offset, (gates.len() - 1) as nat))
    } else {
        MatTerm::matmul(
            product_suffix(gates, offset, from + 1),
            gates[from as int].term(slot(gates, offset, from)),
        )
    }
}

/// The child among the first `n` gates whose slice holds parameter `k` of the row.
pub open spec fn owner(gates: Seq<Shape>, k: nat, n: nat) -> nat
    decreases n,
{
    if n <= 1 {
        0
    } else if inputs_before(gates, (n - 1) as nat) <= k {
        (n - 1) as nat
    } else {
        owner(gates, k, (n - 1) as nat)
    }
}

/// The derivative of the tensor product of the first `n` gates with respect to
/// parameter `j` of child `i`: `(⊗_{k<i} M_k) ⊗ J ⊗ (⊗_{i<k<n} M_k)`, folded from the left.
pub open spec fn kron_partial(gates: Seq<Shape>, offset: nat, i: nat, j: nat, n: nat) -> MatTerm
    decreases gates, n,
{
    if i >= gates.len() {
        MatTerm::Constant { index: 0 }
    } else if n <= i + 1 || n > gates.len() {
        let own = gates[i as int].partial(slot(gates, offset, i), j);
        if i == 0 {
            own
        } else {
            MatTerm::kron(kron_fold(gates, offset, i), own)
        }
    } else {
        MatTerm::kron(
            kron_partial(gates, offset, i, j, (n - 1) as nat),
            gates[n - 1].term(slot(gates, offset, (n - 1) as nat)),
        )
    }
}

/// The derivative of the matrix product of the whole row with respect to parameter `j`
/// of child `i`: `(M_{n-1} · … · M_{i+1}) · (J · (M_{i-1} · … · M_0))`.
pub open spec fn product_partial(gates: Seq<Shape>, offset: nat, i: nat, j: nat) -> MatTerm
    decreases gates, 0nat,
{
    if i >= gates.len() {
        MatTerm::Constant { index: 0 }
    } else {
        let own = gates[i as int].partial(slot(gates, offset, i), j);
        let right = if i == 0 {
            own
        } else {
            MatTerm::matmul(own, product_fold(gates, offset, i))
        };
        if i + 1 == gates.len() {
            right
        } else {
            MatTerm::matmul(product_suffix(gates, offset, i + 1), right)
        }
    }
}

impl Shape {
    /// The matrix of this gate when its parameters begin at `offset`.
    pub open spec fn term(self, offset: nat) -> MatTerm
        decreases self,
    {
        match self {
            Shape::Identity { index } => MatTerm::Constant { index },
            Shape::CNOT { index } => MatTerm::Constant { index },
            Shape::ConstantUnitary { index, .. } => MatTerm::Constant { index },
            Shape::U3 => MatTerm::closed(ClosedForm::U3, offset),
            Shape::U2 => MatTerm::closed(ClosedForm::U2, offset),
            Shape::U1 => MatTerm::closed(ClosedForm::U1, offset),
            Shape::X => MatTerm::closed(ClosedForm::X, offset),
            Shape::Y => MatTerm::closed(ClosedForm::Y, offset),
            Shape::Z => MatTerm::closed(ClosedForm::Z, offset),
            Shape::SingleQutrit => MatTerm::closed(ClosedForm::SingleQutrit, offset),
            Shape::XZXZ { x90_index } => xzxz(
                MatTerm::Constant { index: x90_index },
                rot_z(offset, false),
                rot_z(offset + 1, false),
            ),
            Shape::ZXZXZ { x90_index } => zxzxz(
                MatTerm::Constant { index: x90_index },
                rot_z(offset, false),
                rot_z(offset + 1, false),
                rot_z(offset + 2, false),
            ),
            Shape::Kronecker { substeps } => kron_fold(substeps, offset, substeps.len()),
            Shape::Product { substeps } => product_fold(substeps, offset, substeps.len()),
        }
    }

    /// The derivative of this gate's matrix with respect to its `k`-th parameter, for
    /// `k < self.inputs()`.
    pub open spec fn partial(self, offset: nat, k: nat) -> MatTerm
        decreases self,
    {
        match self {
            Shape::Identity { index } => MatTerm::Constant { index },
            Shape::CNOT { index } => MatTerm::Constant { index },
            Shape::ConstantUnitary { index, .. } => MatTerm::Constant { index },
            Shape::U3 => MatTerm::closed_partial(ClosedForm::U3, offset, k),
            Shape::U2 => MatTerm::closed_partial(ClosedForm::U2, offset, k),
            Shape::U1 => MatTerm::closed_partial(ClosedForm::U1, offset, k),
            Shape::X => MatTerm::closed_partial(ClosedForm::X, offset, k),
            Shape::Y => MatTerm::closed_partial(ClosedForm::Y, offset, k),
            Shape::Z => MatTerm::closed_partial(ClosedForm::Z, offset, k),
            Shape::SingleQutrit => MatTerm::closed_partial(ClosedForm::SingleQutrit, offset, k),
            Shape::XZXZ { x90_index } => xzxz(
                MatTerm::Constant { index: x90_index },
                rot_z(offset, k == 0),
                rot_z(offset + 1, k == 1),
            ),
            Shape::ZXZXZ { x90_index } => zxzxz(
                MatTerm::Constant { index: x90_index },
                rot_z(offset, k == 0),
                rot_z(offset + 1, k == 1),
                rot_z(offset + 2, k == 2),
            ),
            Shape::Kronecker { substeps } => {
                let i = owner(substeps, k, substeps.len());
                kron_partial(
                    substeps,
                    offset,
                    i,
                    (k - inputs_before(substeps, i)) as nat,
                    substeps.len(),
                )
            },
            Shape::Product { substeps } => {
                let i = owner(substeps, k, substeps.len());
                product_partial(substeps, offset, i, (k - inputs_before(substeps, i)) as nat)
            },
        }
    }
}

/// Parameter `j` of child `i` is parameter `inputs_before(gates, i) + j` of the row, and
/// no other child owns it.
pub proof fn lemma_owner(gates: Seq<Shape>, i: nat, j: nat, n: nat)
    requires
        i < n <= gates.len(),
        j < gates[i as int].inputs(),
    ensures
        owner(gates, inputs_before(gates, i) + j, n) == i,
    decreases n,
{
    if n > i + 1 {
        lemma_before_monotonic(gates, i + 1, (n - 1) as nat);
        lemma_owner(gates, i, j, (n - 1) as nat);
    } else if n > 1 {
        assert(inputs_before(gates, (n - 1) as nat) <= inputs_before(gates, i) + j);
    }
}

/// A parameter that lies before the slice of child `i` is owned by an earlier child.
pub proof fn lemma_owner_before(gates: Seq<Shape>, k: nat, i: nat, n: nat)
    requires
        i <= n <= gates.len(),
        k < inputs_before(gates, i),
    ensures
        owner(gates, k, n) < i,
    decreases n,
{
    if n > 1 {
        if inputs_before(gates, (n - 1) as nat) <= k {
            if i <= n - 1 {
                lemma_before_monotonic(gates, i, (n - 1) as nat);
            }
        } else if i == n {
            lemma_owner_before(gates, k, (n - 1) as nat, (n - 1) as nat);
        } else {
            lemma_owner_before(gates, k, i, (n - 1) as nat);
        }
    }
}

/// The entry of a tensor product's Jacobian for parameter `k` of the row, after the first
/// `n` children have been folded in.
pub open spec fn kron_entry(gates: Seq<Shape>, offset: nat, k: nat, n: nat) -> MatTerm {
    let i = owner(gates, k, gates.len());
    kron_partial(gates, offset, i, (k - inputs_before(gates, i)) as nat, n)
}

/// The entry of a matrix product's Jacobian for parameter `k` of the row.
pub open spec fn product_entry(gates: Seq<Shape>, offset: nat, k: nat) -> MatTerm {
    let i = owner(gates, k, gates.len());
    product_partial(gates, offset, i, (k - inputs_before(gates, i)) as nat)
}

/// Moving the slice of a row of gates moves the terms of its folds with it.
pub proof fn lemma_folds_moved(gates: Seq<Shape>, offset: nat, by: nat, n: nat)
    ensures
        kron_fold(gates, offset + by, n) == kron_fold(gates, offset, n).moved(by),
        product_fold(gates, offset + by, n) == product_fold(gates, offset, n).moved(by),
    decreases gates, n,
{
    if gates.len() == 0 {
    } else if n <= 1 || n > gates.len() {
        lemma_term_moved(gates[0], offset, by);
    } else {
        lemma_folds_moved(gates, offset, by, (n - 1) as nat);
        lemma_term_moved(gates[n - 1], slot(gates, offset, (n - 1) as nat), by);
    }
}

/// A gate whose slice begins `by` places further on has the same matrix term, moved by
/// as much.
pub proof fn lemma_term_moved(shape: Shape, offset: nat, by: nat)
    ensures
        shape.term(offset + by) == shape.term(offset).moved(by),
    decreases shape,
{
    match shape {
        Shape::Kronecker { substeps } => {
            lemma_folds_moved(substeps, offset, by, substeps.len());
        },
        Shape::Product { substeps } => {
            lemma_folds_moved(substeps, offset, by, substeps.len());
        },
        Shape::XZXZ { .. } => {
            reveal_with_fuel(MatTerm::moved, 5);
        },
        Shape::ZXZXZ { .. } => {
            reveal_with_fuel(MatTerm::moved, 6);
        },
        _ => {},
    }
}

/// The folds of a row of gates read nothing but the slice of the row.
pub proof fn lemma_folds_within(gates: Seq<Shape>, offset: nat, n: nat)
    requires
        n <= gates.len(),
    ensures
        kron_fold(gates, offset, n).within(offset, offset + inputs_before(gates, gates.len())),
        product_fold(gates, offset, n).within(offset, offset + inputs_before(gates, gates.len())),
    decreases gates, n,
{
    let end = offset + inputs_before(gates, gates.len());
    if gates.len() == 0 {
    } else if n <= 1 {
        lemma_term_within(gates[0], offset);
        lemma_before_monotonic(gates, 1, gates.len());
        assert(inputs_before(gates, 1) == gates[0].inputs()) by {
            assert(inputs_before(gates, 0) == 0);
        }
        lemma_within_wider(gates[0].term(offset), offset, offset + gates[0].inputs(), offset, end);
    } else {
        lemma_folds_within(gates, offset, (n - 1) as nat);
        let at = slot(gates, offset, (n - 1) as nat);
        lemma_term_within(gates[n - 1], at);
        lemma_before_monotonic(gates, n, gates.len());
        lemma_within_wider(gates[n - 1].term(at), at, at + gates[n - 1].inputs(), offset, end);
    }
}

/// The matrix term of a gate reads nothing but its own slice of the parameters.
pub proof fn lemma_term_within(shape: Shape, offset: nat)
    ensures
        shape.term(offset).within(offset, offset + shape.inputs()),
    decreases shape,
{
    match shape {
        Shape::Kronecker { substeps } => {
            lemma_folds_within(substeps, offset, substeps.len());
        },
        Shape::Product { substeps } => {
            lemma_folds_within(substeps, offset, substeps.len());
        },
        Shape::XZXZ { .. } => {
            reveal_with_fuel(MatTerm::within, 5);
        },
        Shape::ZXZXZ { .. } => {
            reveal_with_fuel(MatTerm::within, 6);
        },
        _ => {},
    }
}

/// A tensor product of two gates is the tensor product of their matrices, each gate
/// evaluated on its own slice of the parameters.
pub proof fn lemma_kronecker_pair(first: Shape, second: Shape, offset: nat)
    ensures
        (Shape::Kronecker { substeps: seq![first, second] }).term(offset) == MatTerm::kron(
            first.term(offset),
            second.term(offset + first.inputs()),
        ),
{
    let gates = seq![first, second];
    assert(gates[0] == first && gates[1] == second);
    assert(inputs_before(gates, 1) == first.inputs()) by {
        assert(inputs_before(gates, 0) == 0);
    }
    assert(kron_fold(gates, offset, 1) == first.term(offset));
    assert(kron_fold(gates, offset, 2) == MatTerm::kron(
        kron_fold(gates, offset, 1),
        gates[1].term(slot(gates, offset, 1)),
    ));
}

/// A matrix product of two gates is the matrix of the second times the matrix of the
/// first, each gate evaluated on its own slice of the parameters.
pub proof fn lemma_product_pair(first: Shape, second: Shape, offset: nat)
    ensures
        (Shape::Product { substeps: seq![first, second] }).term(offset) == MatTerm::matmul(
            second.term(offset + first.inputs()),
            first.term(offset),
        ),
{
    let gates = seq![first, second];
    assert(gates[0] == first && gates[1] == second);
    assert(inputs_before(gates, 1) == first.inputs()) by {
        assert(inputs_before(gates, 0) == 0);
    }
    assert(product_fold(gates, offset, 1) == first.term(offset));
    assert(product_fold(gates, offset, 2) == MatTerm::matmul(
        gates[1].term(slot(gates, offset, 1)),
        product_fold(gates, offset, 1),
    ));
}

/// A composite with a single child has the matrix and the derivatives of that child.
pub proof fn lemma_single_child(child: Shape, offset: nat, k: nat)
    requires
        k < child.inputs(),
    ensures
        (Shape::Kronecker { substeps: seq![child] }).term(offset) == child.term(offset),
        (Shape::Product { substeps: seq![child] }).term(offset) == child.term(offset),
        (Shape::Kronecker { substeps: seq![child] }).partial(offset, k) == child.partial(offset, k),
        (Shape::Product { substeps: seq![child] }).partial(offset, k) == child.partial(offset, k),
{
    let gates = seq![child];
    assert(gates[0] == child);
    assert(inputs_before(gates, 0) == 0);
    assert(owner(gates, k, 1) == 0);
}

} // verus!
