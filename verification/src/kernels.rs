//! The numeric backend as the algebra of gates sees it.
//!
//! The algebra never looks inside a matrix or a parameter. It asks a backend for the
//! closed-form single-qudit matrices, for tensor products and for matrix products, and
//! says of every matrix it returns which of those operations produced it, as a term.
use vstd::prelude::*;

verus! {

/// The single-qudit gates whose matrices have a closed form in their parameters.
#[derive(Clone, Copy, Debug, PartialEq, Eq, Structural)]
pub enum ClosedForm {
    U3,
    U2,
    U1,
    X,
    Y,
    Z,
    SingleQutrit,
}

impl ClosedForm {
    /// Number of real parameters of the closed form.
    pub open spec fn spec_inputs(self) -> nat {
        match self {
            ClosedForm::U3 => 3,
            ClosedForm::U2 => 2,
            ClosedForm::U1 => 1,
            ClosedForm::X => 1,
            ClosedForm::Y => 1,
            ClosedForm::Z => 1,
            ClosedForm::SingleQutrit => 8,
        }
    }

    /// Number of real parameters of the closed form.
    pub fn inputs(self) -> (n: usize)
        ensures
            n == self.spec_inputs(),
    {
        match self {
            ClosedForm::U3 => 3,
            ClosedForm::U2 => 2,
            ClosedForm::U1 => 1,
            ClosedForm::X => 1,
            ClosedForm::Y => 1,
            ClosedForm::Z => 1,
            ClosedForm::SingleQutrit => 8,
        }
    }
}

/// A matrix, written as the backend operations that produce it.
pub ghost enum MatTerm {
    /// Entry `index` of the constant-gate table.
    Constant { index: nat },
    /// The closed form `form` at the parameters that begin at `offset`; with
    /// `partial == Some(k)`, its derivative with respect to its `k`-th parameter.
    Closed { form: ClosedForm, offset: nat, partial: Option<usize> },
    /// `left ⊗ right`.
    Kron { left: Box<MatTerm>, right: Box<MatTerm> },
    /// `left · right`.
    MatMul { left: Box<MatTerm>, right: Box<MatTerm> },
}

impl MatTerm {
    /// The closed form `form` at the parameters that begin at `offset`.
    pub open spec fn closed(form: ClosedForm, offset: nat) -> MatTerm {
        MatTerm::Closed { form, offset, partial: None }
    }

    /// The derivative of the closed form `form`, at the parameters that begin at `offset`,
    /// with respect to its `k`-th parameter.
    pub open spec fn closed_partial(form: ClosedForm, offset: nat, k: nat) -> MatTerm {
        MatTerm::Closed { form, offset, partial: Some(k as usize) }
    }

    /// `left ⊗ right`.
    pub open spec fn kron(left: MatTerm, right: MatTerm) -> MatTerm {
        MatTerm::Kron { left: Box::new(left), right: Box::new(right) }
    }

    /// `left · right`.
    pub open spec fn matmul(left: MatTerm, right: MatTerm) -> MatTerm {
        MatTerm::MatMul { left: Box::new(left), right: Box::new(right) }
    }
}

/// The operations of a numeric backend on matrices of type `M` and parameters of type `P`.
///
/// * `closed_form(form, params, partial)` evaluates a closed-form gate at `params`, or,
///   with `partial == Some(k)`, its derivative with respect to `params[k]`;
/// * `kron(a, b)` is the tensor product `a ⊗ b`;
/// * `matmul(a, b)` is the matrix product `a · b`.
pub struct Kernels<C, K, X> {
    pub closed_form: C,
    pub kron: K,
    pub matmul: X,
}

/// The backend accepts every request the algebra of gates can make: a closed form with as
/// many parameters as it takes, and any two matrices.
pub open spec fn total<P, M, C, K, X>(kernels: Kernels<C, K, X>) -> bool where
    C: Fn(ClosedForm, &[P], Option<usize>) -> M,
    K: Fn(&M, &M) -> M,
    X: Fn(&M, &M) -> M,
 {
    &&& forall|form: ClosedForm, params: &[P], partial: Option<usize>|
        params@.len() == form.spec_inputs() && (partial matches Some(k) ==> k < form.spec_inputs())
            ==> call_requires(kernels.closed_form, (form, params, partial))
    &&& forall|a: &M, b: &M| call_requires(kernels.kron, (a, b))
    &&& forall|a: &M, b: &M| call_requires(kernels.matmul, (a, b))
}

/// `m` is a matrix that the backend may return for `term`, evaluated at the parameters
/// `theta` over the constant-gate table `table`.
pub open spec fn denotes<P, M, C, K, X>(
    kernels: Kernels<C, K, X>,
    term: MatTerm,
    theta: Seq<P>,
    table: Seq<M>,
    m: M,
) -> bool where
    M: Clone,
    C: Fn(ClosedForm, &[P], Option<usize>) -> M,
    K: Fn(&M, &M) -> M,
    X: Fn(&M, &M) -> M,

    decreases term,
{
    match term {
        MatTerm::Constant { index } => index < table.len() && cloned(table[index as int], m),
        MatTerm::Closed { form, offset, partial } => {
            &&& offset + form.spec_inputs() <= theta.len()
            &&& exists|params: &[P]|
                params@ == theta.subrange(offset as int, (offset + form.spec_inputs()) as int)
                    && call_ensures(kernels.closed_form, (form, params, partial), m)
        },
        MatTerm::Kron { left, right } => exists|a: M, b: M|
            denotes(kernels, *left, theta, table, a) && denotes(kernels, *right, theta, table, b)
                && call_ensures(kernels.kron, (&a, &b), m),
        MatTerm::MatMul { left, right } => exists|a: M, b: M|
            denotes(kernels, *left, theta, table, a) && denotes(kernels, *right, theta, table, b)
                && call_ensures(kernels.matmul, (&a, &b), m),
    }
}

/// What `denotes` says of a term, one level down. A caller whose backend is a particular
/// set of functions learns from this what a matrix of a term is made of.
pub proof fn lemma_denotes<P, M, C, K, X>(
    kernels: Kernels<C, K, X>,
    term: MatTerm,
    theta: Seq<P>,
    table: Seq<M>,
    m: M,
) where
    M: Clone,
    C: Fn(ClosedForm, &[P], Option<usize>) -> M,
    K: Fn(&M, &M) -> M,
    X: Fn(&M, &M) -> M,

    ensures
        denotes(kernels, term, theta, table, m) <==> match term {
            MatTerm::Constant { index } => index < table.len() && cloned(table[index as int], m),
            MatTerm::Closed { form, offset, partial } => {
                &&& offset + form.spec_inputs() <= theta.len()
                &&& exists|params: &[P]|
                    params@ == theta.subrange(offset as int, (offset + form.spec_inputs()) as int)
                        && call_ensures(kernels.closed_form, (form, params, partial), m)
            },
            MatTerm::Kron { left, right } => exists|a: M, b: M|
                denotes(kernels, *left, theta, table, a) && denotes(kernels, *right, theta, table, b)
                    && call_ensures(kernels.kron, (&a, &b), m),
            MatTerm::MatMul { left, right } => exists|a: M, b: M|
                denotes(kernels, *left, theta, table, a) && denotes(kernels, *right, theta, table, b)
                    && call_ensures(kernels.matmul, (&a, &b), m),
        },
{
}

impl MatTerm {
    /// The same term with every closed form reading its parameters `by` places further
    /// on.
    pub open spec fn moved(self, by: nat) -> MatTerm
        decreases self,
    {
        match self {
            MatTerm::Constant { index } => MatTerm::Constant { index },
            MatTerm::Closed { form, offset, partial } => MatTerm::Closed {
                form,
                offset: offset + by,
                partial,
            },
            MatTerm::Kron { left, right } => MatTerm::kron(left.moved(by), right.moved(by)),
            MatTerm::MatMul { left, right } => MatTerm::matmul(left.moved(by), right.moved(by)),
        }
    }

    /// Every closed form of the term reads its parameters from the places `lo` up to,
    /// but not including, `hi`.
    pub open spec fn within(self, lo: nat, hi: nat) -> bool
        decreases self,
    {
        match self {
            MatTerm::Constant { .. } => true,
            MatTerm::Closed { form, offset, .. } => lo <= offset && offset + form.spec_inputs() <= hi,
            MatTerm::Kron { left, right } => left.within(lo, hi) && right.within(lo, hi),
            MatTerm::MatMul { left, right } => left.within(lo, hi) && right.within(lo, hi),
        }
    }
}

/// A term that is not moved stays what it is.
pub proof fn lemma_moved_nowhere(term: MatTerm)
    ensures
        term.moved(0) == term,
    decreases term,
{
    match term {
        MatTerm::Kron { left, right } => {
            lemma_moved_nowhere(*left);
            lemma_moved_nowhere(*right);
        },
        MatTerm::MatMul { left, right } => {
            lemma_moved_nowhere(*left);
            lemma_moved_nowhere(*right);
        },
        _ => {},
    }
}

/// A term that reads inside a window reads inside every wider window.
pub proof fn lemma_within_wider(term: MatTerm, lo: nat, hi: nat, lower: nat, higher: nat)
    requires
        term.within(lo, hi),
        lower <= lo,
        hi <= higher,
    ensures
        term.within(lower, higher),
    decreases term,
{
    match term {
        MatTerm::Kron { left, right } => {
            lemma_within_wider(*left, lo, hi, lower, higher);
            lemma_within_wider(*right, lo, hi, lower, higher);
        },
        MatTerm::MatMul { left, right } => {
            lemma_within_wider(*left, lo, hi, lower, higher);
            lemma_within_wider(*right, lo, hi, lower, higher);
        },
        _ => {},
    }
}

/// A term sees nothing of the parameters but the window it reads: where two parameter
/// vectors hold the same values, one of them `by` places further on, the term and the
/// moved term have the same matrices.
pub proof fn lemma_moved_denotes<P, M, C, K, X>(
    kernels: Kernels<C, K, X>,
    term: MatTerm,
    lo: nat,
    hi: nat,
    by: nat,
    theta: Seq<P>,
    moved_theta: Seq<P>,
    table: Seq<M>,
) where
    M: Clone,
    C: Fn(ClosedForm, &[P], Option<usize>) -> M,
    K: Fn(&M, &M) -> M,
    X: Fn(&M, &M) -> M,

    requires
        term.within(lo, hi),
        lo <= hi <= theta.len(),
        hi + by <= moved_theta.len(),
        theta.subrange(lo as int, hi as int) == moved_theta.subrange(
            (lo + by) as int,
            (hi + by) as int,
        ),
    ensures
        forall|m: M| #[trigger]
            denotes(kernels, term, theta, table, m) <==> denotes(
                kernels,
                term.moved(by),
                moved_theta,
                table,
                m,
            ),
    decreases term,
{
    match term {
        MatTerm::Constant { index } => {},
        MatTerm::Closed { form, offset, partial } => {
            let n = form.spec_inputs();
            let here = theta.subrange(offset as int, (offset + n) as int);
            let there = moved_theta.subrange((offset + by) as int, (offset + by + n) as int);
            assert(here =~= there) by {
                assert forall|k: int| 0 <= k < n implies here[k] == there[k] by {
                    let window = theta.subrange(lo as int, hi as int);
                    let moved_window = moved_theta.subrange((lo + by) as int, (hi + by) as int);
                    assert(here[k] == window[offset - lo + k]);
                    assert(there[k] == moved_window[offset - lo + k]);
                }
            }
        },
        MatTerm::Kron { left, right } => {
            lemma_moved_denotes(kernels, *left, lo, hi, by, theta, moved_theta, table);
            lemma_moved_denotes(kernels, *right, lo, hi, by, theta, moved_theta, table);
            assert forall|m: M| #[trigger]
                denotes(kernels, term, theta, table, m) <==> denotes(
                    kernels,
                    term.moved(by),
                    moved_theta,
                    table,
                    m,
                ) by {
                if denotes(kernels, term, theta, table, m) {
                    let (a, b) = choose|a: M, b: M|
                        denotes(kernels, *left, theta, table, a) && denotes(
                            kernels,
                            *right,
                            theta,
                            table,
                            b,
                        ) && call_ensures(kernels.kron, (&a, &b), m);
                    assert(denotes(kernels, left.moved(by), moved_theta, table, a));
                    assert(denotes(kernels, right.moved(by), moved_theta, table, b));
                }
                if denotes(kernels, term.moved(by), moved_theta, table, m) {
                    let (a, b) = choose|a: M, b: M|
                        denotes(kernels, left.moved(by), moved_theta, table, a) && denotes(
                            kernels,
                            right.moved(by),
                            moved_theta,
                            table,
                            b,
                        ) && call_ensures(kernels.kron, (&a, &b), m);
                    assert(denotes(kernels, *left, theta, table, a));
                    assert(denotes(kernels, *right, theta, table, b));
                }
            }
        },
        MatTerm::MatMul { left, right } => {
            lemma_moved_denotes(kernels, *left, lo, hi, by, theta, moved_theta, table);
            lemma_moved_denotes(kernels, *right, lo, hi, by, theta, moved_theta, table);
            assert forall|m: M| #[trigger]
                denotes(kernels, term, theta, table, m) <==> denotes(
                    kernels,
                    term.moved(by),
                    moved_theta,
                    table,
                    m,
                ) by {
                if denotes(kernels, term, theta, table, m) {
                    let (a, b) = choose|a: M, b: M|
                        denotes(kernels, *left, theta, table, a) && denotes(
                            kernels,
                            *right,
                            theta,
                            table,
                            b,
                        ) && call_ensures(kernels.matmul, (&a, &b), m);
                    assert(denotes(kernels, left.moved(by), moved_theta, table, a));
                    assert(denotes(kernels, right.moved(by), moved_theta, table, b));
                }
                if denotes(kernels, term.moved(by), moved_theta, table, m) {
                    let (a, b) = choose|a: M, b: M|
                        denotes(kernels, left.moved(by), moved_theta, table, a) && denotes(
                            kernels,
                            right.moved(by),
                            moved_theta,
                            table,
                            b,
                        ) && call_ensures(kernels.matmul, (&a, &b), m);
                    assert(denotes(kernels, *left, theta, table, a));
                    assert(denotes(kernels, *right, theta, table, b));
                }
            }
        },
    }
}

} // verus!
