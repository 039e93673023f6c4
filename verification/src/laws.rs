//! What holds of the matrices of composite gates, whatever the numeric backend is.
use vstd::prelude::*;
use crate::kernels::{
    ClosedForm, Kernels, MatTerm, denotes, lemma_moved_denotes, lemma_moved_nowhere,
};
use crate::evaluate::matrix_of;
use crate::shape::Shape;
use crate::terms::{lemma_kronecker_pair, lemma_product_pair, lemma_term_moved, lemma_term_within};

verus! {

/// Of two gates that stand side by side in a composite and take the parameters `first`
/// and `second`, each sees its own parameters only: the first gate has in the composite
/// the matrices it has on `first` alone, and the second those it has on `second` alone.
pub proof fn lemma_own_parameters<P, M, C, K, X>(
    kernels: Kernels<C, K, X>,
    first: Shape,
    second: Shape,
    theta_first: Seq<P>,
    theta_second: Seq<P>,
    table: Seq<M>,
) where
    M: Clone,
    C: Fn(ClosedForm, &[P], Option<usize>) -> M,
    K: Fn(&M, &M) -> M,
    X: Fn(&M, &M) -> M,

    requires
        theta_first.len() == first.inputs(),
        theta_second.len() == second.inputs(),
    ensures
        forall|m: M| #[trigger]
            denotes(kernels, first.term(0), theta_first + theta_second, table, m) <==> matrix_of(
                kernels,
                first,
                theta_first,
                table,
                m,
            ),
        forall|m: M| #[trigger]
            denotes(kernels, second.term(first.inputs()), theta_first + theta_second, table, m)
                <==> matrix_of(kernels, second, theta_second, table, m),
{
    let both = theta_first + theta_second;
    let n = first.inputs();
    lemma_term_within(first, 0);
    lemma_moved_nowhere(first.term(0));
    assert(theta_first.subrange(0, n as int) =~= both.subrange(0, n as int));
    lemma_moved_denotes(kernels, first.term(0), 0, n, 0, theta_first, both, table);

    lemma_term_within(second, 0);
    lemma_term_moved(second, 0, n);
    assert(theta_second.subrange(0, second.inputs() as int) =~= both.subrange(
        n as int,
        (second.inputs() + n) as int,
    ));
    lemma_moved_denotes(kernels, second.term(0), 0, second.inputs(), n, theta_second, both, table);
}

/// Kronecker factorization: the matrices of the tensor product of two gates at the
/// parameters `theta_first` followed by `theta_second` are exactly the tensor products
/// of a matrix of the first gate at `theta_first` with a matrix of the second gate at
/// `theta_second`.
pub proof fn lemma_kronecker_factorization<P, M, C, K, X>(
    kernels: Kernels<C, K, X>,
    first: Shape,
    second: Shape,
    theta_first: Seq<P>,
    theta_second: Seq<P>,
    table: Seq<M>,
    m: M,
) where
    M: Clone,
    C: Fn(ClosedForm, &[P], Option<usize>) -> M,
    K: Fn(&M, &M) -> M,
    X: Fn(&M, &M) -> M,

    requires
        theta_first.len() == first.inputs(),
        theta_second.len() == second.inputs(),
    ensures
        matrix_of(
            kernels,
            Shape::Kronecker { substeps: seq![first, second] },
            theta_first + theta_second,
            table,
            m,
        ) <==> exists|left: M, right: M|
            matrix_of(kernels, first, theta_first, table, left) && matrix_of(
                kernels,
                second,
                theta_second,
                table,
                right,
            ) && #[trigger] call_ensures(kernels.kron, (&left, &right), m),
{
    let both = theta_first + theta_second;
    let whole = Shape::Kronecker { substeps: seq![first, second] };
    lemma_kronecker_pair(first, second, 0);
    lemma_own_parameters(kernels, first, second, theta_first, theta_second, table);
    let l = first.term(0);
    let r = second.term(first.inputs());
    assert(whole.term(0) == MatTerm::kron(l, r));
    if matrix_of(kernels, whole, both, table, m) {
        let (a, b) = choose|a: M, b: M|
            denotes(kernels, l, both, table, a) && denotes(kernels, r, both, table, b)
                && call_ensures(kernels.kron, (&a, &b), m);
        assert(matrix_of(kernels, first, theta_first, table, a));
        assert(matrix_of(kernels, second, theta_second, table, b));
    }
    if exists|left: M, right: M|
        matrix_of(kernels, first, theta_first, table, left) && matrix_of(
            kernels,
            second,
            theta_second,
            table,
            right,
        ) && #[trigger] call_ensures(kernels.kron, (&left, &right), m) {
        let (a, b) = choose|left: M, right: M|
            matrix_of(kernels, first, theta_first, table, left) && matrix_of(
                kernels,
                second,
                theta_second,
                table,
                right,
            ) && #[trigger] call_ensures(kernels.kron, (&left, &right), m);
        assert(denotes(kernels, l, both, table, a));
        assert(denotes(kernels, r, both, table, b));
    }
}

/// Product ordering: the matrices of the product of two gates at the parameters
/// `theta_first` followed by `theta_second` are exactly the products of a matrix of the
/// second gate at `theta_second` with a matrix of the first gate at `theta_first`, the
/// second on the left.
pub proof fn lemma_product_ordering<P, M, C, K, X>(
    kernels: Kernels<C, K, X>,
    first: Shape,
    second: Shape,
    theta_first: Seq<P>,
    theta_second: Seq<P>,
    table: Seq<M>,
    m: M,
) where
    M: Clone,
    C: Fn(ClosedForm, &[P], Option<usize>) -> M,
    K: Fn(&M, &M) -> M,
    X: Fn(&M, &M) -> M,

    requires
        theta_first.len() == first.inputs(),
        theta_second.len() == second.inputs(),
    ensures
        matrix_of(
            kernels,
            Shape::Product { substeps: seq![first, second] },
            theta_first + theta_second,
            table,
            m,
        ) <==> exists|later: M, earlier: M|
            matrix_of(kernels, second, theta_second, table, later) && matrix_of(
                kernels,
                first,
                theta_first,
                table,
                earlier,
            ) && #[trigger] call_ensures(kernels.matmul, (&later, &earlier), m),
{
    let both = theta_first + theta_second;
    let whole = Shape::Product { substeps: seq![first, second] };
    lemma_product_pair(first, second, 0);
    lemma_own_parameters(kernels, first, second, theta_first, theta_second, table);
    let l = second.term(first.inputs());
    let r = first.term(0);
    assert(whole.term(0) == MatTerm::matmul(l, r));
    if matrix_of(kernels, whole, both, table, m) {
        let (a, b) = choose|a: M, b: M|
            denotes(kernels, l, both, table, a) && denotes(kernels, r, both, table, b)
                && call_ensures(kernels.matmul, (&a, &b), m);
        assert(matrix_of(kernels, second, theta_second, table, a));
        assert(matrix_of(kernels, first, theta_first, table, b));
    }
    if exists|later: M, earlier: M|
        matrix_of(kernels, second, theta_second, table, later) && matrix_of(
            kernels,
            first,
            theta_first,
            table,
            earlier,
        ) && #[trigger] call_ensures(kernels.matmul, (&later, &earlier), m) {
        let (a, b) = choose|later: M, earlier: M|
            matrix_of(kernels, second, theta_second, table, later) && matrix_of(
                kernels,
                first,
                theta_first,
                table,
                earlier,
            ) && #[trigger] call_ensures(kernels.matmul, (&later, &earlier), m);
        assert(denotes(kernels, l, both, table, a));
        assert(denotes(kernels, r, both, table, b));
    }
}

} // verus!
