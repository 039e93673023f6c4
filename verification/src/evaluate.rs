//! Matrix assembly: the matrix of a gate tree at given parameters.
use vstd::prelude::*;
use vstd::slice::slice_subrange;
use crate::circuits::{Gate, shapes};
use crate::kernels::{ClosedForm, Kernels, MatTerm, denotes, total};
use crate::shape::{Shape, inputs_before, lemma_before_monotonic};
use crate::terms::{
    kron_entry, kron_fold, lemma_owner, lemma_owner_before, product_entry, product_fold,
    product_suffix, rot_z, slot, xzxz, zxzxz,
};

verus! {

/// `m` is a matrix that the backend may return for a gate of this shape at the
/// parameters `theta`: what `mat` promises of its result.
pub open spec fn matrix_of<P, M, C, K, X>(
    kernels: Kernels<C, K, X>,
    shape: Shape,
    theta: Seq<P>,
    table: Seq<M>,
    m: M,
) -> bool where
    M: Clone,
    C: Fn(ClosedForm, &[P], Option<usize>) -> M,
    K: Fn(&M, &M) -> M,
    X: Fn(&M, &M) -> M,
 {
    denotes(kernels, shape.term(0), theta, table, m)
}

/// `jacs` holds, for every parameter of `shape` in order, a matrix that the backend may
/// return for the derivative of this gate's matrix with respect to that parameter.
pub open spec fn jacobian_of<P, M, C, K, X>(
    kernels: Kernels<C, K, X>,
    shape: Shape,
    offset: nat,
    theta: Seq<P>,
    table: Seq<M>,
    jacs: Seq<M>,
) -> bool where
    M: Clone,
    C: Fn(ClosedForm, &[P], Option<usize>) -> M,
    K: Fn(&M, &M) -> M,
    X: Fn(&M, &M) -> M,
 {
    &&& jacs.len() == shape.inputs()
    &&& forall|k: int|
        0 <= k < jacs.len() ==> denotes(
            kernels,
            shape.partial(offset, k as nat),
            theta,
            table,
            #[trigger] jacs[k],
        )
}

/// One request to the backend for a closed form or one of its derivatives.
pub(crate) fn eval_closed<P, M, C, K, X>(
    form: ClosedForm,
    partial: Option<usize>,
    v: &[P],
    offset: usize,
    table: &[M],
    kernels: &Kernels<C, K, X>,
) -> (out: M) where
    M: Clone,
    C: Fn(ClosedForm, &[P], Option<usize>) -> M,
    K: Fn(&M, &M) -> M,
    X: Fn(&M, &M) -> M,

    requires
        total(*kernels),
        offset + form.spec_inputs() <= v@.len() <= usize::MAX,
        partial matches Some(k) ==> k < form.spec_inputs(),
    ensures
        denotes(*kernels, MatTerm::Closed { form, offset: offset as nat, partial }, v@, table@, out),
{
    let params = slice_subrange(v, offset, offset + form.inputs());
    (kernels.closed_form)(form, params, partial)
}

/// `a ⊗ b`, for matrices known by their terms.
pub(crate) fn eval_kron<P, M, C, K, X>(
    a: &M,
    b: &M,
    kernels: &Kernels<C, K, X>,
    Ghost(left): Ghost<MatTerm>,
    Ghost(right): Ghost<MatTerm>,
    Ghost(theta): Ghost<Seq<P>>,
    Ghost(table): Ghost<Seq<M>>,
) -> (out: M) where
    M: Clone,
    C: Fn(ClosedForm, &[P], Option<usize>) -> M,
    K: Fn(&M, &M) -> M,
    X: Fn(&M, &M) -> M,

    requires
        total(*kernels),
        denotes(*kernels, left, theta, table, *a),
        denotes(*kernels, right, theta, table, *b),
    ensures
        denotes(*kernels, MatTerm::kron(left, right), theta, table, out),
{
    (kernels.kron)(a, b)
}

/// `a · b`, for matrices known by their terms.
pub(crate) fn eval_matmul<P, M, C, K, X>(
    a: &M,
    b: &M,
    kernels: &Kernels<C, K, X>,
    Ghost(left): Ghost<MatTerm>,
    Ghost(right): Ghost<MatTerm>,
    Ghost(theta): Ghost<Seq<P>>,
    Ghost(table): Ghost<Seq<M>>,
) -> (out: M) where
    M: Clone,
    C: Fn(ClosedForm, &[P], Option<usize>) -> M,
    K: Fn(&M, &M) -> M,
    X: Fn(&M, &M) -> M,

    requires
        total(*kernels),
        denotes(*kernels, left, theta, table, *a),
        denotes(*kernels, right, theta, table, *b),
    ensures
        denotes(*kernels, MatTerm::matmul(left, right), theta, table, out),
{
    (kernels.matmul)(a, b)
}

/// A Z-rotation by the parameter at `position`, or its derivative where `varied`.
pub(crate) fn eval_rot_z<P, M, C, K, X>(
    position: usize,
    varied: bool,
    v: &[P],
    table: &[M],
    kernels: &Kernels<C, K, X>,
) -> (out: M) where
    M: Clone,
    C: Fn(ClosedForm, &[P], Option<usize>) -> M,
    K: Fn(&M, &M) -> M,
    X: Fn(&M, &M) -> M,

    requires
        total(*kernels),
        position < v@.len() <= usize::MAX,
    ensures
        denotes(*kernels, rot_z(position as nat, varied), v@, table@, out),
{
    if varied {
        eval_closed(ClosedForm::Z, Some(0), v, position, table, kernels)
    } else {
        eval_closed(ClosedForm::Z, None, v, position, table, kernels)
    }
}

/// Two Z-rotations around the quarter turn at `x90_index`, by the parameters at `offset`
/// and behind it: `outer · (x90 · (inner · x90))`. With `varied == Some(k)`, the `k`-th
/// rotation is replaced by its derivative.
pub(crate) fn eval_xzxz<P, M, C, K, X>(
    x90_index: usize,
    offset: usize,
    varied: Option<usize>,
    v: &[P],
    table: &[M],
    kernels: &Kernels<C, K, X>,
) -> (out: M) where
    M: Clone,
    C: Fn(ClosedForm, &[P], Option<usize>) -> M,
    K: Fn(&M, &M) -> M,
    X: Fn(&M, &M) -> M,

    requires
        total(*kernels),
        x90_index < table@.len(),
        offset + 2 <= v@.len() <= usize::MAX,
    ensures
        denotes(
            *kernels,
            xzxz(
                MatTerm::Constant { index: x90_index as nat },
                rot_z(offset as nat, varied == Some(0usize)),
                rot_z((offset + 1) as nat, varied == Some(1usize)),
            ),
            v@,
            table@,
            out,
        ),
{
    let ghost tx = MatTerm::Constant { index: x90_index as nat };
    let ghost ti = rot_z(offset as nat, varied == Some(0usize));
    let ghost to = rot_z((offset + 1) as nat, varied == Some(1usize));
    let ghost theta = v@;
    let ghost consts = table@;
    let x90 = &table[x90_index];
    let inner = eval_rot_z(offset, is_varied(varied, 0), v, table, kernels);
    let outer = eval_rot_z(offset + 1, is_varied(varied, 1), v, table, kernels);
    let buffer = eval_matmul(&inner, x90, kernels, Ghost(ti), Ghost(tx), Ghost(theta), Ghost(consts));
    let ghost t1 = MatTerm::matmul(ti, tx);
    let turned = eval_matmul(x90, &buffer, kernels, Ghost(tx), Ghost(t1), Ghost(theta), Ghost(consts));
    let ghost t2 = MatTerm::matmul(tx, t1);
    eval_matmul(&outer, &turned, kernels, Ghost(to), Ghost(t2), Ghost(theta), Ghost(consts))
}

/// Three Z-rotations around the quarter turn at `x90_index`, by the parameters at
/// `offset` and behind it: `last · (x90 · (middle · (x90 · first)))`. With
/// `varied == Some(k)`, the `k`-th rotation is replaced by its derivative.
pub(crate) fn eval_zxzxz<P, M, C, K, X>(
    x90_index: usize,
    offset: usize,
    varied: Option<usize>,
    v: &[P],
    table: &[M],
    kernels: &Kernels<C, K, X>,
) -> (out: M) where
    M: Clone,
    C: Fn(ClosedForm, &[P], Option<usize>) -> M,
    K: Fn(&M, &M) -> M,
    X: Fn(&M, &M) -> M,

    requires
        total(*kernels),
        x90_index < table@.len(),
        offset + 3 <= v@.len() <= usize::MAX,
    ensures
        denotes(
            *kernels,
            zxzxz(
                MatTerm::Constant { index: x90_index as nat },
                rot_z(offset as nat, varied == Some(0usize)),
                rot_z((offset + 1) as nat, varied == Some(1usize)),
                rot_z((offset + 2) as nat, varied == Some(2usize)),
            ),
            v@,
            table@,
            out,
        ),
{
    let ghost tx = MatTerm::Constant { index: x90_index as nat };
    let ghost tf = rot_z(offset as nat, varied == Some(0usize));
    let ghost tm = rot_z((offset + 1) as nat, varied == Some(1usize));
    let ghost tl = rot_z((offset + 2) as nat, varied == Some(2usize));
    let ghost theta = v@;
    let ghost consts = table@;
    let x90 = &table[x90_index];
    let first = eval_rot_z(offset, is_varied(varied, 0), v, table, kernels);
    let middle = eval_rot_z(offset + 1, is_varied(varied, 1), v, table, kernels);
    let last = eval_rot_z(offset + 2, is_varied(varied, 2), v, table, kernels);
    let start = eval_matmul(x90, &first, kernels, Ghost(tx), Ghost(tf), Ghost(theta), Ghost(consts));
    let ghost t1 = MatTerm::matmul(tx, tf);
    let buffer =
        eval_matmul(&middle, &start, kernels, Ghost(tm), Ghost(t1), Ghost(theta), Ghost(consts));
    let ghost t2 = MatTerm::matmul(tm, t1);
    let turned = eval_matmul(x90, &buffer, kernels, Ghost(tx), Ghost(t2), Ghost(theta), Ghost(consts));
    let ghost t3 = MatTerm::matmul(tx, t2);
    eval_matmul(&last, &turned, kernels, Ghost(tl), Ghost(t3), Ghost(theta), Ghost(consts))
}

/// Whether rotation `k` is the one that is varied.
fn is_varied(varied: Option<usize>, k: usize) -> (b: bool)
    ensures
        b == (varied == Some(k)),
{
    match varied {
        Some(which) => which == k,
        None => false,
    }
}

/// The tensor product of the matrices of `gates`, folded from the left.
fn kron_mat<P, M, C, K, X>(
    gates: &Vec<Gate>,
    v: &[P],
    offset: usize,
    table: &[M],
    kernels: &Kernels<C, K, X>,
) -> (out: M) where
    M: Clone,
    C: Fn(ClosedForm, &[P], Option<usize>) -> M,
    K: Fn(&M, &M) -> M,
    X: Fn(&M, &M) -> M,

    requires
        total(*kernels),
        gates@.len() > 0,
        forall|i: int| 0 <= i < gates@.len() ==> (#[trigger] shapes(gates@)[i]).fits(table@.len()),
        offset + inputs_before(shapes(gates@), gates@.len()) <= v@.len() <= usize::MAX,
    ensures
        denotes(*kernels, kron_fold(shapes(gates@), offset as nat, gates@.len()), v@, table@, out),
    decreases gates,
{
    let ghost models = shapes(gates@);
    proof {
        lemma_before_monotonic(models, 1, gates@.len());
        assert(inputs_before(models, 0) == 0);
        assert(models[0].fits(table@.len()));
    }
    let mut acc = gates[0].mat_at(v, offset, table, kernels);
    let mut at: usize = offset + gates[0].inputs();
    let mut i: usize = 1;
    while i < gates.len()
        invariant
            1 <= i <= gates.len(),
            total(*kernels),
            models == shapes(gates@),
            forall|i: int| 0 <= i < gates@.len() ==> (#[trigger] models[i]).fits(table@.len()),
            offset + inputs_before(models, gates@.len()) <= v@.len() <= usize::MAX,
            at == slot(models, offset as nat, i as nat),
            denotes(*kernels, kron_fold(models, offset as nat, i as nat), v@, table@, acc),
        decreases gates.len() - i,
    {
        proof {
            lemma_before_monotonic(models, (i + 1) as nat, gates@.len());
            assert(models[i as int].fits(table@.len()));
        }
        let m = gates[i].mat_at(v, at, table, kernels);
        acc = eval_kron(
            &acc,
            &m,
            kernels,
            Ghost(kron_fold(models, offset as nat, i as nat)),
            Ghost(models[i as int].term(at as nat)),
            Ghost(v@),
            Ghost(table@),
        );
        at = at + gates[i].inputs();
        i += 1;
    }
    acc
}

/// The matrix product of the matrices of `gates`, the first gate applied first.
fn product_mat<P, M, C, K, X>(
    gates: &Vec<Gate>,
    v: &[P],
    offset: usize,
    table: &[M],
    kernels: &Kernels<C, K, X>,
) -> (out: M) where
    M: Clone,
    C: Fn(ClosedForm, &[P], Option<usize>) -> M,
    K: Fn(&M, &M) -> M,
    X: Fn(&M, &M) -> M,

    requires
        total(*kernels),
        gates@.len() > 0,
        forall|i: int| 0 <= i < gates@.len() ==> (#[trigger] shapes(gates@)[i]).fits(table@.len()),
        offset + inputs_before(shapes(gates@), gates@.len()) <= v@.len() <= usize::MAX,
    ensures
        denotes(*kernels, product_fold(shapes(gates@), offset as nat, gates@.len()), v@, table@, out),
    decreases gates,
{
    let ghost models = shapes(gates@);
    proof {
        lemma_before_monotonic(models, 1, gates@.len());
        assert(inputs_before(models, 0) == 0);
        assert(models[0].fits(table@.len()));
    }
    let mut acc = gates[0].mat_at(v, offset, table, kernels);
    let mut at: usize = offset + gates[0].inputs();
    let mut i: usize = 1;
    while i < gates.len()
        invariant
            1 <= i <= gates.len(),
            total(*kernels),
            models == shapes(gates@),
            forall|i: int| 0 <= i < gates@.len() ==> (#[trigger] models[i]).fits(table@.len()),
            offset + inputs_before(models, gates@.len()) <= v@.len() <= usize::MAX,
            at == slot(models, offset as nat, i as nat),
            denotes(*kernels, product_fold(models, offset as nat, i as nat), v@, table@, acc),
        decreases gates.len() - i,
    {
        proof {
            lemma_before_monotonic(models, (i + 1) as nat, gates@.len());
            assert(models[i as int].fits(table@.len()));
        }
        let m = gates[i].mat_at(v, at, table, kernels);
        acc = eval_matmul(
            &m,
            &acc,
            kernels,
            Ghost(models[i as int].term(at as nat)),
            Ghost(product_fold(models, offset as nat, i as nat)),
            Ghost(v@),
            Ghost(table@),
        );
        at = at + gates[i].inputs();
        i += 1;
    }
    acc
}

impl Gate {
    /// The matrix of this gate at the parameters `v`, over the constant-gate table
    /// `constant_gates`.
    ///
    /// This gate reads the first `inputs()` entries of `v`; a composite hands its children
    /// consecutive slices, in order. The result is made of backend operations exactly as
    /// `self@.term(0)` says: a tensor product is folded from the left, and a matrix product
    /// multiplies each child onto the left of the children before it.
    pub fn mat<P, M, C, K, X>(&self, v: &[P], constant_gates: &[M], kernels: &Kernels<C, K, X>) -> (out:
        M) where
        M: Clone,
        C: Fn(ClosedForm, &[P], Option<usize>) -> M,
        K: Fn(&M, &M) -> M,
        X: Fn(&M, &M) -> M,

        requires
            total(*kernels),
            self@.fits(constant_gates@.len()),
            self@.inputs() <= v@.len(),
        ensures
            matrix_of(*kernels, self@, v@, constant_gates@, out),
    {
        let _ = v.len();
        self.mat_at(v, 0, constant_gates, kernels)
    }

    /// The matrix of this gate when its parameters begin at `offset` of `v`.
    pub(crate) fn mat_at<P, M, C, K, X>(
        &self,
        v: &[P],
        offset: usize,
        table: &[M],
        kernels: &Kernels<C, K, X>,
    ) -> (out: M) where
        M: Clone,
        C: Fn(ClosedForm, &[P], Option<usize>) -> M,
        K: Fn(&M, &M) -> M,
        X: Fn(&M, &M) -> M,

        requires
            total(*kernels),
            self@.fits(table@.len()),
            offset + self@.inputs() <= v@.len() <= usize::MAX,
        ensures
            denotes(*kernels, self@.term(offset as nat), v@, table@, out),
        decreases *self,
    {
        match self {
            Gate::Identity(g) => table[g.index()].clone(),
            Gate::CNOT(g) => table[g.index()].clone(),
            Gate::ConstantUnitary(g) => table[g.index()].clone(),
            Gate::U3(_) => eval_closed(ClosedForm::U3, None, v, offset, table, kernels),
            Gate::U2(_) => eval_closed(ClosedForm::U2, None, v, offset, table, kernels),
            Gate::U1(_) => eval_closed(ClosedForm::U1, None, v, offset, table, kernels),
            Gate::X(_) => eval_closed(ClosedForm::X, None, v, offset, table, kernels),
            Gate::Y(_) => eval_closed(ClosedForm::Y, None, v, offset, table, kernels),
            Gate::Z(_) => eval_closed(ClosedForm::Z, None, v, offset, table, kernels),
            Gate::SingleQutrit(_) => eval_closed(
                ClosedForm::SingleQutrit,
                None,
                v,
                offset,
                table,
                kernels,
            ),
            Gate::XZXZ(g) => {
                assert(self@ == g@);
                eval_xzxz(g.x90_index(), offset, None, v, table, kernels)
            },
            Gate::ZXZXZ(g) => {
                assert(self@ == g@);
                eval_zxzxz(g.x90_index(), offset, None, v, table, kernels)
            },
            Gate::Kronecker(g) => {
                assert(self@ == g@);
                kron_mat(&g.substeps, v, offset, table, kernels)
            },
            Gate::Product(g) => {
                assert(self@ == g@);
                product_mat(&g.substeps, v, offset, table, kernels)
            },
        }
    }
}

/// A copy of entry `index` of the constant-gate table, which has no parameters.
fn constant_jac<M: Clone>(table: &[M], index: usize) -> (out: (M, Vec<M>))
    requires
        index < table@.len(),
    ensures
        cloned(table@[index as int], out.0),
        out.1@.len() == 0,
{
    (table[index].clone(), Vec::new())
}

/// A closed form and its derivatives with respect to each of its parameters.
fn closed_mat_jac<P, M, C, K, X>(
    form: ClosedForm,
    v: &[P],
    offset: usize,
    table: &[M],
    kernels: &Kernels<C, K, X>,
) -> (out: (M, Vec<M>)) where
    M: Clone,
    C: Fn(ClosedForm, &[P], Option<usize>) -> M,
    K: Fn(&M, &M) -> M,
    X: Fn(&M, &M) -> M,

    requires
        total(*kernels),
        offset + form.spec_inputs() <= v@.len() <= usize::MAX,
    ensures
        denotes(*kernels, MatTerm::closed(form, offset as nat), v@, table@, out.0),
        out.1@.len() == form.spec_inputs(),
        forall|k: int|
            0 <= k < out.1@.len() ==> denotes(
                *kernels,
                MatTerm::closed_partial(form, offset as nat, k as nat),
                v@,
                table@,
                #[trigger] out.1@[k],
            ),
{
    let m = eval_closed(form, None, v, offset, table, kernels);
    let jacs = closed_jac(form, v, offset, table, kernels);
    (m, jacs)
}

/// The derivatives of a closed form with respect to each of its parameters.
fn closed_jac<P, M, C, K, X>(
    form: ClosedForm,
    v: &[P],
    offset: usize,
    table: &[M],
    kernels: &Kernels<C, K, X>,
) -> (out: Vec<M>) where
    M: Clone,
    C: Fn(ClosedForm, &[P], Option<usize>) -> M,
    K: Fn(&M, &M) -> M,
    X: Fn(&M, &M) -> M,

    requires
        total(*kernels),
        offset + form.spec_inputs() <= v@.len() <= usize::MAX,
    ensures
        out@.len() == form.spec_inputs(),
        forall|k: int|
            0 <= k < out@.len() ==> denotes(
                *kernels,
                MatTerm::closed_partial(form, offset as nat, k as nat),
                v@,
                table@,
                #[trigger] out@[k],
            ),
{
    let n = form.inputs();
    let mut out: Vec<M> = Vec::with_capacity(n);
    let mut k: usize = 0;
    while k < n
        invariant
            k <= n == form.spec_inputs(),
            total(*kernels),
            offset + form.spec_inputs() <= v@.len() <= usize::MAX,
            out@.len() == k,
            forall|q: int|
                0 <= q < out@.len() ==> denotes(
                    *kernels,
                    MatTerm::closed_partial(form, offset as nat, q as nat),
                    v@,
                    table@,
                    #[trigger] out@[q],
                ),
        decreases n - k,
    {
        let j = eval_closed(form, Some(k), v, offset, table, kernels);
        out.push(j);
        k += 1;
    }
    out
}

/// The matrix and the Jacobian of the tensor product of `gates`.
fn kron_mat_jac<P, M, C, K, X>(
    gates: &Vec<Gate>,
    v: &[P],
    offset: usize,
    table: &[M],
    kernels: &Kernels<C, K, X>,
) -> (out: (M, Vec<M>)) where
    M: Clone,
    C: Fn(ClosedForm, &[P], Option<usize>) -> M,
    K: Fn(&M, &M) -> M,
    X: Fn(&M, &M) -> M,

    requires
        total(*kernels),
        gates@.len() > 0,
        forall|i: int| 0 <= i < gates@.len() ==> (#[trigger] shapes(gates@)[i]).fits(table@.len()),
        offset + inputs_before(shapes(gates@), gates@.len()) <= v@.len() <= usize::MAX,
    ensures
        denotes(*kernels, kron_fold(shapes(gates@), offset as nat, gates@.len()), v@, table@, out.0),
        out.1@.len() == inputs_before(shapes(gates@), gates@.len()),
        forall|k: int|
            0 <= k < out.1@.len() ==> denotes(
                *kernels,
                kron_entry(shapes(gates@), offset as nat, k as nat, gates@.len()),
                v@,
                table@,
                #[trigger] out.1@[k],
            ),
    decreases gates,
{
    let ghost models = shapes(gates@);
    let ghost off = offset as nat;
    proof {
        lemma_before_monotonic(models, 1, gates@.len());
        assert(inputs_before(models, 0) == 0);
        assert(models[0].fits(table@.len()));
    }
    let (first, first_jacs) = gates[0].mat_jac_at(v, offset, table, kernels);
    let mut acc = first;
    let mut jacs = first_jacs;
    let mut at: usize = offset + gates[0].inputs();
    let mut i: usize = 1;
    proof {
        assert forall|k: int| 0 <= k < jacs@.len() implies denotes(
            *kernels,
            kron_entry(models, off, k as nat, 1),
            v@,
            table@,
            #[trigger] jacs@[k],
        ) by {
            lemma_owner(models, 0, k as nat, gates@.len());
        }
    }
    while i < gates.len()
        invariant
            1 <= i <= gates.len(),
            total(*kernels),
            models == shapes(gates@),
            off == offset,
            forall|i: int| 0 <= i < gates@.len() ==> (#[trigger] models[i]).fits(table@.len()),
            offset + inputs_before(models, gates@.len()) <= v@.len() <= usize::MAX,
            at == slot(models, off, i as nat),
            denotes(*kernels, kron_fold(models, off, i as nat), v@, table@, acc),
            jacs@.len() == inputs_before(models, i as nat),
            forall|k: int|
                0 <= k < jacs@.len() ==> denotes(
                    *kernels,
                    kron_entry(models, off, k as nat, i as nat),
                    v@,
                    table@,
                    #[trigger] jacs@[k],
                ),
        decreases gates.len() - i,
    {
        proof {
            lemma_before_monotonic(models, (i + 1) as nat, gates@.len());
            assert(models[i as int].fits(table@.len()));
        }
        let (m, own) = gates[i].mat_jac_at(v, at, table, kernels);
        let ghost term = models[i as int].term(at as nat);
        let mut widened: Vec<M> = Vec::with_capacity(jacs.len());
        let mut k: usize = 0;
        while k < jacs.len()
            invariant
                k <= jacs@.len(),
                1 <= i < gates@.len(),
                total(*kernels),
                models == shapes(gates@),
                term == models[i as int].term(at as nat),
                at == slot(models, off, i as nat),
                jacs@.len() == inputs_before(models, i as nat),
                denotes(*kernels, term, v@, table@, m),
                forall|k: int|
                    0 <= k < jacs@.len() ==> denotes(
                        *kernels,
                        kron_entry(models, off, k as nat, i as nat),
                        v@,
                        table@,
                        #[trigger] jacs@[k],
                    ),
                widened@.len() == k,
                forall|q: int|
                    0 <= q < widened@.len() ==> denotes(
                        *kernels,
                        kron_entry(models, off, q as nat, (i + 1) as nat),
                        v@,
                        table@,
                        #[trigger] widened@[q],
                    ),
            decreases jacs.len() - k,
        {
            proof {
                lemma_owner_before(models, k as nat, i as nat, gates@.len());
            }
            let w = eval_kron(
                &jacs[k],
                &m,
                kernels,
                Ghost(kron_entry(models, off, k as nat, i as nat)),
                Ghost(term),
                Ghost(v@),
                Ghost(table@),
            );
            widened.push(w);
            k += 1;
        }
        let mut j: usize = 0;
        while j < own.len()
            invariant
                j <= own@.len(),
                1 <= i < gates@.len(),
                total(*kernels),
                models == shapes(gates@),
                at == slot(models, off, i as nat),
                own@.len() == models[i as int].inputs(),
                denotes(*kernels, kron_fold(models, off, i as nat), v@, table@, acc),
                forall|q: int|
                    0 <= q < own@.len() ==> denotes(
                        *kernels,
                        models[i as int].partial(at as nat, q as nat),
                        v@,
                        table@,
                        #[trigger] own@[q],
                    ),
                widened@.len() == inputs_before(models, i as nat) + j,
                forall|q: int|
                    0 <= q < widened@.len() ==> denotes(
                        *kernels,
                        kron_entry(models, off, q as nat, (i + 1) as nat),
                        v@,
                        table@,
                        #[trigger] widened@[q],
                    ),
            decreases own.len() - j,
        {
            proof {
                lemma_owner(models, i as nat, j as nat, gates@.len());
            }
            let w = eval_kron(
                &acc,
                &own[j],
                kernels,
                Ghost(kron_fold(models, off, i as nat)),
                Ghost(models[i as int].partial(at as nat, j as nat)),
                Ghost(v@),
                Ghost(table@),
            );
            widened.push(w);
            j += 1;
        }
        acc = eval_kron(
            &acc,
            &m,
            kernels,
            Ghost(kron_fold(models, off, i as nat)),
            Ghost(term),
            Ghost(v@),
            Ghost(table@),
        );
        jacs = widened;
        at = at + gates[i].inputs();
        i += 1;
    }
    (acc, jacs)
}

/// The matrix of the last gate times the matrices before it down to gate `from`, for
/// every `from` between the second gate and the last but one, latest first.
fn product_suffixes<P, M, C, K, X>(
    rest: &Vec<M>,
    n: usize,
    kernels: &Kernels<C, K, X>,
    Ghost(models): Ghost<Seq<Shape>>,
    Ghost(off): Ghost<nat>,
    Ghost(theta): Ghost<Seq<P>>,
    Ghost(table): Ghost<Seq<M>>,
) -> (out: Vec<M>) where
    M: Clone,
    C: Fn(ClosedForm, &[P], Option<usize>) -> M,
    K: Fn(&M, &M) -> M,
    X: Fn(&M, &M) -> M,

    requires
        total(*kernels),
        n == models.len() == rest@.len() + 1,
        rest@.len() >= 1,
        forall|i: int|
            1 <= i < models.len() ==> denotes(
                *kernels,
                models[i].term(slot(models, off, i as nat)),
                theta,
                table,
                #[trigger] rest@[i - 1],
            ),
    ensures
        out@.len() == rest@.len() - 1,
        forall|t: int|
            0 <= t < out@.len() ==> denotes(
                *kernels,
                product_suffix(models, off, (models.len() - 2 - t) as nat),
                theta,
                table,
                #[trigger] out@[t],
            ),
{
    let mut out: Vec<M> = Vec::with_capacity(rest.len() - 1);
    let mut t: usize = 0;
    while t + 2 < n
        invariant
            n == rest@.len() + 1 == models.len(),
            n >= 2,
            t + 2 <= n,
            total(*kernels),
            forall|i: int|
                1 <= i < models.len() ==> denotes(
                    *kernels,
                    models[i].term(slot(models, off, i as nat)),
                    theta,
                    table,
                    #[trigger] rest@[i - 1],
                ),
            out@.len() == t,
            forall|q: int|
                0 <= q < out@.len() ==> denotes(
                    *kernels,
                    product_suffix(models, off, (n - 2 - q) as nat),
                    theta,
                    table,
                    #[trigger] out@[q],
                ),
        decreases n - t,
    {
        let from = n - 2 - t;
        let ghost later = product_suffix(models, off, (from + 1) as nat);
        let ghost own = models[from as int].term(slot(models, off, from as nat));
        assert(denotes(*kernels, own, theta, table, rest@[from - 1]));
        let s = if t == 0 {
            assert(denotes(*kernels, later, theta, table, rest@[n - 2]));
            eval_matmul(
                &rest[n - 2],
                &rest[from - 1],
                kernels,
                Ghost(later),
                Ghost(own),
                Ghost(theta),
                Ghost(table),
            )
        } else {
            assert(denotes(*kernels, later, theta, table, out@[t - 1]));
            eval_matmul(
                &out[t - 1],
                &rest[from - 1],
                kernels,
                Ghost(later),
                Ghost(own),
                Ghost(theta),
                Ghost(table),
            )
        };
        out.push(s);
        t += 1;
    }
    out
}

/// The matrix and the Jacobian of the matrix product of `gates`.
fn product_mat_jac<P, M, C, K, X>(
    gates: &Vec<Gate>,
    v: &[P],
    offset: usize,
    table: &[M],
    kernels: &Kernels<C, K, X>,
) -> (out: (M, Vec<M>)) where
    M: Clone,
    C: Fn(ClosedForm, &[P], Option<usize>) -> M,
    K: Fn(&M, &M) -> M,
    X: Fn(&M, &M) -> M,

    requires
        total(*kernels),
        gates@.len() > 0,
        forall|i: int| 0 <= i < gates@.len() ==> (#[trigger] shapes(gates@)[i]).fits(table@.len()),
        offset + inputs_before(shapes(gates@), gates@.len()) <= v@.len() <= usize::MAX,
    ensures
        denotes(*kernels, product_fold(shapes(gates@), offset as nat, gates@.len()), v@, table@, out.0),
        out.1@.len() == inputs_before(shapes(gates@), gates@.len()),
        forall|k: int|
            0 <= k < out.1@.len() ==> denotes(
                *kernels,
                product_entry(shapes(gates@), offset as nat, k as nat),
                v@,
                table@,
                #[trigger] out.1@[k],
            ),
    decreases gates,
{
    let ghost models = shapes(gates@);
    let ghost off = offset as nat;
    let n = gates.len();
    proof {
        lemma_before_monotonic(models, 1, gates@.len());
        assert(inputs_before(models, 0) == 0);
        assert(models[0].fits(table@.len()));
    }
    let (first, first_jacs) = gates[0].mat_jac_at(v, offset, table, kernels);
    if n == 1 {
        proof {
            assert forall|k: int| 0 <= k < first_jacs@.len() implies denotes(
                *kernels,
                product_entry(models, off, k as nat),
                v@,
                table@,
                #[trigger] first_jacs@[k],
            ) by {
                lemma_owner(models, 0, k as nat, 1);
            }
        }
        return (first, first_jacs);
    }
    // The matrices and Jacobians of every gate after the first.
    let mut rest: Vec<M> = Vec::with_capacity(n - 1);
    let mut rest_jacs: Vec<Vec<M>> = Vec::with_capacity(n - 1);
    let mut at: usize = offset + gates[0].inputs();
    let mut i: usize = 1;
    while i < n
        invariant
            1 <= i <= n == gates@.len(),
            total(*kernels),
            models == shapes(gates@),
            forall|i: int| 0 <= i < gates@.len() ==> (#[trigger] models[i]).fits(table@.len()),
            offset + inputs_before(models, gates@.len()) <= v@.len() <= usize::MAX,
            off == offset,
            at == slot(models, off, i as nat),
            rest@.len() == i - 1,
            rest_jacs@.len() == i - 1,
            forall|a: int|
                1 <= a < i ==> denotes(
                    *kernels,
                    models[a].term(slot(models, off, a as nat)),
                    v@,
                    table@,
                    #[trigger] rest@[a - 1],
                ),
            forall|a: int|
                1 <= a < i ==> jacobian_of(
                    *kernels,
                    models[a],
                    slot(models, off, a as nat),
                    v@,
                    table@,
                    (#[trigger] rest_jacs@[a - 1])@,
                ),
        decreases n - i,
    {
        proof {
            lemma_before_monotonic(models, (i + 1) as nat, gates@.len());
            assert(models[i as int].fits(table@.len()));
        }
        let (m, own) = gates[i].mat_jac_at(v, at, table, kernels);
        rest.push(m);
        rest_jacs.push(own);
        at = at + gates[i].inputs();
        i += 1;
    }
    let suffixes =
        product_suffixes(&rest, n, kernels, Ghost(models), Ghost(off), Ghost(v@), Ghost(table@));
    // The first gate has nothing before it: its derivatives are multiplied from the left only.
    let mut jacs: Vec<M> = Vec::with_capacity(first_jacs.len());
    let mut j: usize = 0;
    while j < first_jacs.len()
        invariant
            j <= first_jacs@.len(),
            n == gates@.len() == models.len(),
            n >= 2,
            total(*kernels),
            off == offset,
            rest@.len() == n - 1,
            suffixes@.len() == n - 2,
            first_jacs@.len() == models[0].inputs(),
            forall|q: int|
                0 <= q < first_jacs@.len() ==> denotes(
                    *kernels,
                    models[0].partial(off, q as nat),
                    v@,
                    table@,
                    #[trigger] first_jacs@[q],
                ),
            forall|a: int|
                1 <= a < n ==> denotes(
                    *kernels,
                    models[a].term(slot(models, off, a as nat)),
                    v@,
                    table@,
                    #[trigger] rest@[a - 1],
                ),
            forall|t: int|
                0 <= t < suffixes@.len() ==> denotes(
                    *kernels,
                    product_suffix(models, off, (n - 2 - t) as nat),
                    v@,
                    table@,
                    #[trigger] suffixes@[t],
                ),
            jacs@.len() == j,
            forall|q: int|
                0 <= q < jacs@.len() ==> denotes(
                    *kernels,
                    product_entry(models, off, q as nat),
                    v@,
                    table@,
                    #[trigger] jacs@[q],
                ),
        decreases first_jacs.len() - j,
    {
        let ghost later = product_suffix(models, off, 1);
        let ghost own = models[0].partial(off, j as nat);
        proof {
            lemma_owner(models, 0, j as nat, n as nat);
            assert(inputs_before(models, 0) == 0);
        }
        let entry = if n == 2 {
            assert(denotes(*kernels, later, v@, table@, rest@[0]));
            eval_matmul(
                &rest[0],
                &first_jacs[j],
                kernels,
                Ghost(later),
                Ghost(own),
                Ghost(v@),
                Ghost(table@),
            )
        } else {
            assert(denotes(*kernels, later, v@, table@, suffixes@[n - 3]));
            eval_matmul(
                &suffixes[n - 3],
                &first_jacs[j],
                kernels,
                Ghost(later),
                Ghost(own),
                Ghost(v@),
                Ghost(table@),
            )
        };
        jacs.push(entry);
        j += 1;
    }
    let mut prefix = first;
    let mut i: usize = 1;
    while i < n
        invariant
            1 <= i <= n == gates@.len() == models.len(),
            n >= 2,
            total(*kernels),
            off == offset,
            models == shapes(gates@),
            rest@.len() == n - 1,
            rest_jacs@.len() == n - 1,
            suffixes@.len() == n - 2,
            forall|a: int|
                1 <= a < n ==> denotes(
                    *kernels,
                    models[a].term(slot(models, off, a as nat)),
                    v@,
                    table@,
                    #[trigger] rest@[a - 1],
                ),
            forall|a: int|
                1 <= a < n ==> jacobian_of(
                    *kernels,
                    models[a],
                    slot(models, off, a as nat),
                    v@,
                    table@,
                    (#[trigger] rest_jacs@[a - 1])@,
                ),
            forall|t: int|
                0 <= t < suffixes@.len() ==> denotes(
                    *kernels,
                    product_suffix(models, off, (n - 2 - t) as nat),
                    v@,
                    table@,
                    #[trigger] suffixes@[t],
                ),
            denotes(*kernels, product_fold(models, off, i as nat), v@, table@, prefix),
            jacs@.len() == inputs_before(models, i as nat),
            forall|q: int|
                0 <= q < jacs@.len() ==> denotes(
                    *kernels,
                    product_entry(models, off, q as nat),
                    v@,
                    table@,
                    #[trigger] jacs@[q],
                ),
        decreases n - i,
    {
        let own_jacs = &rest_jacs[i - 1];
        let ghost before = product_fold(models, off, i as nat);
        let ghost here = slot(models, off, i as nat);
        assert(jacobian_of(*kernels, models[i as int], here, v@, table@, rest_jacs@[i - 1]@));
        let mut j: usize = 0;
        while j < own_jacs.len()
            invariant
                j <= own_jacs@.len(),
                1 <= i < n == models.len(),
                n >= 2,
                total(*kernels),
                rest@.len() == n - 1,
                suffixes@.len() == n - 2,
                before == product_fold(models, off, i as nat),
                here == slot(models, off, i as nat),
                jacobian_of(*kernels, models[i as int], here, v@, table@, own_jacs@),
                forall|a: int|
                    1 <= a < n ==> denotes(
                        *kernels,
                        models[a].term(slot(models, off, a as nat)),
                        v@,
                        table@,
                        #[trigger] rest@[a - 1],
                    ),
                forall|t: int|
                    0 <= t < suffixes@.len() ==> denotes(
                        *kernels,
                        product_suffix(models, off, (n - 2 - t) as nat),
                        v@,
                        table@,
                        #[trigger] suffixes@[t],
                    ),
                denotes(*kernels, before, v@, table@, prefix),
                jacs@.len() == inputs_before(models, i as nat) + j,
                forall|q: int|
                    0 <= q < jacs@.len() ==> denotes(
                        *kernels,
                        product_entry(models, off, q as nat),
                        v@,
                        table@,
                        #[trigger] jacs@[q],
                    ),
            decreases own_jacs.len() - j,
        {
            let ghost own = models[i as int].partial(here, j as nat);
            proof {
                lemma_owner(models, i as nat, j as nat, n as nat);
            }
            assert(denotes(*kernels, own, v@, table@, own_jacs@[j as int]));
            let right = eval_matmul(
                &own_jacs[j],
                &prefix,
                kernels,
                Ghost(own),
                Ghost(before),
                Ghost(v@),
                Ghost(table@),
            );
            let ghost right_term = MatTerm::matmul(own, before);
            let entry = if i + 1 == n {
                right
            } else {
                let ghost later = product_suffix(models, off, (i + 1) as nat);
                if i + 2 == n {
                    assert(denotes(*kernels, later, v@, table@, rest@[n - 2]));
                    eval_matmul(
                        &rest[n - 2],
                        &right,
                        kernels,
                        Ghost(later),
                        Ghost(right_term),
                        Ghost(v@),
                        Ghost(table@),
                    )
                } else {
                    assert(denotes(*kernels, later, v@, table@, suffixes@[n - 3 - i]));
                    eval_matmul(
                        &suffixes[n - 3 - i],
                        &right,
                        kernels,
                        Ghost(later),
                        Ghost(right_term),
                        Ghost(v@),
                        Ghost(table@),
                    )
                }
            };
            jacs.push(entry);
            j += 1;
        }
        assert(denotes(*kernels, models[i as int].term(here), v@, table@, rest@[i - 1]));
        prefix = eval_matmul(
            &rest[i - 1],
            &prefix,
            kernels,
            Ghost(models[i as int].term(here)),
            Ghost(before),
            Ghost(v@),
            Ghost(table@),
        );
        i += 1;
    }
    (prefix, jacs)
}

impl Gate {
    /// The matrix of this gate at the parameters `v` together with its Jacobian: one matrix
    /// for each parameter, in parameter order.
    ///
    /// The matrix is made as `mat` makes it. Entry `k` of the Jacobian is made of backend
    /// operations exactly as `self@.partial(0, k)` says: the child that owns the parameter
    /// contributes its own derivative, and every other child its matrix. A gate without
    /// parameters has an empty Jacobian.
    pub fn mat_jac<P, M, C, K, X>(
        &self,
        v: &[P],
        constant_gates: &[M],
        kernels: &Kernels<C, K, X>,
    ) -> (out: (M, Vec<M>)) where
        M: Clone,
        C: Fn(ClosedForm, &[P], Option<usize>) -> M,
        K: Fn(&M, &M) -> M,
        X: Fn(&M, &M) -> M,

        requires
            total(*kernels),
            self@.fits(constant_gates@.len()),
            self@.inputs() <= v@.len(),
        ensures
            matrix_of(*kernels, self@, v@, constant_gates@, out.0),
            jacobian_of(*kernels, self@, 0, v@, constant_gates@, out.1@),
    {
        let _ = v.len();
        self.mat_jac_at(v, 0, constant_gates, kernels)
    }

    /// The matrix and the Jacobian of this gate when its parameters begin at `offset` of
    /// `v`.
    pub(crate) fn mat_jac_at<P, M, C, K, X>(
        &self,
        v: &[P],
        offset: usize,
        table: &[M],
        kernels: &Kernels<C, K, X>,
    ) -> (out: (M, Vec<M>)) where
        M: Clone,
        C: Fn(ClosedForm, &[P], Option<usize>) -> M,
        K: Fn(&M, &M) -> M,
        X: Fn(&M, &M) -> M,

        requires
            total(*kernels),
            self@.fits(table@.len()),
            offset + self@.inputs() <= v@.len() <= usize::MAX,
        ensures
            denotes(*kernels, self@.term(offset as nat), v@, table@, out.0),
            jacobian_of(*kernels, self@, offset as nat, v@, table@, out.1@),
        decreases *self,
    {
        match self {
            Gate::Identity(g) => constant_jac(table, g.index()),
            Gate::CNOT(g) => constant_jac(table, g.index()),
            Gate::ConstantUnitary(g) => constant_jac(table, g.index()),
            Gate::U3(_) => closed_mat_jac(ClosedForm::U3, v, offset, table, kernels),
            Gate::U2(_) => closed_mat_jac(ClosedForm::U2, v, offset, table, kernels),
            Gate::U1(_) => closed_mat_jac(ClosedForm::U1, v, offset, table, kernels),
            Gate::X(_) => closed_mat_jac(ClosedForm::X, v, offset, table, kernels),
            Gate::Y(_) => closed_mat_jac(ClosedForm::Y, v, offset, table, kernels),
            Gate::Z(_) => closed_mat_jac(ClosedForm::Z, v, offset, table, kernels),
            Gate::SingleQutrit(_) => closed_mat_jac(
                ClosedForm::SingleQutrit,
                v,
                offset,
                table,
                kernels,
            ),
            Gate::XZXZ(g) => {
                assert(self@ == g@);
                let at = g.x90_index();
                let u = eval_xzxz(at, offset, None, v, table, kernels);
                let mut jacs: Vec<M> = Vec::with_capacity(2);
                jacs.push(eval_xzxz(at, offset, Some(0), v, table, kernels));
                jacs.push(eval_xzxz(at, offset, Some(1), v, table, kernels));
                (u, jacs)
            },
            Gate::ZXZXZ(g) => {
                assert(self@ == g@);
                let at = g.x90_index();
                let u = eval_zxzxz(at, offset, None, v, table, kernels);
                let mut jacs: Vec<M> = Vec::with_capacity(3);
                jacs.push(eval_zxzxz(at, offset, Some(0), v, table, kernels));
                jacs.push(eval_zxzxz(at, offset, Some(1), v, table, kernels));
                jacs.push(eval_zxzxz(at, offset, Some(2), v, table, kernels));
                (u, jacs)
            },
            Gate::Kronecker(g) => {
                assert(self@ == g@);
                kron_mat_jac(&g.substeps, v, offset, table, kernels)
            },
            Gate::Product(g) => {
                assert(self@ == g@);
                product_mat_jac(&g.substeps, v, offset, table, kernels)
            },
        }
    }
}

} // verus!
