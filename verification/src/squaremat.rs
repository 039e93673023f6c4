//! Dense square matrices, stored row by row in one buffer.
//!
//! The matrix knows where its entries are; what an entry is, and how two entries are
//! added or multiplied, is the caller's business. Every operation that computes with
//! entries takes the arithmetic it needs as functions and says of every entry of its
//! result which calls produced it.
use vstd::prelude::*;
use crate::layout::{cell, lemma_cell_unique, lemma_row_major};

verus! {

/// A matrix of `size` rows and `size` columns.
#[derive(Debug, PartialEq)]
pub struct SquareMatrix<T> {
    data: Vec<T>,
    size: usize,
}

impl<T> View for SquareMatrix<T> {
    type V = Seq<T>;

    /// The entries, row by row.
    closed spec fn view(&self) -> Seq<T> {
        self.data@
    }
}

impl<T> SquareMatrix<T> {
    #[verifier::type_invariant]
    spec fn inv(self) -> bool {
        self.data@.len() == self.size * self.size
    }

    /// The number of rows, which is the number of columns.
    pub closed spec fn spec_size(&self) -> nat {
        self.size as nat
    }

    /// The entry in row `i` and column `j`.
    pub open spec fn at(&self, i: int, j: int) -> T {
        self@[cell(i, j, self.spec_size() as int)]
    }

    /// The matrix holds as many entries as it has cells.
    pub open spec fn full(&self) -> bool {
        self@.len() == self.spec_size() * self.spec_size()
    }

    /// The matrix of `size` rows whose entries are `v`, row by row.
    pub fn from_vec(v: Vec<T>, size: usize) -> (out: Self)
        requires
            v@.len() == size * size,
        ensures
            out@ == v@,
            out.spec_size() == size,
            out.full(),
    {
        SquareMatrix { data: v, size }
    }

    /// The matrix of `n` rows whose entry in row `i` and column `j` is `f((i, j))`. The
    /// entries are asked for row by row.
    pub fn from_size_fn<F>(n: usize, f: F) -> (out: Self) where F: Fn((usize, usize)) -> T
        requires
            n * n <= usize::MAX,
            forall|i: usize, j: usize| i < n && j < n ==> call_requires(f, ((i, j),)),
        ensures
            out.spec_size() == n,
            out.full(),
            forall|i: usize, j: usize|
                i < n && j < n ==> call_ensures(f, ((i, j),), #[trigger] out.at(i as int, j as int)),
    {
        let mut data: Vec<T> = Vec::new();
        let mut i: usize = 0;
        while i < n
            invariant
                i <= n,
                n * n <= usize::MAX,
                forall|i: usize, j: usize| i < n && j < n ==> call_requires(f, ((i, j),)),
                data@.len() == i * n,
                forall|x: usize, y: usize|
                    x < i && y < n ==> call_ensures(
                        f,
                        ((x, y),),
                        #[trigger] data@[cell(x as int, y as int, n as int)],
                    ),
            decreases n - i,
        {
            let mut j: usize = 0;
            while j < n
                invariant
                    i < n,
                    j <= n,
                    n * n <= usize::MAX,
                    forall|i: usize, j: usize| i < n && j < n ==> call_requires(f, ((i, j),)),
                    data@.len() == i * n + j,
                    forall|x: usize, y: usize|
                        x < i && y < n ==> call_ensures(
                            f,
                            ((x, y),),
                            #[trigger] data@[cell(x as int, y as int, n as int)],
                        ),
                    forall|y: usize|
                        y < j ==> call_ensures(
                            f,
                            ((i, y),),
                            #[trigger] data@[cell(i as int, y as int, n as int)],
                        ),
                decreases n - j,
            {
                let ghost before = data@;
                let entry = f((i, j));
                data.push(entry);
                proof {
                    assert forall|x: usize, y: usize| x < i && y < n implies call_ensures(
                        f,
                        ((x, y),),
                        #[trigger] data@[cell(x as int, y as int, n as int)],
                    ) by {
                        lemma_row_major(x as int, y as int, i as int, n as int);
                        assert(data@[cell(x as int, y as int, n as int)] == before[cell(
                            x as int,
                            y as int,
                            n as int,
                        )]);
                    }
                    assert forall|y: usize| y < j + 1 implies call_ensures(
                        f,
                        ((i, y),),
                        #[trigger] data@[cell(i as int, y as int, n as int)],
                    ) by {
                        if y < j {
                            assert(data@[cell(i as int, y as int, n as int)] == before[cell(
                                i as int,
                                y as int,
                                n as int,
                            )]);
                        }
                    }
                }
                j += 1;
            }
            proof {
                lemma_row_major(i as int, 0, n as int, n as int);
            }
            i += 1;
        }
        SquareMatrix { data, size: n }
    }

    /// The number of rows, which is the number of columns.
    pub fn size(&self) -> (n: usize)
        ensures
            n == self.spec_size(),
            self.full(),
            n * n <= usize::MAX,
    {
        proof {
            use_type_invariant(self);
        }
        let _ = self.data.len();
        self.size
    }

    /// The entries, row by row.
    pub fn as_slice(&self) -> (out: &[T])
        ensures
            out@ == self@,
            self.full(),
    {
        proof {
            use_type_invariant(self);
        }
        self.data.as_slice()
    }

    /// The entries, row by row.
    pub fn into_vec(self) -> (out: Vec<T>)
        ensures
            out@ == self@,
            self.full(),
    {
        proof {
            use_type_invariant(&self);
        }
        self.data
    }
}

impl<T: Copy> SquareMatrix<T> {
    /// The entry in row `i` and column `j`.
    pub fn get(&self, i: usize, j: usize) -> (out: T)
        requires
            i < self.spec_size(),
            j < self.spec_size(),
        ensures
            out == self.at(i as int, j as int),
    {
        proof {
            use_type_invariant(self);
            lemma_row_major(i as int, j as int, self.size as int, self.size as int);
        }
        let _ = self.data.len();
        self.data[i * self.size + j]
    }

    /// The matrix of `size` rows all of whose entries are `zero`.
    pub fn zeros(size: usize, zero: T) -> (out: Self)
        requires
            size * size <= usize::MAX,
        ensures
            out.spec_size() == size,
            out.full(),
            forall|i: int, j: int| 0 <= i < size && 0 <= j < size ==> #[trigger] out.at(i, j) == zero,
    {
        let fill = |at: (usize, usize)| -> (entry: T)
            ensures
                entry == zero,
            { zero };
        let out = Self::from_size_fn(size, fill);
        assert forall|i: int, j: int| 0 <= i < size && 0 <= j < size implies #[trigger] out.at(i, j)
            == zero by {
            let (row, column) = (i as usize, j as usize);
            assert(call_ensures(fill, ((row, column),), out.at(row as int, column as int)));
        }
        out
    }

    /// The matrix of `size` rows with `one` on the diagonal and `zero` everywhere else.
    pub fn eye(size: usize, zero: T, one: T) -> (out: Self)
        requires
            size * size <= usize::MAX,
        ensures
            out.spec_size() == size,
            out.full(),
            forall|i: int, j: int|
                0 <= i < size && 0 <= j < size ==> #[trigger] out.at(i, j) == if i == j {
                    one
                } else {
                    zero
                },
    {
        let fill = |at: (usize, usize)| -> (entry: T)
            ensures
                entry == if at.0 == at.1 {
                    one
                } else {
                    zero
                },
            {
                if at.0 == at.1 {
                    one
                } else {
                    zero
                }
            };
        let out = Self::from_size_fn(size, fill);
        assert forall|i: int, j: int| 0 <= i < size && 0 <= j < size implies #[trigger] out.at(i, j)
            == if i == j {
            one
        } else {
            zero
        } by {
            let (row, column) = (i as usize, j as usize);
            assert(call_ensures(fill, ((row, column),), out.at(row as int, column as int)));
        }
        out
    }

    /// The transpose: rows and columns change places.
    #[allow(non_snake_case)]
    pub fn T(&self) -> (out: Self)
        ensures
            out.spec_size() == self.spec_size(),
            out.full(),
            forall|i: int, j: int|
                0 <= i < self.spec_size() && 0 <= j < self.spec_size() ==> #[trigger] out.at(i, j)
                    == self.at(j, i),
    {
        let n = self.size();
        let fill = |at: (usize, usize)| -> (entry: T)
            requires
                at.0 < n,
                at.1 < n,
            ensures
                entry == self.at(at.1 as int, at.0 as int),
            { self.get(at.1, at.0) };
        let out = Self::from_size_fn(n, fill);
        assert forall|i: int, j: int| 0 <= i < n && 0 <= j < n implies #[trigger] out.at(i, j)
            == self.at(j, i) by {
            let (row, column) = (i as usize, j as usize);
            assert(call_ensures(fill, ((row, column),), out.at(row as int, column as int)));
        }
        out
    }
}

impl<T: Copy> Clone for SquareMatrix<T> {
    fn clone(&self) -> (out: Self)
        ensures
            out@ == self@,
            out.spec_size() == self.spec_size(),
    {
        proof {
            use_type_invariant(self);
        }
        let mut data: Vec<T> = Vec::with_capacity(self.data.len());
        let mut k: usize = 0;
        while k < self.data.len()
            invariant
                k <= self.data@.len(),
                data@ == self.data@.take(k as int),
            decreases self.data.len() - k,
        {
            data.push(self.data[k]);
            k += 1;
            assert(data@ =~= self.data@.take(k as int));
        }
        assert(data@ =~= self.data@);
        SquareMatrix { data, size: self.size }
    }
}

/// `out` is what is left after the first `n` entries of `entries` have been added to
/// `zero` one after the other.
pub open spec fn summed<T, A: Fn(T, T) -> T>(plus: A, entries: Seq<T>, n: nat, zero: T, out: T) -> bool
    decreases n,
{
    if n == 0 || n > entries.len() {
        out == zero
    } else {
        let fewer = (n - 1) as nat;
        let last = entries[n - 1];
        exists|before: T|
            summed(plus, entries, fewer, zero, before) && #[trigger] call_ensures(
                plus,
                (before, last),
                out,
            )
    }
}

/// `out` is what is left after the products of the first `n` entries of row `i` of `a`
/// with the first `n` entries of column `j` of `b` have been added to `zero` one after
/// the other. Both matrices have `size` rows.
pub open spec fn dotted<T, X: Fn(T, T) -> T, A: Fn(T, T) -> T>(
    times: X,
    plus: A,
    a: Seq<T>,
    b: Seq<T>,
    size: int,
    i: int,
    j: int,
    n: nat,
    zero: T,
    out: T,
) -> bool
    decreases n,
{
    if n == 0 {
        out == zero
    } else {
        let fewer = (n - 1) as nat;
        let left = a[cell(i, n - 1, size)];
        let right = b[cell(n - 1, j, size)];
        exists|before: T, product: T|
            dotted(times, plus, a, b, size, i, j, fewer, zero, before) && call_ensures(
                times,
                (left, right),
                product,
            ) && #[trigger] call_ensures(plus, (before, product), out)
    }
}

/// `out` is what is left after the products of the first `n` entries of `a` with the
/// conjugates of the first `n` entries of `b` have been added to `zero` one after the
/// other.
pub open spec fn paired<T, C: Fn(T) -> T, X: Fn(T, T) -> T, A: Fn(T, T) -> T>(
    conj: C,
    times: X,
    plus: A,
    a: Seq<T>,
    b: Seq<T>,
    n: nat,
    zero: T,
    out: T,
) -> bool
    decreases n,
{
    if n == 0 {
        out == zero
    } else {
        let fewer = (n - 1) as nat;
        let left = a[n - 1];
        let right = b[n - 1];
        exists|before: T, conjugate: T, product: T|
            paired(conj, times, plus, a, b, fewer, zero, before) && call_ensures(
                conj,
                (right,),
                conjugate,
            ) && #[trigger] call_ensures(times, (left, conjugate), product)
                && #[trigger] call_ensures(plus, (before, product), out)
    }
}

/// What `paired` says, one step down.
pub proof fn lemma_paired<T, C: Fn(T) -> T, X: Fn(T, T) -> T, A: Fn(T, T) -> T>(
    conj: C,
    times: X,
    plus: A,
    a: Seq<T>,
    b: Seq<T>,
    n: nat,
    zero: T,
    out: T,
)
    ensures
        paired(conj, times, plus, a, b, n, zero, out) <==> if n == 0 {
            out == zero
        } else {
            exists|before: T, conjugate: T, product: T|
                paired(conj, times, plus, a, b, (n - 1) as nat, zero, before) && call_ensures(
                    conj,
                    (b[n - 1],),
                    conjugate,
                ) && #[trigger] call_ensures(times, (a[n - 1], conjugate), product)
                    && #[trigger] call_ensures(plus, (before, product), out)
        },
{
}

/// What `summed` says, one step down. A caller whose arithmetic is a particular function
/// learns from this what a sum is made of.
pub proof fn lemma_summed<T, A: Fn(T, T) -> T>(plus: A, entries: Seq<T>, n: nat, zero: T, out: T)
    ensures
        summed(plus, entries, n, zero, out) <==> if n == 0 || n > entries.len() {
            out == zero
        } else {
            exists|before: T|
                summed(plus, entries, (n - 1) as nat, zero, before) && #[trigger] call_ensures(
                    plus,
                    (before, entries[n - 1]),
                    out,
                )
        },
{
}

/// What `dotted` says, one step down.
pub proof fn lemma_dotted<T, X: Fn(T, T) -> T, A: Fn(T, T) -> T>(
    times: X,
    plus: A,
    a: Seq<T>,
    b: Seq<T>,
    size: int,
    i: int,
    j: int,
    n: nat,
    zero: T,
    out: T,
)
    ensures
        dotted(times, plus, a, b, size, i, j, n, zero, out) <==> if n == 0 {
            out == zero
        } else {
            exists|before: T, product: T|
                dotted(times, plus, a, b, size, i, j, (n - 1) as nat, zero, before) && call_ensures(
                    times,
                    (a[cell(i, n - 1, size)], b[cell(n - 1, j, size)]),
                    product,
                ) && #[trigger] call_ensures(plus, (before, product), out)
        },
{
}

impl<T: Copy> SquareMatrix<T> {
    /// The matrix whose entries are `f` of the entries of this matrix.
    pub fn map<F>(&self, f: &F) -> (out: Self) where F: Fn(T) -> T
        requires
            forall|x: T| call_requires(*f, (x,)),
        ensures
            out.spec_size() == self.spec_size(),
            out.full(),
            forall|i: int, j: int|
                0 <= i < self.spec_size() && 0 <= j < self.spec_size() ==> call_ensures(
                    *f,
                    (self.at(i, j),),
                    #[trigger] out.at(i, j),
                ),
    {
        let n = self.size();
        let fill = |at: (usize, usize)| -> (entry: T)
            requires
                at.0 < n,
                at.1 < n,
            ensures
                call_ensures(*f, (self.at(at.0 as int, at.1 as int),), entry),
            { f(self.get(at.0, at.1)) };
        let out = Self::from_size_fn(n, fill);
        assert forall|i: int, j: int| 0 <= i < n && 0 <= j < n implies call_ensures(
            *f,
            (self.at(i, j),),
            #[trigger] out.at(i, j),
        ) by {
            let (row, column) = (i as usize, j as usize);
            assert(call_ensures(fill, ((row, column),), out.at(row as int, column as int)));
        }
        out
    }

    /// The matrix whose entries are `f` of the entries of this matrix and of `other` in
    /// the same place.
    pub fn zip<F>(&self, other: &SquareMatrix<T>, f: &F) -> (out: Self) where F: Fn(T, T) -> T
        requires
            self.spec_size() == other.spec_size(),
            forall|x: T, y: T| call_requires(*f, (x, y)),
        ensures
            out.spec_size() == self.spec_size(),
            out.full(),
            forall|i: int, j: int|
                0 <= i < self.spec_size() && 0 <= j < self.spec_size() ==> call_ensures(
                    *f,
                    (self.at(i, j), other.at(i, j)),
                    #[trigger] out.at(i, j),
                ),
    {
        let n = self.size();
        let _ = other.size();
        let fill = |at: (usize, usize)| -> (entry: T)
            requires
                at.0 < n,
                at.1 < n,
            ensures
                call_ensures(
                    *f,
                    (self.at(at.0 as int, at.1 as int), other.at(at.0 as int, at.1 as int)),
                    entry,
                ),
            { f(self.get(at.0, at.1), other.get(at.0, at.1)) };
        let out = Self::from_size_fn(n, fill);
        assert forall|i: int, j: int| 0 <= i < n && 0 <= j < n implies call_ensures(
            *f,
            (self.at(i, j), other.at(i, j)),
            #[trigger] out.at(i, j),
        ) by {
            let (row, column) = (i as usize, j as usize);
            assert(call_ensures(fill, ((row, column),), out.at(row as int, column as int)));
        }
        out
    }

    /// The matrix of the conjugates of the entries.
    pub fn conj<C>(&self, conj: &C) -> (out: Self) where C: Fn(T) -> T
        requires
            forall|x: T| call_requires(*conj, (x,)),
        ensures
            out.spec_size() == self.spec_size(),
            out.full(),
            forall|i: int, j: int|
                0 <= i < self.spec_size() && 0 <= j < self.spec_size() ==> call_ensures(
                    *conj,
                    (self.at(i, j),),
                    #[trigger] out.at(i, j),
                ),
    {
        self.map(conj)
    }

    /// The conjugate transpose: rows and columns change places, and every entry is
    /// conjugated.
    #[allow(non_snake_case)]
    pub fn H<C>(&self, conj: &C) -> (out: Self) where C: Fn(T) -> T
        requires
            forall|x: T| call_requires(*conj, (x,)),
        ensures
            out.spec_size() == self.spec_size(),
            out.full(),
            forall|i: int, j: int|
                0 <= i < self.spec_size() && 0 <= j < self.spec_size() ==> call_ensures(
                    *conj,
                    (self.at(j, i),),
                    #[trigger] out.at(i, j),
                ),
    {
        let n = self.size();
        let fill = |at: (usize, usize)| -> (entry: T)
            requires
                at.0 < n,
                at.1 < n,
            ensures
                call_ensures(*conj, (self.at(at.1 as int, at.0 as int),), entry),
            { conj(self.get(at.1, at.0)) };
        let out = Self::from_size_fn(n, fill);
        assert forall|i: int, j: int| 0 <= i < n && 0 <= j < n implies call_ensures(
            *conj,
            (self.at(j, i),),
            #[trigger] out.at(i, j),
        ) by {
            let (row, column) = (i as usize, j as usize);
            assert(call_ensures(fill, ((row, column),), out.at(row as int, column as int)));
        }
        out
    }

    /// The entry-wise product: every entry times the entry of `other` in the same place.
    pub fn multiply<X>(&self, other: &SquareMatrix<T>, times: &X) -> (out: Self) where X: Fn(T, T) -> T
        requires
            self.spec_size() == other.spec_size(),
            forall|x: T, y: T| call_requires(*times, (x, y)),
        ensures
            out.spec_size() == self.spec_size(),
            out.full(),
            forall|i: int, j: int|
                0 <= i < self.spec_size() && 0 <= j < self.spec_size() ==> call_ensures(
                    *times,
                    (self.at(i, j), other.at(i, j)),
                    #[trigger] out.at(i, j),
                ),
    {
        self.zip(other, times)
    }

    /// The tensor product `self ⊗ other`: for every entry of this matrix a block that
    /// holds the entry times every entry of `other`.
    pub fn kron<X>(&self, other: &SquareMatrix<T>, times: &X) -> (out: Self) where X: Fn(T, T) -> T
        requires
            (self.spec_size() * other.spec_size()) * (self.spec_size() * other.spec_size())
                <= usize::MAX,
            forall|x: T, y: T| call_requires(*times, (x, y)),
        ensures
            out.spec_size() == self.spec_size() * other.spec_size(),
            out.full(),
            forall|i: int, j: int, k: int, l: int|
                0 <= i < self.spec_size() && 0 <= j < self.spec_size() && 0 <= k
                    < other.spec_size() && 0 <= l < other.spec_size() ==> call_ensures(
                    *times,
                    (self.at(i, j), other.at(k, l)),
                    #[trigger] out.at(
                        cell(i, k, other.spec_size() as int),
                        cell(j, l, other.spec_size() as int),
                    ),
                ),
    {
        let row_a = self.size();
        let row_b = other.size();
        proof {
            assert(row_a * row_b <= (row_a * row_b) * (row_a * row_b)) by (nonlinear_arith)
                requires
                    row_a >= 0,
                    row_b >= 0,
            ;
        }
        let n = row_a * row_b;
        let fill = |at: (usize, usize)| -> (entry: T)
            requires
                at.0 < n,
                at.1 < n,
            ensures
                call_ensures(
                    *times,
                    (
                        self.at(at.0 as int / row_b as int, at.1 as int / row_b as int),
                        other.at(at.0 as int % row_b as int, at.1 as int % row_b as int),
                    ),
                    entry,
                ),
            {
                proof {
                    lemma_block(at.0 as int, row_a as int, row_b as int);
                    lemma_block(at.1 as int, row_a as int, row_b as int);
                }
                times(self.get(at.0 / row_b, at.1 / row_b), other.get(at.0 % row_b, at.1 % row_b))
            };
        let out = Self::from_size_fn(n, fill);
        assert forall|i: int, j: int, k: int, l: int|
            0 <= i < row_a && 0 <= j < row_a && 0 <= k < row_b && 0 <= l < row_b implies call_ensures(
            *times,
            (self.at(i, j), other.at(k, l)),
            #[trigger] out.at(cell(i, k, row_b as int), cell(j, l, row_b as int)),
        ) by {
            lemma_row_major(i, k, row_a as int, row_b as int);
            lemma_row_major(j, l, row_a as int, row_b as int);
            lemma_cell_unique(i, k, row_b as int);
            lemma_cell_unique(j, l, row_b as int);
            let r = cell(i, k, row_b as int) as usize;
            let c = cell(j, l, row_b as int) as usize;
            assert(call_ensures(fill, ((r, c),), out.at(r as int, c as int)));
        }
        out
    }

    /// The sum of all entries: they are added to `zero` one after the other, row by row.
    pub fn sum<A>(&self, zero: T, plus: &A) -> (out: T) where A: Fn(T, T) -> T
        requires
            forall|x: T, y: T| call_requires(*plus, (x, y)),
        ensures
            summed(*plus, self@, self@.len(), zero, out),
    {
        let mut out = zero;
        let mut k: usize = 0;
        while k < self.data.len()
            invariant
                k <= self.data@.len(),
                self.data@ == self@,
                forall|x: T, y: T| call_requires(*plus, (x, y)),
                summed(*plus, self@, k as nat, zero, out),
            decreases self.data.len() - k,
        {
            let ghost before = out;
            out = plus(out, self.data[k]);
            k += 1;
            proof {
                assert(self@[k - 1] == self.data@[k - 1]);
                assert(summed(*plus, self@, (k - 1) as nat, zero, before));
                assert(call_ensures(*plus, (before, self@[k - 1]), out));
            }
        }
        out
    }

    /// The Frobenius inner product with `other`: the sum over all places of the entry of
    /// this matrix times the conjugate of the entry of `other`, taken row by row.
    pub fn frobenius<C, X, A>(
        &self,
        other: &SquareMatrix<T>,
        zero: T,
        conj: &C,
        times: &X,
        plus: &A,
    ) -> (out: T) where C: Fn(T) -> T, X: Fn(T, T) -> T, A: Fn(T, T) -> T
        requires
            self.spec_size() == other.spec_size(),
            forall|x: T| call_requires(*conj, (x,)),
            forall|x: T, y: T| call_requires(*times, (x, y)),
            forall|x: T, y: T| call_requires(*plus, (x, y)),
        ensures
            paired(*conj, *times, *plus, self@, other@, self@.len(), zero, out),
    {
        proof {
            use_type_invariant(self);
            use_type_invariant(other);
        }
        let mut out = zero;
        let mut k: usize = 0;
        while k < self.data.len()
            invariant
                k <= self.data@.len() == other.data@.len(),
                self.data@ == self@,
                other.data@ == other@,
                forall|x: T| call_requires(*conj, (x,)),
                forall|x: T, y: T| call_requires(*times, (x, y)),
                forall|x: T, y: T| call_requires(*plus, (x, y)),
                paired(*conj, *times, *plus, self@, other@, k as nat, zero, out),
            decreases self.data.len() - k,
        {
            let ghost before = out;
            let conjugate = conj(other.data[k]);
            let product = times(self.data[k], conjugate);
            out = plus(out, product);
            k += 1;
            proof {
                assert(paired(*conj, *times, *plus, self@, other@, (k - 1) as nat, zero, before));
                assert(call_ensures(*conj, (other@[k - 1],), conjugate));
                assert(call_ensures(*times, (self@[k - 1], conjugate), product));
                assert(call_ensures(*plus, (before, product), out));
            }
        }
        out
    }

    /// Row `i` of this matrix times column `j` of `other`.
    fn dot_at<X, A>(
        &self,
        other: &SquareMatrix<T>,
        i: usize,
        j: usize,
        zero: T,
        times: &X,
        plus: &A,
    ) -> (out: T) where X: Fn(T, T) -> T, A: Fn(T, T) -> T
        requires
            self.spec_size() == other.spec_size(),
            i < self.spec_size(),
            j < self.spec_size(),
            forall|x: T, y: T| call_requires(*times, (x, y)),
            forall|x: T, y: T| call_requires(*plus, (x, y)),
        ensures
            dotted(
                *times,
                *plus,
                self@,
                other@,
                self.spec_size() as int,
                i as int,
                j as int,
                self.spec_size(),
                zero,
                out,
            ),
    {
        let n = self.size();
        let mut out = zero;
        let mut k: usize = 0;
        while k < n
            invariant
                k <= n == self.spec_size() == other.spec_size(),
                i < n,
                j < n,
                forall|x: T, y: T| call_requires(*times, (x, y)),
                forall|x: T, y: T| call_requires(*plus, (x, y)),
                dotted(*times, *plus, self@, other@, n as int, i as int, j as int, k as nat, zero, out),
            decreases n - k,
        {
            let product = times(self.get(i, k), other.get(k, j));
            out = plus(out, product);
            k += 1;
        }
        out
    }

    /// The matrix product `self · other`: the entry in row `i` and column `j` is row `i`
    /// of this matrix times column `j` of `other`, the products added to `zero` one after
    /// the other.
    pub fn matmul<X, A>(
        &self,
        other: &SquareMatrix<T>,
        zero: T,
        times: &X,
        plus: &A,
    ) -> (out: Self) where X: Fn(T, T) -> T, A: Fn(T, T) -> T

        requires
            self.spec_size() == other.spec_size(),
            forall|x: T, y: T| call_requires(*times, (x, y)),
            forall|x: T, y: T| call_requires(*plus, (x, y)),
        ensures
            out.spec_size() == self.spec_size(),
            out.full(),
            forall|i: int, j: int|
                0 <= i < self.spec_size() && 0 <= j < self.spec_size() ==> dotted(
                    *times,
                    *plus,
                    self@,
                    other@,
                    self.spec_size() as int,
                    i,
                    j,
                    self.spec_size(),
                    zero,
                    #[trigger] out.at(i, j),
                ),
    {
        let n = self.size();
        let fill = |at: (usize, usize)| -> (entry: T)
            requires
                at.0 < n,
                at.1 < n,
            ensures
                dotted(
                    *times,
                    *plus,
                    self@,
                    other@,
                    n as int,
                    at.0 as int,
                    at.1 as int,
                    n as nat,
                    zero,
                    entry,
                ),
            { self.dot_at(other, at.0, at.1, zero, times, plus) };
        let out = Self::from_size_fn(n, fill);
        assert forall|i: int, j: int| 0 <= i < n && 0 <= j < n implies dotted(
            *times,
            *plus,
            self@,
            other@,
            n as int,
            i,
            j,
            n as nat,
            zero,
            #[trigger] out.at(i, j),
        ) by {
            let (row, column) = (i as usize, j as usize);
            assert(call_ensures(fill, ((row, column),), out.at(row as int, column as int)));
        }
        out
    }

    /// The real parts and the imaginary parts of the entries, each row by row.
    pub fn split_complex<R, Re, Im>(&self, re: &Re, im: &Im) -> (out: (Vec<R>, Vec<R>)) where
        Re: Fn(T) -> R,
        Im: Fn(T) -> R,

        requires
            forall|x: T| call_requires(*re, (x,)),
            forall|x: T| call_requires(*im, (x,)),
        ensures
            out.0@.len() == self@.len(),
            out.1@.len() == self@.len(),
            forall|k: int| 0 <= k < self@.len() ==> call_ensures(*re, (self@[k],), #[trigger] out.0@[k]),
            forall|k: int| 0 <= k < self@.len() ==> call_ensures(*im, (self@[k],), #[trigger] out.1@[k]),
    {
        let mut rev: Vec<R> = Vec::with_capacity(self.data.len());
        let mut imv: Vec<R> = Vec::with_capacity(self.data.len());
        let mut k: usize = 0;
        while k < self.data.len()
            invariant
                k <= self.data@.len(),
                self.data@ == self@,
                forall|x: T| call_requires(*re, (x,)),
                forall|x: T| call_requires(*im, (x,)),
                rev@.len() == k,
                imv@.len() == k,
                forall|q: int| 0 <= q < k ==> call_ensures(*re, (self@[q],), #[trigger] rev@[q]),
                forall|q: int| 0 <= q < k ==> call_ensures(*im, (self@[q],), #[trigger] imv@[q]),
            decreases self.data.len() - k,
        {
            rev.push(re(self.data[k]));
            imv.push(im(self.data[k]));
            k += 1;
        }
        (rev, imv)
    }
}

/// A row of a tensor product belongs to one row of the left factor and one row of the
/// right factor.
proof fn lemma_block(position: int, rows: int, columns: int)
    requires
        0 <= position < rows * columns,
        0 <= rows,
        0 <= columns,
    ensures
        columns > 0,
        0 <= position / columns < rows,
        0 <= position % columns < columns,
{
    if columns == 0 {
        assert(rows * columns == 0) by (nonlinear_arith)
            requires
                columns == 0,
        ;
    }
    vstd::arithmetic::div_mod::lemma_fundamental_div_mod(position, columns);
    vstd::arithmetic::div_mod::lemma_div_pos_is_pos(position, columns);
    vstd::arithmetic::div_mod::lemma_mod_bound(position, columns);
    let q = position / columns;
    if q >= rows {
        assert(q * columns >= rows * columns) by (nonlinear_arith)
            requires
                q >= rows,
                columns > 0,
        ;
        assert(columns * q == q * columns) by (nonlinear_arith);
    }
}

} // verus!
