//! The residual vector of the least-squares objective and its Jacobian, as they are laid
//! out for the solver.
//!
//! With a target `U` and the matrix `M` of a circuit, the residuals are the entries of
//! `M · U* − I`: first their real parts, row by row, then their imaginary parts. The
//! Jacobian has a row for every residual and a column for every parameter; column `k`
//! holds the entries of `J_k · U*`, laid out as the residuals are.
use vstd::prelude::*;
use crate::layout::{cell, lemma_row_major};
use crate::squaremat::SquareMatrix;

verus! {

/// `out` is entry `k` of the residual vector of `product`: for the first half, a real
/// part less the entry of `identity` in the same place; for the second half, an
/// imaginary part.
pub open spec fn residual_at<T, R, Re, Im, S>(
    re: Re,
    im: Im,
    minus: S,
    product: Seq<T>,
    identity: Seq<R>,
    k: int,
    out: R,
) -> bool where Re: Fn(T) -> R, Im: Fn(T) -> R, S: Fn(R, R) -> R {
    if k < product.len() {
        exists|real_part: R|
            call_ensures(re, (product[k],), real_part) && #[trigger] call_ensures(
                minus,
                (real_part, identity[k]),
                out,
            )
    } else {
        call_ensures(im, (product[k - product.len()],), out)
    }
}

/// The residual vector of `product`, which is the matrix of a circuit times the
/// conjugate transpose of the target: the real parts of `product − identity`, row by
/// row, followed by the imaginary parts of `product`.
pub fn matrix_residuals<T, R, Re, Im, S>(
    product: &SquareMatrix<T>,
    identity: &SquareMatrix<R>,
    re: &Re,
    im: &Im,
    minus: &S,
) -> (out: Vec<R>) where T: Copy, R: Copy, Re: Fn(T) -> R, Im: Fn(T) -> R, S: Fn(R, R) -> R
    requires
        product.spec_size() == identity.spec_size(),
        forall|x: T| call_requires(*re, (x,)),
        forall|x: T| call_requires(*im, (x,)),
        forall|x: R, y: R| call_requires(*minus, (x, y)),
    ensures
        out@.len() == 2 * product@.len(),
        forall|k: int|
            0 <= k < out@.len() ==> residual_at(
                *re,
                *im,
                *minus,
                product@,
                identity@,
                k,
                #[trigger] out@[k],
            ),
{
    let entries = product.as_slice();
    let ones = identity.as_slice();
    let n = entries.len();
    let mut out: Vec<R> = Vec::new();
    let mut k: usize = 0;
    while k < n
        invariant
            k <= n == entries@.len() == ones@.len(),
            entries@ == product@,
            ones@ == identity@,
            forall|x: T| call_requires(*re, (x,)),
            forall|x: R, y: R| call_requires(*minus, (x, y)),
            out@.len() == k,
            forall|q: int|
                0 <= q < k ==> residual_at(
                    *re,
                    *im,
                    *minus,
                    product@,
                    identity@,
                    q,
                    #[trigger] out@[q],
                ),
        decreases n - k,
    {
        let real_part = re(entries[k]);
        let residual = minus(real_part, ones[k]);
        out.push(residual);
        k += 1;
    }
    let mut k: usize = 0;
    while k < n
        invariant
            k <= n == entries@.len(),
            entries@ == product@,
            forall|x: T| call_requires(*im, (x,)),
            out@.len() == n + k,
            forall|q: int|
                0 <= q < n + k ==> residual_at(
                    *re,
                    *im,
                    *minus,
                    product@,
                    identity@,
                    q,
                    #[trigger] out@[q],
                ),
        decreases n - k,
    {
        out.push(im(entries[k]));
        k += 1;
    }
    out
}

/// `out` is a part of entry `r` of `product`, laid out as the residuals are: for the
/// first half of the places a real part, for the second half an imaginary part.
pub open spec fn part_at<T, R, Re, Im>(re: Re, im: Im, product: Seq<T>, r: int, out: R) -> bool where
    Re: Fn(T) -> R,
    Im: Fn(T) -> R,
 {
    if r < product.len() {
        call_ensures(re, (product[r],), out)
    } else {
        call_ensures(im, (product[r - product.len()],), out)
    }
}

/// The Jacobian of the residuals, row by row: a row for every residual and a column for
/// every parameter. `products[k]` is the derivative of the circuit's matrix with respect
/// to parameter `k` times the conjugate transpose of the target, and `size` is the
/// number of rows of the target.
pub fn matrix_residuals_jac<T, R, Re, Im>(
    products: &Vec<SquareMatrix<T>>,
    size: usize,
    re: &Re,
    im: &Im,
) -> (out: Vec<R>) where T: Copy, R: Copy, Re: Fn(T) -> R, Im: Fn(T) -> R
    requires
        2 * (size * size) * products@.len() <= usize::MAX,
        2 * (size * size) <= usize::MAX,
        forall|k: int| 0 <= k < products@.len() ==> (#[trigger] products@[k]).spec_size() == size,
        forall|x: T| call_requires(*re, (x,)),
        forall|x: T| call_requires(*im, (x,)),
    ensures
        out@.len() == 2 * (size * size) * products@.len(),
        forall|r: int, k: int|
            0 <= r < 2 * (size * size) && 0 <= k < products@.len() ==> part_at(
                *re,
                *im,
                products@[k]@,
                r,
                out@[#[trigger] cell(r, k, products@.len() as int)],
            ),
{
    let p = products.len();
    let rows = 2 * (size * size);
    let half = size * size;
    let mut out: Vec<R> = Vec::new();
    let mut r: usize = 0;
    while r < rows
        invariant
            r <= rows == 2 * (size * size),
            half == size * size,
            p == products@.len(),
            rows * p <= usize::MAX,
            forall|k: int| 0 <= k < products@.len() ==> (#[trigger] products@[k]).spec_size() == size,
            forall|x: T| call_requires(*re, (x,)),
            forall|x: T| call_requires(*im, (x,)),
            out@.len() == r * p,
            forall|x: int, k: int|
                0 <= x < r && 0 <= k < p ==> part_at(
                    *re,
                    *im,
                    products@[k]@,
                    x,
                    out@[#[trigger] cell(x, k, p as int)],
                ),
        decreases rows - r,
    {
        let mut k: usize = 0;
        while k < p
            invariant
                r < rows == 2 * (size * size),
                half == size * size,
                k <= p == products@.len(),
                rows * p <= usize::MAX,
                forall|k: int|
                    0 <= k < products@.len() ==> (#[trigger] products@[k]).spec_size() == size,
                forall|x: T| call_requires(*re, (x,)),
                forall|x: T| call_requires(*im, (x,)),
                out@.len() == r * p + k,
                forall|x: int, y: int|
                    0 <= x < r && 0 <= y < p ==> part_at(
                        *re,
                        *im,
                        products@[y]@,
                        x,
                        out@[#[trigger] cell(x, y, p as int)],
                    ),
                forall|y: int|
                    0 <= y < k ==> part_at(
                        *re,
                        *im,
                        products@[y]@,
                        r as int,
                        out@[#[trigger] cell(r as int, y, p as int)],
                    ),
            decreases p - k,
        {
            let ghost before = out@;
            let entries = products[k].as_slice();
            assert(products@[k as int].spec_size() == size);
            let part = if r < half {
                re(entries[r])
            } else {
                im(entries[r - half])
            };
            out.push(part);
            proof {
                assert forall|x: int, y: int| 0 <= x < r && 0 <= y < p implies part_at(
                    *re,
                    *im,
                    products@[y]@,
                    x,
                    out@[#[trigger] cell(x, y, p as int)],
                ) by {
                    lemma_row_major(x, y, r as int, p as int);
                    assert(out@[cell(x, y, p as int)] == before[cell(x, y, p as int)]);
                }
                assert forall|y: int| 0 <= y < k + 1 implies part_at(
                    *re,
                    *im,
                    products@[y]@,
                    r as int,
                    out@[#[trigger] cell(r as int, y, p as int)],
                ) by {
                    if y < k {
                        assert(out@[cell(r as int, y, p as int)] == before[cell(
                            r as int,
                            y,
                            p as int,
                        )]);
                    }
                }
            }
            k += 1;
        }
        proof {
            assert((r + 1) * p == r * p + p) by (nonlinear_arith);
        }
        r += 1;
    }
    out
}

} // verus!
