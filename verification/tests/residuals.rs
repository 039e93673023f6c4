use num_complex::Complex64;
use qsrs::residuals::{matrix_residuals, matrix_residuals_jac};
use qsrs::squaremat::SquareMatrix;

fn re(z: Complex64) -> f64 {
    z.re
}

fn im(z: Complex64) -> f64 {
    z.im
}

fn less(a: f64, b: f64) -> f64 {
    a - b
}

fn c(re: f64, im: f64) -> Complex64 {
    Complex64::new(re, im)
}

fn identity(size: usize) -> SquareMatrix<f64> {
    SquareMatrix::eye(size, 0.0, 1.0)
}

#[test]
fn residuals_stack_real_parts_before_imaginary_parts() {
    let product =
        SquareMatrix::from_vec(vec![c(1.0, 2.0), c(3.0, 4.0), c(5.0, 6.0), c(7.0, 8.0)], 2);
    let residuals = matrix_residuals(&product, &identity(2), &re, &im, &less);
    assert_eq!(residuals, vec![0.0, 3.0, 5.0, 6.0, 2.0, 4.0, 6.0, 8.0]);
}

#[test]
fn residuals_of_the_identity_vanish() {
    let product = SquareMatrix::eye(3, c(0.0, 0.0), c(1.0, 0.0));
    let residuals = matrix_residuals(&product, &identity(3), &re, &im, &less);
    assert_eq!(residuals.len(), 18);
    assert!(residuals.iter().all(|r| *r == 0.0));
}

#[test]
fn residuals_of_a_target_against_itself_vanish() {
    // M · U* for M = U, with U the Hadamard gate
    let h = 0.5f64.sqrt();
    let u = SquareMatrix::from_vec(vec![c(h, 0.0), c(h, 0.0), c(h, 0.0), c(-h, 0.0)], 2);
    let times = |a: Complex64, b: Complex64| a * b;
    let plus = |a: Complex64, b: Complex64| a + b;
    let conj = |a: Complex64| a.conj();
    let product = u.matmul(&u.H(&conj), c(0.0, 0.0), &times, &plus);
    let residuals = matrix_residuals(&product, &identity(2), &re, &im, &less);
    assert!(residuals.iter().all(|r| r.abs() < 1e-15));
}

#[test]
fn the_jacobian_has_a_row_for_every_residual_and_a_column_for_every_parameter() {
    let first =
        SquareMatrix::from_vec(vec![c(1.0, 2.0), c(3.0, 4.0), c(5.0, 6.0), c(7.0, 8.0)], 2);
    let second = SquareMatrix::from_vec(
        vec![c(10.0, 20.0), c(30.0, 40.0), c(50.0, 60.0), c(70.0, 80.0)],
        2,
    );
    let third = SquareMatrix::from_vec(vec![c(0.1, 0.2), c(0.3, 0.4), c(0.5, 0.6), c(0.7, 0.8)], 2);
    let jacobian = matrix_residuals_jac(&vec![first, second, third], 2, &re, &im);
    assert_eq!(
        jacobian,
        vec![
            1.0, 10.0, 0.1, //
            3.0, 30.0, 0.3, //
            5.0, 50.0, 0.5, //
            7.0, 70.0, 0.7, //
            2.0, 20.0, 0.2, //
            4.0, 40.0, 0.4, //
            6.0, 60.0, 0.6, //
            8.0, 80.0, 0.8,
        ]
    );
}

#[test]
fn a_circuit_without_parameters_has_an_empty_jacobian() {
    let none: Vec<SquareMatrix<Complex64>> = Vec::new();
    assert!(matrix_residuals_jac(&none, 2, &re, &im).is_empty());
}
