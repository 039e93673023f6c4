//! The search and the algebra of gates at work on small targets, with a numeric backend and
//! a quasi-Newton minimizer of a few lines.

use num_complex::Complex64;
use qsrs::circuits::Gate;
use qsrs::compiler::SearchCompiler;
use qsrs::gatesets::{ConstantGate, GateSetLinearCNOT, Gateset};
use qsrs::kernels::{ClosedForm, Kernels};
use qsrs::search::{expand, Best, Search};
use qsrs::squaremat::SquareMatrix;
use std::f64::consts::PI;

type Matrix = SquareMatrix<Complex64>;

fn c(re: f64, im: f64) -> Complex64 {
    Complex64::new(re, im)
}

fn times(a: Complex64, b: Complex64) -> Complex64 {
    a * b
}

fn plus(a: Complex64, b: Complex64) -> Complex64 {
    a + b
}

fn conj(a: Complex64) -> Complex64 {
    a.conj()
}

fn kron(a: &Matrix, b: &Matrix) -> Matrix {
    a.kron(b, &times)
}

fn matmul(a: &Matrix, b: &Matrix) -> Matrix {
    a.matmul(b, c(0.0, 0.0), &times, &plus)
}

fn rot_x(theta: f64) -> Matrix {
    let (s, co) = (theta / 2.0).sin_cos();
    Matrix::from_vec(vec![c(co, 0.0), c(0.0, -s), c(0.0, -s), c(co, 0.0)], 2)
}

fn rot_z(theta: f64, partial: Option<usize>) -> Matrix {
    let (s, co) = (theta / 2.0).sin_cos();
    let zero = c(0.0, 0.0);
    match partial {
        None => Matrix::from_vec(vec![c(co, -s), zero, zero, c(co, s)], 2),
        Some(_) => Matrix::from_vec(vec![0.5 * c(-s, -co), zero, zero, 0.5 * c(-s, co)], 2),
    }
}

fn u3(v: &[f64], partial: Option<usize>) -> Matrix {
    let (st, ct) = (v[0] / 2.0).sin_cos();
    let ep = c(v[1].cos(), v[1].sin());
    let el = c(v[2].cos(), v[2].sin());
    let i = c(0.0, 1.0);
    let zero = c(0.0, 0.0);
    let entries = match partial {
        None => vec![c(ct, 0.0), -st * el, st * ep, ct * ep * el],
        Some(0) => vec![c(-0.5 * st, 0.0), -0.5 * ct * el, 0.5 * ct * ep, -0.5 * st * ep * el],
        Some(1) => vec![zero, zero, st * i * ep, ct * i * ep * el],
        Some(_) => vec![zero, -st * i * el, zero, ct * i * ep * el],
    };
    Matrix::from_vec(entries, 2)
}

fn closed_form(form: ClosedForm, params: &[f64], partial: Option<usize>) -> Matrix {
    match form {
        ClosedForm::U3 => u3(params, partial),
        ClosedForm::Z => rot_z(params[0], partial),
        other => panic!("{:?} is not part of this backend", other),
    }
}

type Backend = Kernels<
    fn(ClosedForm, &[f64], Option<usize>) -> Matrix,
    fn(&Matrix, &Matrix) -> Matrix,
    fn(&Matrix, &Matrix) -> Matrix,
>;

fn backend() -> Backend {
    Kernels { closed_form, kron, matmul }
}

fn cnot() -> Matrix {
    let (o, n) = (c(1.0, 0.0), c(0.0, 0.0));
    Matrix::from_vec(vec![o, n, n, n, n, o, n, n, n, n, n, o, n, n, o, n], 4)
}

fn table(described: &[ConstantGate]) -> Vec<Matrix> {
    described
        .iter()
        .map(|constant| match constant {
            ConstantGate::Cnot => cnot(),
            ConstantGate::QuarterTurnX => rot_x(PI / 2.0),
            ConstantGate::Identity { size } => Matrix::eye(*size, c(0.0, 0.0), c(1.0, 0.0)),
            other => panic!("{:?} is not part of this backend", other),
        })
        .collect()
}

fn trace(u: &Matrix, m: &Matrix) -> Complex64 {
    u.frobenius(m, c(0.0, 0.0), &conj, &times, &plus)
}

fn distance(u: &Matrix, m: &Matrix) -> f64 {
    let d = u.size() as f64;
    1.0 - trace(u, m).norm_sqr() / (d * d)
}

fn distance_and_gradient(circuit: &Gate, table: &[Matrix], u: &Matrix, x: &[f64]) -> (f64, Vec<f64>) {
    let (m, jacs) = circuit.mat_jac(x, table, &backend());
    let d = u.size() as f64;
    let s = trace(u, &m);
    let gradient = jacs
        .iter()
        .map(|j| {
            let r = trace(u, j);
            -2.0 * (r.re * s.re + r.im * s.im) / (d * d)
        })
        .collect();
    (1.0 - s.norm_sqr() / (d * d), gradient)
}

struct Lcg(u64);

impl Lcg {
    fn next(&mut self) -> f64 {
        self.0 = self.0.wrapping_mul(6364136223846793005).wrapping_add(1442695040888963407);
        ((self.0 >> 11) as f64) / ((1u64 << 53) as f64)
    }
}

fn dot(a: &[f64], b: &[f64]) -> f64 {
    a.iter().zip(b).map(|(x, y)| x * y).sum()
}

/// A quasi-Newton descent from `x`.
fn descend(circuit: &Gate, table: &[Matrix], u: &Matrix, mut x: Vec<f64>) -> (f64, Vec<f64>) {
    let n = x.len();
    let mut h = vec![vec![0.0; n]; n];
    for (i, row) in h.iter_mut().enumerate() {
        row[i] = 1.0;
    }
    let (mut f, mut g) = distance_and_gradient(circuit, table, u, &x);
    for _ in 0..400 {
        if f < 1e-13 || dot(&g, &g).sqrt() < 1e-13 {
            break;
        }
        let mut p: Vec<f64> = h.iter().map(|row| -dot(row, &g)).collect();
        if dot(&p, &g) >= 0.0 {
            p = g.iter().map(|gi| -gi).collect();
        }
        let slope = dot(&p, &g);
        let mut step = 1.0;
        let mut taken = None;
        for _ in 0..40 {
            let y: Vec<f64> = x.iter().zip(&p).map(|(xi, pi)| xi + step * pi).collect();
            let (fy, gy) = distance_and_gradient(circuit, table, u, &y);
            if fy <= f + 1e-4 * step * slope {
                taken = Some((y, fy, gy));
                break;
            }
            step *= 0.5;
        }
        let (y, fy, gy) = match taken {
            Some(found) => found,
            None => break,
        };
        let s: Vec<f64> = y.iter().zip(&x).map(|(a, b)| a - b).collect();
        let d: Vec<f64> = gy.iter().zip(&g).map(|(a, b)| a - b).collect();
        let sd = dot(&s, &d);
        if sd > 1e-14 {
            let hd: Vec<f64> = h.iter().map(|row| dot(row, &d)).collect();
            let dhd = dot(&d, &hd);
            for i in 0..n {
                for j in 0..n {
                    h[i][j] += (1.0 + dhd / sd) * s[i] * s[j] / sd - (hd[i] * s[j] + s[i] * hd[j]) / sd;
                }
            }
        }
        x = y;
        f = fy;
        g = gy;
    }
    (f, x)
}

/// The inner solver: the best of a few descents from scattered starts.
fn solve(circuit: &Gate, table: &[Matrix], u: &Matrix, seed: u64) -> (f64, Vec<f64>, Matrix) {
    let mut random = Lcg(seed);
    let mut best: Option<(f64, Vec<f64>)> = None;
    for _ in 0..12 {
        let start: Vec<f64> = (0..circuit.inputs()).map(|_| 2.0 * PI * random.next()).collect();
        let (f, x) = descend(circuit, table, u, start);
        if best.as_ref().map_or(true, |(b, _)| f < *b) {
            best = Some((f, x));
        }
        if best.as_ref().unwrap().0 < 1e-12 {
            break;
        }
    }
    let (_, x) = best.unwrap();
    let m = circuit.mat(&x, table, &backend());
    (distance(u, &m), x, m)
}

fn distance_key(x: f64) -> u64 {
    let bits = x.to_bits();
    if bits >> 63 == 1 {
        !bits
    } else {
        bits | (1 << 63)
    }
}

fn key_distance(key: u64) -> f64 {
    if key >> 63 == 1 {
        f64::from_bits(key & !(1 << 63))
    } else {
        f64::from_bits(!key)
    }
}

fn astar(distance: u64, depth: usize) -> u64 {
    distance_key(10.0 * key_distance(distance) + depth as f64)
}

fn synthesize(u: &Matrix, threshold: f64, max_depth: Option<usize>) -> Best<Vec<f64>, Matrix> {
    let compiler = SearchCompiler::new(distance_key(threshold), GateSetLinearCNOT::new(), Some(1));
    let dits = compiler.qudits(u.size()).expect("the target has no qubit count");
    let layers = compiler.gateset.search_layers(dits);
    let table = table(&compiler.gateset.constant_gates());
    let beams = compiler.beam_factor(layers.len());
    let root = compiler.root(dits);
    let mut seed = 1;
    let (d, x, m) = solve(&Gate::Product(root.clone()), &table, u, seed);
    let mut search =
        Search::start(compiler.threshold, max_depth, beams, root, distance_key(d), x, m, &astar);
    while !search.finished() {
        let popped = search.next_batch();
        assert!(!popped.is_empty());
        for child in expand(&popped, &layers) {
            seed += 1;
            let circuit = Gate::Product(child.circuit.clone());
            assert!(circuit.fits(table.len()));
            let (d, x, m) = solve(&circuit, &table, u, seed);
            let before = search.best().distance;
            search.record(child, distance_key(d), x, m, &astar);
            assert!(search.best().distance <= before || search.best().distance < compiler.threshold);
        }
    }
    search.into_best()
}

#[test]
fn order_keys_compare_as_the_distances_do() {
    let distances = [-1.0, -1e-17, -0.0, 0.0, 1e-300, 1e-10, 0.5, 1.0, 7.0, f64::INFINITY];
    for pair in distances.windows(2) {
        assert!(distance_key(pair[0]) <= distance_key(pair[1]), "{:?}", pair);
    }
    for d in distances {
        assert_eq!(key_distance(distance_key(d)), d);
    }
    assert_eq!(key_distance(astar(distance_key(0.25), 3)), 5.5);
}

#[test]
fn the_gradient_of_the_distance_agrees_with_central_differences() {
    let gateset = GateSetLinearCNOT::new();
    let table = table(&gateset.constant_gates());
    let circuit = Gate::Product(
        SearchCompiler::new(0, GateSetLinearCNOT::new(), None)
            .root(2)
            .append(gateset.search_layers(2).remove(0).0),
    );
    assert_eq!(circuit.inputs(), 11);
    let mut random = Lcg(7);
    let target_at: Vec<f64> = (0..11).map(|_| 2.0 * PI * random.next()).collect();
    let u = circuit.mat(&target_at, &table, &backend());
    let x: Vec<f64> = (0..11).map(|_| 2.0 * PI * random.next()).collect();
    let (f, gradient) = distance_and_gradient(&circuit, &table, &u, &x);
    assert!((f - distance(&u, &circuit.mat(&x, &table, &backend()))).abs() < 1e-15);
    let h = 1e-6;
    for k in 0..11 {
        let mut up = x.clone();
        up[k] += h;
        let mut down = x.clone();
        down[k] -= h;
        let estimate = (distance(&u, &circuit.mat(&up, &table, &backend()))
            - distance(&u, &circuit.mat(&down, &table, &backend())))
            / (2.0 * h);
        assert!((estimate - gradient[k]).abs() < 1e-6, "parameter {}", k);
    }
}

#[test]
fn the_jacobian_of_a_search_layer_agrees_with_central_differences() {
    let gateset = GateSetLinearCNOT::new();
    let table = table(&gateset.constant_gates());
    let circuit = gateset.search_layers(3).remove(1).0;
    let mut random = Lcg(11);
    let x: Vec<f64> = (0..circuit.inputs()).map(|_| 2.0 * PI * random.next()).collect();
    let (m, jacs) = circuit.mat_jac(&x, &table, &backend());
    assert_eq!(m.size(), 8);
    assert_eq!(jacs.len(), 5);
    let h = 1e-7;
    for (k, jac) in jacs.iter().enumerate() {
        let mut up = x.clone();
        up[k] += h;
        let mut down = x.clone();
        down[k] -= h;
        let hi = circuit.mat(&up, &table, &backend());
        let lo = circuit.mat(&down, &table, &backend());
        let error: f64 = hi
            .as_slice()
            .iter()
            .zip(lo.as_slice())
            .zip(jac.as_slice())
            .map(|((a, b), j)| ((a - b) / (2.0 * h) - j).norm_sqr())
            .sum();
        assert!(error.sqrt() < 1e-5, "parameter {}", k);
    }
}

#[test]
fn the_matrix_of_a_circuit_is_unitary() {
    let gateset = GateSetLinearCNOT::new();
    let table = table(&gateset.constant_gates());
    let circuit = Gate::Product(
        SearchCompiler::new(0, GateSetLinearCNOT::new(), None)
            .root(3)
            .append(gateset.search_layers(3).remove(0).0)
            .append(gateset.search_layers(3).remove(1).0),
    );
    let mut random = Lcg(3);
    let x: Vec<f64> = (0..circuit.inputs()).map(|_| 2.0 * PI * random.next()).collect();
    let m = circuit.mat(&x, &table, &backend());
    assert!(distance(&m, &m).abs() < 1e-14);
    let product = matmul(&m, &m.H(&conj));
    let eye = Matrix::eye(8, c(0.0, 0.0), c(1.0, 0.0));
    for (a, b) in product.as_slice().iter().zip(eye.as_slice()) {
        assert!((a - b).norm() < 1e-14);
    }
}

#[test]
fn identity_target() {
    let u = Matrix::eye(4, c(0.0, 0.0), c(1.0, 0.0));
    let best = synthesize(&u, 1e-10, Some(0));
    assert_eq!(best.depth, 0);
    assert!(key_distance(best.distance) < 1e-10);
    assert_eq!(best.circuit, SearchCompiler::new(0, GateSetLinearCNOT::new(), None).root(2));
    assert_eq!(best.params.len(), 6);
    assert!(distance(&u, &best.matrix) < 1e-10);
}

#[test]
fn cnot_target() {
    let u = cnot();
    let best = synthesize(&u, 1e-10, None);
    assert_eq!(best.depth, 1);
    assert!(key_distance(best.distance) < 1e-10);
    assert_eq!(best.circuit.substeps().len(), 2);
    assert_eq!(best.params.len(), 11);
    let again = Gate::Product(best.circuit.clone()).mat(
        &best.params,
        &table(&GateSetLinearCNOT::new().constant_gates()),
        &backend(),
    );
    assert!(distance(&u, &again) < 1e-10);
}

#[test]
fn two_qubit_qft() {
    let half = c(0.5, 0.0);
    let i = c(0.0, 0.5);
    let u = Matrix::from_vec(
        vec![
            half, half, half, half, //
            half, i, -half, -i, //
            half, -half, half, -half, //
            half, -i, -half, i,
        ],
        4,
    );
    let best = synthesize(&u, 1e-10, Some(3));
    assert!(best.depth <= 3);
    assert!(key_distance(best.distance) < 1e-10, "{}", key_distance(best.distance));
}
