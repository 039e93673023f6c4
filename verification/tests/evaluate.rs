use qsrs::circuits::{
    Gate, GateCNOT, GateConstantUnitary, GateIdentity, GateKronecker, GateProduct,
    GateSingleQutrit, GateU1, GateU2, GateU3, GateX, GateXZXZ, GateY, GateZ, GateZXZXZ,
};
use qsrs::kernels::{ClosedForm, Kernels};

// A backend that writes down what it is asked for.

fn written_closed(form: ClosedForm, params: &[f64], partial: Option<usize>) -> String {
    let args: Vec<String> = params.iter().map(|p| format!("{}", p)).collect();
    match partial {
        None => format!("{:?}({})", form, args.join(",")),
        Some(k) => format!("d{}{:?}({})", k, form, args.join(",")),
    }
}

fn written_kron(a: &String, b: &String) -> String {
    format!("({}⊗{})", a, b)
}

fn written_matmul(a: &String, b: &String) -> String {
    format!("({}·{})", a, b)
}

type Written = Kernels<
    fn(ClosedForm, &[f64], Option<usize>) -> String,
    fn(&String, &String) -> String,
    fn(&String, &String) -> String,
>;

fn written() -> Written {
    Kernels { closed_form: written_closed, kron: written_kron, matmul: written_matmul }
}

fn table() -> Vec<String> {
    vec!["CNOT".to_string(), "X90".to_string(), "I".to_string()]
}

fn u3() -> Gate {
    Gate::U3(GateU3::new())
}

fn z() -> Gate {
    Gate::Z(GateZ::new())
}

#[test]
fn constant_gates_are_copies_of_their_table_entries() {
    let k = written();
    let t = table();
    assert_eq!(Gate::CNOT(GateCNOT::new(0)).mat(&[], &t, &k), "CNOT");
    assert_eq!(Gate::Identity(GateIdentity::new(2)).mat(&[], &t, &k), "I");
    assert_eq!(Gate::ConstantUnitary(GateConstantUnitary::new(1, 1)).mat(&[], &t, &k), "X90");
    let (m, jac) = Gate::CNOT(GateCNOT::new(0)).mat_jac(&[], &t, &k);
    assert_eq!(m, "CNOT");
    assert!(jac.is_empty());
    let (m, jac) = Gate::Identity(GateIdentity::new(2)).mat_jac(&[], &t, &k);
    assert_eq!(m, "I");
    assert!(jac.is_empty());
    let (m, jac) = Gate::ConstantUnitary(GateConstantUnitary::new(1, 1)).mat_jac(&[], &t, &k);
    assert_eq!(m, "X90");
    assert!(jac.is_empty());
}

#[test]
fn closed_forms_are_asked_of_the_backend_with_their_own_parameters() {
    let k = written();
    let t = table();
    let v = [0.5, 1.5, 2.5, 3.5, 4.5, 5.5, 6.5, 7.5];
    assert_eq!(u3().mat(&v, &t, &k), "U3(0.5,1.5,2.5)");
    assert_eq!(Gate::U2(GateU2::new()).mat(&v, &t, &k), "U2(0.5,1.5)");
    assert_eq!(Gate::U1(GateU1::new()).mat(&v, &t, &k), "U1(0.5)");
    assert_eq!(Gate::X(GateX::new()).mat(&v, &t, &k), "X(0.5)");
    assert_eq!(Gate::Y(GateY::new()).mat(&v, &t, &k), "Y(0.5)");
    assert_eq!(z().mat(&v, &t, &k), "Z(0.5)");
    assert_eq!(
        Gate::SingleQutrit(GateSingleQutrit::new()).mat(&v, &t, &k),
        "SingleQutrit(0.5,1.5,2.5,3.5,4.5,5.5,6.5,7.5)"
    );
}

#[test]
fn jacobian_of_a_closed_form_has_one_matrix_for_each_parameter_in_order() {
    let k = written();
    let t = table();
    let (m, jac) = u3().mat_jac(&[1.0, 2.0, 3.0], &t, &k);
    assert_eq!(m, "U3(1,2,3)");
    assert_eq!(jac, vec!["d0U3(1,2,3)", "d1U3(1,2,3)", "d2U3(1,2,3)"]);
    let (_, jac) = Gate::SingleQutrit(GateSingleQutrit::new()).mat_jac(
        &[0.0, 1.0, 2.0, 3.0, 4.0, 5.0, 6.0, 7.0],
        &t,
        &k,
    );
    assert_eq!(jac.len(), 8);
    assert_eq!(jac[7], "d7SingleQutrit(0,1,2,3,4,5,6,7)");
}

#[test]
fn xzxz_is_two_rotations_around_the_quarter_turn() {
    let k = written();
    let t = table();
    let gate = Gate::XZXZ(GateXZXZ::new(1));
    assert_eq!(gate.mat(&[1.0, 2.0], &t, &k), "(Z(2)·(X90·(Z(1)·X90)))");
    let (m, jac) = gate.mat_jac(&[1.0, 2.0], &t, &k);
    assert_eq!(m, "(Z(2)·(X90·(Z(1)·X90)))");
    assert_eq!(jac, vec!["(Z(2)·(X90·(d0Z(1)·X90)))", "(d0Z(2)·(X90·(Z(1)·X90)))"]);
}

#[test]
fn zxzxz_is_three_rotations_around_the_quarter_turn() {
    let k = written();
    let t = table();
    let gate = Gate::ZXZXZ(GateZXZXZ::new(1));
    assert_eq!(gate.mat(&[1.0, 2.0, 3.0], &t, &k), "(Z(3)·(X90·(Z(2)·(X90·Z(1)))))");
    let (m, jac) = gate.mat_jac(&[1.0, 2.0, 3.0], &t, &k);
    assert_eq!(m, "(Z(3)·(X90·(Z(2)·(X90·Z(1)))))");
    assert_eq!(
        jac,
        vec![
            "(Z(3)·(X90·(Z(2)·(X90·d0Z(1)))))",
            "(Z(3)·(X90·(d0Z(2)·(X90·Z(1)))))",
            "(d0Z(3)·(X90·(Z(2)·(X90·Z(1)))))",
        ]
    );
}

#[test]
fn kronecker_of_two_gates_is_the_tensor_product_of_their_matrices() {
    let k = written();
    let t = table();
    let pair = Gate::Kronecker(GateKronecker::new(vec![u3(), z()]));
    let whole = pair.mat(&[1.0, 2.0, 3.0, 4.0], &t, &k);
    let left = u3().mat(&[1.0, 2.0, 3.0], &t, &k);
    let right = z().mat(&[4.0], &t, &k);
    assert_eq!(whole, written_kron(&left, &right));
    assert_eq!(whole, "(U3(1,2,3)⊗Z(4))");
}

#[test]
fn product_of_two_gates_is_the_second_matrix_times_the_first() {
    let k = written();
    let t = table();
    let pair = Gate::Product(GateProduct::new(vec![u3(), z()]));
    let whole = pair.mat(&[1.0, 2.0, 3.0, 4.0], &t, &k);
    let first = u3().mat(&[1.0, 2.0, 3.0], &t, &k);
    let second = z().mat(&[4.0], &t, &k);
    assert_eq!(whole, written_matmul(&second, &first));
    assert_eq!(whole, "(Z(4)·U3(1,2,3))");
}

#[test]
fn kronecker_folds_from_the_left() {
    let k = written();
    let t = table();
    let row = Gate::Kronecker(GateKronecker::new(vec![z(), Gate::CNOT(GateCNOT::new(0)), z(), z()]));
    assert_eq!(row.mat(&[1.0, 2.0, 3.0], &t, &k), "(((Z(1)⊗CNOT)⊗Z(2))⊗Z(3))");
}

#[test]
fn product_multiplies_every_gate_onto_the_left_of_the_gates_before_it() {
    let k = written();
    let t = table();
    let row = Gate::Product(GateProduct::new(vec![z(), Gate::CNOT(GateCNOT::new(0)), z(), z()]));
    assert_eq!(row.mat(&[1.0, 2.0, 3.0], &t, &k), "(Z(3)·(Z(2)·(CNOT·Z(1))))");
}

#[test]
fn a_composite_with_one_child_is_its_child() {
    let k = written();
    let t = table();
    let v = [1.0, 2.0, 3.0];
    let alone = Gate::Kronecker(GateKronecker::new(vec![u3()]));
    assert_eq!(alone.mat(&v, &t, &k), u3().mat(&v, &t, &k));
    assert_eq!(alone.mat_jac(&v, &t, &k), u3().mat_jac(&v, &t, &k));
    let alone = Gate::Product(GateProduct::new(vec![u3()]));
    assert_eq!(alone.mat(&v, &t, &k), u3().mat(&v, &t, &k));
    assert_eq!(alone.mat_jac(&v, &t, &k), u3().mat_jac(&v, &t, &k));
}

#[test]
fn kronecker_jacobian_puts_the_derivative_in_the_place_of_its_child() {
    let k = written();
    let t = table();
    let row = Gate::Kronecker(GateKronecker::new(vec![
        z(),
        Gate::CNOT(GateCNOT::new(0)),
        Gate::U2(GateU2::new()),
        z(),
    ]));
    let (m, jac) = row.mat_jac(&[1.0, 2.0, 3.0, 4.0], &t, &k);
    assert_eq!(m, "(((Z(1)⊗CNOT)⊗U2(2,3))⊗Z(4))");
    assert_eq!(
        jac,
        vec![
            "(((d0Z(1)⊗CNOT)⊗U2(2,3))⊗Z(4))",
            "(((Z(1)⊗CNOT)⊗d0U2(2,3))⊗Z(4))",
            "(((Z(1)⊗CNOT)⊗d1U2(2,3))⊗Z(4))",
            "(((Z(1)⊗CNOT)⊗U2(2,3))⊗d0Z(4))",
        ]
    );
}

#[test]
fn product_jacobian_multiplies_what_follows_from_the_left_and_what_precedes_from_the_right() {
    let k = written();
    let t = table();
    let row = Gate::Product(GateProduct::new(vec![
        z(),
        Gate::CNOT(GateCNOT::new(0)),
        Gate::U2(GateU2::new()),
        z(),
    ]));
    let (m, jac) = row.mat_jac(&[1.0, 2.0, 3.0, 4.0], &t, &k);
    assert_eq!(m, "(Z(4)·(U2(2,3)·(CNOT·Z(1))))");
    assert_eq!(
        jac,
        vec![
            "(((Z(4)·U2(2,3))·CNOT)·d0Z(1))",
            "(Z(4)·(d0U2(2,3)·(CNOT·Z(1))))",
            "(Z(4)·(d1U2(2,3)·(CNOT·Z(1))))",
            "(d0Z(4)·(U2(2,3)·(CNOT·Z(1))))",
        ]
    );
}

#[test]
fn product_jacobian_of_two_gates() {
    let k = written();
    let t = table();
    let row = Gate::Product(GateProduct::new(vec![z(), Gate::X(GateX::new())]));
    let (m, jac) = row.mat_jac(&[1.0, 2.0], &t, &k);
    assert_eq!(m, "(X(2)·Z(1))");
    assert_eq!(jac, vec!["(X(2)·d0Z(1))", "(d0X(2)·Z(1))"]);
}

#[test]
fn a_search_layer_slices_the_parameters_through_nested_composites() {
    let k = written();
    let t = table();
    let singles = GateKronecker::new(vec![Gate::XZXZ(GateXZXZ::new(1)), u3()]);
    let block = GateProduct::new(vec![Gate::CNOT(GateCNOT::new(0)), Gate::Kronecker(singles)]);
    let layer = Gate::Kronecker(GateKronecker::new(vec![
        Gate::Identity(GateIdentity::new(2)),
        Gate::Product(block),
    ]));
    let circuit = Gate::Product(GateProduct::new(vec![
        Gate::Kronecker(GateKronecker::new(vec![u3(), u3(), u3()])),
        layer,
    ]));
    assert_eq!(circuit.inputs(), 14);
    let v: Vec<f64> = (0..14).map(|i| i as f64).collect();
    let m = circuit.mat(&v, &t, &k);
    assert_eq!(
        m,
        "((I⊗(((Z(10)·(X90·(Z(9)·X90)))⊗U3(11,12,13))·CNOT))·((U3(0,1,2)⊗U3(3,4,5))⊗U3(6,7,8)))"
    );
    let (again, jac) = circuit.mat_jac(&v, &t, &k);
    assert_eq!(again, m);
    assert_eq!(jac.len(), 14);
    assert_eq!(
        jac[4],
        "((I⊗(((Z(10)·(X90·(Z(9)·X90)))⊗U3(11,12,13))·CNOT))·((U3(0,1,2)⊗d1U3(3,4,5))⊗U3(6,7,8)))"
    );
    assert_eq!(
        jac[9],
        "((I⊗(((Z(10)·(X90·(d0Z(9)·X90)))⊗U3(11,12,13))·CNOT))·((U3(0,1,2)⊗U3(3,4,5))⊗U3(6,7,8)))"
    );
}

#[test]
fn parameters_beyond_those_of_the_gate_are_not_read() {
    let k = written();
    let t = table();
    assert_eq!(z().mat(&[1.0, 2.0, 3.0], &t, &k), "Z(1)");
}

// A backend of real 2x2 matrices, to hold the Jacobian against finite differences.

type Real = [f64; 4];

fn real_closed(form: ClosedForm, params: &[f64], partial: Option<usize>) -> Real {
    let t = params[0];
    match (form, partial) {
        (ClosedForm::Y, None) => [t.cos(), -t.sin(), t.sin(), t.cos()],
        (ClosedForm::Y, Some(_)) => [-t.sin(), -t.cos(), t.cos(), -t.sin()],
        (ClosedForm::X, None) => [t.cosh(), t.sinh(), t.sinh(), t.cosh()],
        (ClosedForm::X, Some(_)) => [t.sinh(), t.cosh(), t.cosh(), t.sinh()],
        _ => unreachable!(),
    }
}

fn real_matmul(a: &Real, b: &Real) -> Real {
    [
        a[0] * b[0] + a[1] * b[2],
        a[0] * b[1] + a[1] * b[3],
        a[2] * b[0] + a[3] * b[2],
        a[2] * b[1] + a[3] * b[3],
    ]
}

fn real_kron(_a: &Real, _b: &Real) -> Real {
    unreachable!()
}

#[test]
fn product_jacobian_agrees_with_central_differences() {
    let k: Kernels<
        fn(ClosedForm, &[f64], Option<usize>) -> Real,
        fn(&Real, &Real) -> Real,
        fn(&Real, &Real) -> Real,
    > = Kernels { closed_form: real_closed, kron: real_kron, matmul: real_matmul };
    let t: Vec<Real> = vec![[0.0, 1.0, 1.0, 0.0]];
    let circuit = Gate::Product(GateProduct::new(vec![
        Gate::Y(GateY::new()),
        Gate::X(GateX::new()),
        Gate::ConstantUnitary(GateConstantUnitary::new(0, 1)),
        Gate::Y(GateY::new()),
        Gate::X(GateX::new()),
    ]));
    let v = [0.3, -0.7, 1.1, 0.45];
    let (m, jac) = circuit.mat_jac(&v, &t, &k);
    assert_eq!(m, circuit.mat(&v, &t, &k));
    assert_eq!(jac.len(), 4);
    let h = 1e-6;
    for p in 0..4 {
        let mut up = v;
        up[p] += h;
        let mut down = v;
        down[p] -= h;
        let hi = circuit.mat(&up, &t, &k);
        let lo = circuit.mat(&down, &t, &k);
        for e in 0..4 {
            let estimate = (hi[e] - lo[e]) / (2.0 * h);
            assert!((estimate - jac[p][e]).abs() < 1e-6, "parameter {} entry {}", p, e);
        }
    }
}
