//! Gate trees as a host describes them, and how they become gates.
//!
//! A host names every gate by its class and lists the children of a composite. Importing
//! a description builds a gate tree and appends to the constant-gate table what the tree
//! needs: every constant gate gets an entry of its own, in the order in which the tree is
//! walked. A parameter-free gate of a class that is not known becomes a constant unitary
//! whose matrix the host supplies; it is stored transposed.
use vstd::prelude::*;
use vstd::string::StringExecFns;
use crate::circuits::{
    Gate, GateCNOT, GateConstantUnitary, GateIdentity, GateKronecker, GateProduct,
    GateSingleQutrit, GateU1, GateU2, GateU3, GateX, GateXZXZ, GateY, GateZ, GateZXZXZ, shapes,
};
use crate::gatesets::ConstantGate;
use crate::shape::{Shape, dits_before, inputs_before};

verus! {

/// Gate classes that are known by name.
#[derive(Clone, Copy, Debug, PartialEq, Eq, Structural)]
pub enum GateClass {
    Cnot,
    Identity,
    U3,
    U2,
    U1,
    X,
    Y,
    Z,
    Xzxz,
    Zxzxz,
    Product,
    Kronecker,
    SingleQutrit,
}

/// The class that a host means by `name`, if the name is known.
pub open spec fn class_of(name: Seq<char>) -> Option<GateClass> {
    if name == "CNOTGate"@ {
        Some(GateClass::Cnot)
    } else if name == "IdentityGate"@ {
        Some(GateClass::Identity)
    } else if name == "U3Gate"@ {
        Some(GateClass::U3)
    } else if name == "U2Gate"@ {
        Some(GateClass::U2)
    } else if name == "U1Gate"@ {
        Some(GateClass::U1)
    } else if name == "XGate"@ {
        Some(GateClass::X)
    } else if name == "YGate"@ {
        Some(GateClass::Y)
    } else if name == "ZGate"@ {
        Some(GateClass::Z)
    } else if name == "XZXZGate"@ {
        Some(GateClass::Xzxz)
    } else if name == "ZXZXZGate"@ {
        Some(GateClass::Zxzxz)
    } else if name == "ProductGate"@ {
        Some(GateClass::Product)
    } else if name == "KroneckerGate"@ {
        Some(GateClass::Kronecker)
    } else if name == "SingleQutritGate"@ {
        Some(GateClass::SingleQutrit)
    } else {
        None
    }
}

/// Whether `name` spells `literal`.
fn spells(name: &String, literal: &str) -> (b: bool)
    ensures
        b == (name@ == literal@),
{
    *name == String::from_str(literal)
}

impl GateClass {
    /// The class that a host means by `name`, if the name is known.
    pub fn resolve(name: &String) -> (out: Option<GateClass>)
        ensures
            out == class_of(name@),
    {
        if spells(name, "CNOTGate") {
            Some(GateClass::Cnot)
        } else if spells(name, "IdentityGate") {
            Some(GateClass::Identity)
        } else if spells(name, "U3Gate") {
            Some(GateClass::U3)
        } else if spells(name, "U2Gate") {
            Some(GateClass::U2)
        } else if spells(name, "U1Gate") {
            Some(GateClass::U1)
        } else if spells(name, "XGate") {
            Some(GateClass::X)
        } else if spells(name, "YGate") {
            Some(GateClass::Y)
        } else if spells(name, "ZGate") {
            Some(GateClass::Z)
        } else if spells(name, "XZXZGate") {
            Some(GateClass::Xzxz)
        } else if spells(name, "ZXZXZGate") {
            Some(GateClass::Zxzxz)
        } else if spells(name, "ProductGate") {
            Some(GateClass::Product)
        } else if spells(name, "KroneckerGate") {
            Some(GateClass::Kronecker)
        } else if spells(name, "SingleQutritGate") {
            Some(GateClass::SingleQutrit)
        } else {
            None
        }
    }
}

/// A gate as a host describes it.
#[derive(Debug)]
pub struct GateDescription {
    /// The name of this gate's class.
    pub name: String,
    /// How many parameters the host says this gate takes.
    pub num_inputs: usize,
    /// How many qudits the host says this gate acts on.
    pub qudits: u32,
    /// Which of the host's matrices is the matrix of this gate, if it takes no parameters.
    pub matrix: usize,
    /// The children of a composite, in order.
    pub substeps: Vec<GateDescription>,
}

/// A description as a mathematical value.
pub ghost struct DescriptionModel {
    pub name: Seq<char>,
    pub num_inputs: usize,
    pub qudits: u32,
    pub matrix: usize,
    pub substeps: Seq<DescriptionModel>,
}

/// The models of a sequence of descriptions, in order.
pub open spec fn models(descriptions: Seq<GateDescription>) -> Seq<DescriptionModel>
    decreases descriptions, 1nat,
{
    Seq::new(
        descriptions.len(),
        |i: int|
            if 0 <= i < descriptions.len() {
                descriptions[i].view()
            } else {
                arbitrary()
            },
    )
}

impl View for GateDescription {
    type V = DescriptionModel;

    open spec fn view(&self) -> DescriptionModel
        decreases *self, 0nat,
    {
        DescriptionModel {
            name: self.name@,
            num_inputs: self.num_inputs,
            qudits: self.qudits,
            matrix: self.matrix,
            substeps: models(self.substeps@),
        }
    }
}

/// Why a description cannot be imported.
#[derive(Debug)]
pub enum ImportError {
    /// The class is not known and this gate takes parameters.
    UnknownGate { name: String },
    /// A product without children.
    EmptyProduct,
    /// The tree does not fit the counters of a gate: an identity on 64 qudits or more, a
    /// constant on more than 255, a tensor product on more than 255, or more parameters
    /// than can be counted.
    TooLarge,
}

/// An import error as a mathematical value.
pub ghost enum ImportFailure {
    UnknownGate { name: Seq<char> },
    EmptyProduct,
    TooLarge,
}

impl View for ImportError {
    type V = ImportFailure;

    open spec fn view(&self) -> ImportFailure {
        match *self {
            ImportError::UnknownGate { name } => ImportFailure::UnknownGate { name: name@ },
            ImportError::EmptyProduct => ImportFailure::EmptyProduct,
            ImportError::TooLarge => ImportFailure::TooLarge,
        }
    }
}

impl ImportError {
    /// The error in words.
    pub fn message(&self) -> (out: String)
        ensures
            self@ matches ImportFailure::UnknownGate { name } ==> out@ == "Unknown gate "@ + name,
            self@ is EmptyProduct ==> out@ == "Product without gates"@,
            self@ is TooLarge ==> out@ == "Gate tree too large"@,
    {
        match self {
            ImportError::UnknownGate { name } => String::from_str("Unknown gate ").concat(
                name.as_str(),
            ),
            ImportError::EmptyProduct => String::from_str("Product without gates"),
            ImportError::TooLarge => String::from_str("Gate tree too large"),
        }
    }
}

/// What importing leaves behind: a gate or the reason why there is none, and the
/// entries that were appended to the constant-gate table until then.
pub ghost struct Imported {
    pub gate: Result<Shape, ImportFailure>,
    pub appended: Seq<ConstantGate>,
}

/// What importing the first `n` of `descriptions` leaves behind, when the table holds
/// `base` entries before: their gates in order, or the first failure, and everything that
/// was appended.
pub open spec fn import_all(descriptions: Seq<DescriptionModel>, base: nat, n: nat) -> (
    Result<Seq<Shape>, ImportFailure>,
    Seq<ConstantGate>,
)
    decreases descriptions, n,
{
    if n == 0 || n > descriptions.len() {
        (Ok(Seq::empty()), Seq::empty())
    } else {
        let (before, appended) = import_all(descriptions, base, (n - 1) as nat);
        match before {
            Err(failure) => (Err(failure), appended),
            Ok(gates) => {
                let next = import_one(descriptions[n - 1], base + appended.len());
                match next.gate {
                    Err(failure) => (Err(failure), appended + next.appended),
                    Ok(gate) => (Ok(gates.push(gate)), appended + next.appended),
                }
            },
        }
    }
}

/// What importing `description` leaves behind, when the table holds `base` entries before.
pub open spec fn import_one(description: DescriptionModel, base: nat) -> Imported
    decreases description,
{
    match class_of(description.name) {
        Some(GateClass::Cnot) => Imported {
            gate: Ok(Shape::CNOT { index: base }),
            appended: seq![ConstantGate::Cnot],
        },
        Some(GateClass::Identity) => if description.qudits < usize::BITS {
            Imported {
                gate: Ok(Shape::Identity { index: base }),
                appended: seq![
                    ConstantGate::Identity {
                        size: vstd::arithmetic::power2::pow2(description.qudits as nat) as usize,
                    },
                ],
            }
        } else {
            Imported { gate: Err(ImportFailure::TooLarge), appended: Seq::empty() }
        },
        Some(GateClass::U3) => Imported { gate: Ok(Shape::U3), appended: Seq::empty() },
        Some(GateClass::U2) => Imported { gate: Ok(Shape::U2), appended: Seq::empty() },
        Some(GateClass::U1) => Imported { gate: Ok(Shape::U1), appended: Seq::empty() },
        Some(GateClass::X) => Imported { gate: Ok(Shape::X), appended: Seq::empty() },
        Some(GateClass::Y) => Imported { gate: Ok(Shape::Y), appended: Seq::empty() },
        Some(GateClass::Z) => Imported { gate: Ok(Shape::Z), appended: Seq::empty() },
        Some(GateClass::SingleQutrit) => Imported {
            gate: Ok(Shape::SingleQutrit),
            appended: Seq::empty(),
        },
        Some(GateClass::Xzxz) => Imported {
            gate: Ok(Shape::XZXZ { x90_index: base }),
            appended: seq![ConstantGate::SqrtX],
        },
        Some(GateClass::Zxzxz) => Imported {
            gate: Ok(Shape::ZXZXZ { x90_index: base }),
            appended: seq![ConstantGate::SqrtX],
        },
        Some(GateClass::Product) => {
            let (children, appended) = import_all(
                description.substeps,
                base,
                description.substeps.len(),
            );
            match children {
                Err(failure) => Imported { gate: Err(failure), appended },
                Ok(gates) => if gates.len() == 0 {
                    Imported { gate: Err(ImportFailure::EmptyProduct), appended }
                } else if inputs_before(gates, gates.len()) > usize::MAX {
                    Imported { gate: Err(ImportFailure::TooLarge), appended }
                } else {
                    Imported { gate: Ok(Shape::Product { substeps: gates }), appended }
                },
            }
        },
        Some(GateClass::Kronecker) => {
            let (children, appended) = import_all(
                description.substeps,
                base,
                description.substeps.len(),
            );
            match children {
                Err(failure) => Imported { gate: Err(failure), appended },
                Ok(gates) => if inputs_before(gates, gates.len()) > usize::MAX || dits_before(
                    gates,
                    gates.len(),
                ) > u8::MAX {
                    Imported { gate: Err(ImportFailure::TooLarge), appended }
                } else {
                    Imported { gate: Ok(Shape::Kronecker { substeps: gates }), appended }
                },
            }
        },
        None => if description.num_inputs != 0 {
            Imported {
                gate: Err(ImportFailure::UnknownGate { name: description.name }),
                appended: Seq::empty(),
            }
        } else if description.qudits > u8::MAX {
            Imported { gate: Err(ImportFailure::TooLarge), appended: Seq::empty() }
        } else {
            Imported {
                gate: Ok(
                    Shape::ConstantUnitary { index: base, dits: description.qudits as nat },
                ),
                appended: seq![ConstantGate::Unitary { source: description.matrix }],
            }
        },
    }
}

/// Two to the power `exponent`.
fn power_of_two(exponent: u32) -> (out: usize)
    requires
        exponent < usize::BITS,
    ensures
        out == vstd::arithmetic::power2::pow2(exponent as nat),
{
    let mut out: usize = 1;
    let mut i: u32 = 0;
    proof {
        vstd::arithmetic::power2::lemma2_to64();
    }
    while i < exponent
        invariant
            i <= exponent < usize::BITS,
            out == vstd::arithmetic::power2::pow2(i as nat),
        decreases exponent - i,
    {
        proof {
            vstd::arithmetic::power2::lemma_pow2_unfold((i + 1) as nat);
            vstd::arithmetic::power2::lemma2_to64();
            vstd::arithmetic::power2::lemma2_to64_rest();
            if i + 1 < 31 {
                vstd::arithmetic::power2::lemma_pow2_strictly_increases((i + 1) as nat, 31);
            } else if i + 1 > 31 && i + 1 < 63 {
                vstd::arithmetic::power2::lemma_pow2_strictly_increases((i + 1) as nat, 63);
            }
        }
        out = out * 2;
        i += 1;
    }
    out
}

/// Imports `descriptions` one after the other and stops at the first that fails.
fn import_children(descriptions: &Vec<GateDescription>, constant_gates: &mut Vec<ConstantGate>) -> (out:
    Result<Vec<Gate>, ImportError>)
    ensures
        ({
            let (gates, appended) = import_all(
                models(descriptions@),
                old(constant_gates)@.len(),
                descriptions@.len(),
            );
            &&& final(constant_gates)@ == old(constant_gates)@ + appended
            &&& match out {
                Ok(imported) => gates == Ok::<Seq<Shape>, ImportFailure>(shapes(imported@)),
                Err(error) => gates == Err::<Seq<Shape>, ImportFailure>(error@),
            }
        }),
    decreases descriptions,
{
    let ghost all = models(descriptions@);
    let ghost base = constant_gates@.len();
    let ghost table = constant_gates@;
    let mut gates: Vec<Gate> = Vec::new();
    let mut i: usize = 0;
    proof {
        assert(shapes(gates@) =~= Seq::<Shape>::empty());
        assert(constant_gates@ =~= table + Seq::<ConstantGate>::empty());
    }
    while i < descriptions.len()
        invariant
            i <= descriptions@.len(),
            all == models(descriptions@),
            table == old(constant_gates)@,
            base == table.len(),
            import_all(all, base, i as nat).0 == Ok::<Seq<Shape>, ImportFailure>(shapes(gates@)),
            constant_gates@ == table + import_all(all, base, i as nat).1,
        decreases descriptions.len() - i,
    {
        let ghost appended = import_all(all, base, i as nat).1;
        let ghost before = shapes(gates@);
        assert(all[i as int] == descriptions@[i as int]@);
        match object_to_gate(&descriptions[i], constant_gates) {
            Ok(gate) => {
                gates.push(gate);
                proof {
                    let next = import_one(all[i as int], base + appended.len());
                    assert(shapes(gates@) =~= before.push(gate@));
                    assert(constant_gates@ =~= table + (appended + next.appended));
                }
            },
            Err(error) => {
                proof {
                    let next = import_one(all[i as int], base + appended.len());
                    assert(constant_gates@ =~= table + (appended + next.appended));
                    assert(import_all(all, base, (i + 1) as nat) == (
                        Err::<Seq<Shape>, ImportFailure>(error@),
                        appended + next.appended,
                    ));
                    lemma_import_stops(all, base, (i + 1) as nat, descriptions@.len() as nat);
                }
                return Err(error);
            },
        }
        i += 1;
    }
    Ok(gates)
}

/// Once a description has failed, the descriptions behind it are not imported.
proof fn lemma_import_stops(descriptions: Seq<DescriptionModel>, base: nat, failed: nat, n: nat)
    requires
        failed <= n <= descriptions.len(),
        import_all(descriptions, base, failed).0 is Err,
    ensures
        import_all(descriptions, base, n) == import_all(descriptions, base, failed),
    decreases n,
{
    if failed < n {
        lemma_import_stops(descriptions, base, failed, (n - 1) as nat);
    }
}

/// Builds what `description` describes, and appends to `constant_gates` what the
/// gate needs.
///
/// A gate of a known class becomes a gate of that class, a composite after its children
/// in order. A gate of an unknown class becomes a constant unitary if it takes no
/// parameters, and is refused otherwise. What was appended before a failure stays.
pub fn object_to_gate(description: &GateDescription, constant_gates: &mut Vec<ConstantGate>) -> (out:
    Result<Gate, ImportError>)
    ensures
        ({
            let imported = import_one(description@, old(constant_gates)@.len());
            &&& final(constant_gates)@ == old(constant_gates)@ + imported.appended
            &&& match out {
                Ok(gate) => imported.gate == Ok::<Shape, ImportFailure>(gate@),
                Err(error) => imported.gate == Err::<Shape, ImportFailure>(error@),
            }
        }),
    decreases description,
{
    let ghost table = constant_gates@;
    let index = constant_gates.len();
    match GateClass::resolve(&description.name) {
        Some(GateClass::Cnot) => {
            constant_gates.push(ConstantGate::Cnot);
            assert(constant_gates@ =~= table + seq![ConstantGate::Cnot]);
            Ok(Gate::CNOT(GateCNOT::new(index)))
        },
        Some(GateClass::Identity) => {
            if description.qudits < usize::BITS {
                let size = power_of_two(description.qudits);
                constant_gates.push(ConstantGate::Identity { size });
                assert(constant_gates@ =~= table + seq![ConstantGate::Identity { size }]);
                Ok(Gate::Identity(GateIdentity::new(index)))
            } else {
                assert(constant_gates@ =~= table + Seq::<ConstantGate>::empty());
                Err(ImportError::TooLarge)
            }
        },
        Some(GateClass::U3) => {
            assert(constant_gates@ =~= table + Seq::<ConstantGate>::empty());
            Ok(Gate::U3(GateU3::new()))
        },
        Some(GateClass::U2) => {
            assert(constant_gates@ =~= table + Seq::<ConstantGate>::empty());
            Ok(Gate::U2(GateU2::new()))
        },
        Some(GateClass::U1) => {
            assert(constant_gates@ =~= table + Seq::<ConstantGate>::empty());
            Ok(Gate::U1(GateU1::new()))
        },
        Some(GateClass::X) => {
            assert(constant_gates@ =~= table + Seq::<ConstantGate>::empty());
            Ok(Gate::X(GateX::new()))
        },
        Some(GateClass::Y) => {
            assert(constant_gates@ =~= table + Seq::<ConstantGate>::empty());
            Ok(Gate::Y(GateY::new()))
        },
        Some(GateClass::Z) => {
            assert(constant_gates@ =~= table + Seq::<ConstantGate>::empty());
            Ok(Gate::Z(GateZ::new()))
        },
        Some(GateClass::SingleQutrit) => {
            assert(constant_gates@ =~= table + Seq::<ConstantGate>::empty());
            Ok(Gate::SingleQutrit(GateSingleQutrit::new()))
        },
        Some(GateClass::Xzxz) => {
            constant_gates.push(ConstantGate::SqrtX);
            assert(constant_gates@ =~= table + seq![ConstantGate::SqrtX]);
            Ok(Gate::XZXZ(GateXZXZ::new(index)))
        },
        Some(GateClass::Zxzxz) => {
            constant_gates.push(ConstantGate::SqrtX);
            assert(constant_gates@ =~= table + seq![ConstantGate::SqrtX]);
            Ok(Gate::ZXZXZ(GateZXZXZ::new(index)))
        },
        Some(GateClass::Product) => {
            match import_children(&description.substeps, constant_gates) {
                Err(error) => Err(error),
                Ok(steps) => {
                    if steps.len() == 0 {
                        Err(ImportError::EmptyProduct)
                    } else {
                        match crate::circuits::total_inputs(&steps) {
                            None => Err(ImportError::TooLarge),
                            Some(_) => Ok(Gate::Product(GateProduct::new(steps))),
                        }
                    }
                },
            }
        },
        Some(GateClass::Kronecker) => {
            match import_children(&description.substeps, constant_gates) {
                Err(error) => Err(error),
                Ok(steps) => {
                    let inputs = crate::circuits::total_inputs(&steps);
                    let dits = crate::circuits::total_dits(&steps);
                    if inputs.is_none() || dits.is_none() {
                        Err(ImportError::TooLarge)
                    } else {
                        Ok(Gate::Kronecker(GateKronecker::new(steps)))
                    }
                },
            }
        },
        None => {
            if description.num_inputs != 0 {
                assert(constant_gates@ =~= table + Seq::<ConstantGate>::empty());
                Err(ImportError::UnknownGate { name: description.name.clone() })
            } else if description.qudits > 255 {
                assert(constant_gates@ =~= table + Seq::<ConstantGate>::empty());
                Err(ImportError::TooLarge)
            } else {
                constant_gates.push(ConstantGate::Unitary { source: description.matrix });
                assert(constant_gates@ =~= table + seq![
                    ConstantGate::Unitary { source: description.matrix },
                ]);
                Ok(
                    Gate::ConstantUnitary(
                        GateConstantUnitary::new(index, description.qudits as u8),
                    ),
                )
            }
        },
    }
}

/// The name of the class by which a host knows a gate of this shape.
pub open spec fn class_name(shape: Shape) -> Seq<char> {
    match shape {
        Shape::Identity { .. } => "IdentityGate"@,
        Shape::CNOT { .. } => "CNOTGate"@,
        Shape::U3 => "U3Gate"@,
        Shape::U2 => "U2Gate"@,
        Shape::U1 => "U1Gate"@,
        Shape::X => "XGate"@,
        Shape::Y => "YGate"@,
        Shape::Z => "ZGate"@,
        Shape::XZXZ { .. } => "XZXZGate"@,
        Shape::ZXZXZ { .. } => "ZXZXZGate"@,
        Shape::Kronecker { .. } => "KroneckerGate"@,
        Shape::Product { .. } => "ProductGate"@,
        Shape::ConstantUnitary { .. } => "UGate"@,
        Shape::SingleQutrit => "SingleQutritGate"@,
    }
}

/// The short name of the variant of a gate of this shape.
pub open spec fn kind_name(shape: Shape) -> Seq<char> {
    match shape {
        Shape::Identity { .. } => "Identity"@,
        Shape::CNOT { .. } => "CNOT"@,
        Shape::U3 => "U3"@,
        Shape::U2 => "U2"@,
        Shape::U1 => "U1"@,
        Shape::X => "X"@,
        Shape::Y => "Y"@,
        Shape::Z => "Z"@,
        Shape::XZXZ { .. } => "XZXZ"@,
        Shape::ZXZXZ { .. } => "ZXZXZ"@,
        Shape::Kronecker { .. } => "Kronecker"@,
        Shape::Product { .. } => "Product"@,
        Shape::ConstantUnitary { .. } => "ConstantUnitary"@,
        Shape::SingleQutrit => "SingleQutrit"@,
    }
}

/// The largest `r` with two to the power `r` at most `x`, for a positive `x`
/// (and 0 for 0).
pub open spec fn spec_log_2(x: nat) -> nat
    decreases x,
{
    if x <= 1 {
        0
    } else {
        1 + spec_log_2(x / 2)
    }
}

/// The number of binary digits of `x` less one: the logarithm to base two, rounded down.
pub fn log_2(x: usize) -> (out: u32)
    ensures
        out == spec_log_2(x as nat),
        out < usize::BITS,
{
    let mut rest = x;
    let mut out: u32 = 0;
    proof {
        vstd::arithmetic::power2::lemma2_to64();
    }
    while rest > 1
        invariant
            spec_log_2(x as nat) == out + spec_log_2(rest as nat),
            out < usize::BITS,
            rest > 1 ==> out + 1 < usize::BITS,
            rest as nat * vstd::arithmetic::power2::pow2(out as nat) <= x,
        decreases rest,
    {
        proof {
            let p = vstd::arithmetic::power2::pow2(out as nat);
            vstd::arithmetic::power2::lemma_pow2_unfold((out + 1) as nat);
            vstd::arithmetic::power2::lemma_pow2_pos(out as nat);
            assert((rest / 2) * (2 * p) <= rest * p) by (nonlinear_arith)
                requires
                    p > 0,
                    rest >= 0,
            ;
            lemma_log_bound(rest / 2, (out + 1) as nat, x);
        }
        rest = rest / 2;
        out = out + 1;
    }
    out
}

/// A number with a positive multiple of two to the power `e` below `x` has an exponent
/// `e` that stays within the width of `x`.
proof fn lemma_log_bound(rest: usize, e: nat, x: usize)
    requires
        rest >= 1,
        rest as nat * vstd::arithmetic::power2::pow2(e) <= x,
    ensures
        e < usize::BITS,
        rest > 1 ==> e + 1 < usize::BITS,
{
    let p = vstd::arithmetic::power2::pow2(e);
    vstd::arithmetic::power2::lemma2_to64();
    vstd::arithmetic::power2::lemma_pow2_pos(e);
    assert(p <= rest * p) by (nonlinear_arith)
        requires
            rest >= 1,
            p > 0,
    ;
    if e >= usize::BITS {
        if e > usize::BITS {
            vstd::arithmetic::power2::lemma_pow2_strictly_increases(usize::BITS as nat, e);
        }
        assert(false);
    }
    if rest > 1 && e + 1 >= usize::BITS {
        assert(2 * p <= rest * p) by (nonlinear_arith)
            requires
                rest >= 2,
                p > 0,
        ;
        vstd::arithmetic::power2::lemma_pow2_unfold(e + 1);
        if e + 1 > usize::BITS {
            vstd::arithmetic::power2::lemma_pow2_strictly_increases(usize::BITS as nat, e + 1);
        }
        assert(false);
    }
}

/// How many qudits a host is told that a gate of this shape acts on: for an identity,
/// the logarithm to base two of the size of its matrix, where the table knows the size;
/// for every other gate, its own count.
pub open spec fn described_qudits(shape: Shape, table: Seq<ConstantGate>) -> u32 {
    match shape {
        Shape::Identity { index } => if index < table.len() && table[index as int] is Identity {
            spec_log_2(table[index as int]->size as nat) as u32
        } else {
            1
        },
        _ => shape.dits() as u32,
    }
}

/// Which of the host's matrices a host is told is the matrix of a gate of this shape.
pub open spec fn described_matrix(shape: Shape, table: Seq<ConstantGate>) -> usize {
    match shape {
        Shape::ConstantUnitary { index, .. } => if index < table.len() && table[index as int]
            is Unitary {
            table[index as int]->source
        } else {
            0
        },
        _ => 0,
    }
}

/// The description of a gate of this shape over the constant-gate table `table`.
pub open spec fn describe(shape: Shape, table: Seq<ConstantGate>) -> DescriptionModel
    decreases shape,
{
    DescriptionModel {
        name: class_name(shape),
        num_inputs: shape.inputs() as usize,
        qudits: described_qudits(shape, table),
        matrix: described_matrix(shape, table),
        substeps: match shape {
            Shape::Kronecker { substeps } => Seq::new(
                substeps.len(),
                |i: int|
                    if 0 <= i < substeps.len() {
                        describe(substeps[i], table)
                    } else {
                        arbitrary()
                    },
            ),
            Shape::Product { substeps } => Seq::new(
                substeps.len(),
                |i: int|
                    if 0 <= i < substeps.len() {
                        describe(substeps[i], table)
                    } else {
                        arbitrary()
                    },
            ),
            _ => Seq::empty(),
        },
    }
}

/// The descriptions of `gates`, in order.
fn describe_all(gates: &Vec<Gate>, constant_gates: &Vec<ConstantGate>) -> (out: Vec<GateDescription>)
    ensures
        out@.len() == gates@.len(),
        forall|i: int|
            0 <= i < gates@.len() ==> (#[trigger] out@[i])@ == describe(gates@[i]@, constant_gates@),
    decreases gates,
{
    let mut out: Vec<GateDescription> = Vec::new();
    let mut i: usize = 0;
    while i < gates.len()
        invariant
            i <= gates@.len(),
            out@.len() == i,
            forall|k: int|
                0 <= k < i ==> (#[trigger] out@[k])@ == describe(gates@[k]@, constant_gates@),
        decreases gates.len() - i,
    {
        out.push(gate_to_object(&gates[i], constant_gates));
        i += 1;
    }
    out
}

impl Gate {
    /// The short name of this gate's variant.
    pub fn kind(&self) -> (out: String)
        ensures
            out@ == kind_name(self@),
    {
        match self {
            Gate::CNOT(_) => String::from_str("CNOT"),
            Gate::Identity(_) => String::from_str("Identity"),
            Gate::U3(_) => String::from_str("U3"),
            Gate::U2(_) => String::from_str("U2"),
            Gate::U1(_) => String::from_str("U1"),
            Gate::X(_) => String::from_str("X"),
            Gate::Y(_) => String::from_str("Y"),
            Gate::Z(_) => String::from_str("Z"),
            Gate::XZXZ(_) => String::from_str("XZXZ"),
            Gate::ZXZXZ(_) => String::from_str("ZXZXZ"),
            Gate::Kronecker(_) => String::from_str("Kronecker"),
            Gate::Product(_) => String::from_str("Product"),
            Gate::ConstantUnitary(_) => String::from_str("ConstantUnitary"),
            Gate::SingleQutrit(_) => String::from_str("SingleQutrit"),
        }
    }
}

/// Describes `gate` for a host: the name of its class, how many parameters it takes and
/// how many qudits it acts on, its matrix if it is a constant unitary that the host
/// supplied, and the descriptions of its children in order.
pub fn gate_to_object(gate: &Gate, constant_gates: &Vec<ConstantGate>) -> (out: GateDescription)
    ensures
        out@ == describe(gate@, constant_gates@),
    decreases gate,
{
    let num_inputs = gate.inputs();
    match gate {
        Gate::Identity(g) => {
            let index = g.index();
            let qudits = if index < constant_gates.len() {
                match constant_gates[index] {
                    ConstantGate::Identity { size } => log_2(size),
                    _ => 1,
                }
            } else {
                1
            };
            let out = GateDescription {
                name: String::from_str("IdentityGate"),
                num_inputs,
                qudits,
                matrix: 0,
                substeps: Vec::new(),
            };
            assert(out@.substeps =~= describe(gate@, constant_gates@).substeps);
            out
        },
        Gate::ConstantUnitary(g) => {
            let index = g.index();
            let matrix = if index < constant_gates.len() {
                match constant_gates[index] {
                    ConstantGate::Unitary { source } => source,
                    _ => 0,
                }
            } else {
                0
            };
            let out = GateDescription {
                name: String::from_str("UGate"),
                num_inputs,
                qudits: g.dits() as u32,
                matrix,
                substeps: Vec::new(),
            };
            assert(out@.substeps =~= describe(gate@, constant_gates@).substeps);
            out
        },
        Gate::Kronecker(g) => {
            assert(gate@ == g@);
            assert(g@ == (Shape::Kronecker { substeps: shapes(g.substeps@) }));
            let substeps = describe_all(&g.substeps, constant_gates);
            let out = GateDescription {
                name: String::from_str("KroneckerGate"),
                num_inputs,
                qudits: g.dits() as u32,
                matrix: 0,
                substeps,
            };
            proof {
                let expected = describe(gate@, constant_gates@).substeps;
                assert(expected.len() == g.substeps@.len());
                assert forall|i: int| 0 <= i < expected.len() implies out@.substeps[i]
                    == expected[i] by {
                    assert(out@.substeps[i] == out.substeps@[i]@);
                    assert(shapes(g.substeps@)[i] == g.substeps@[i]@);
                }
                assert(out@.substeps =~= expected);
            }
            out
        },
        Gate::Product(g) => {
            assert(gate@ == g@);
            assert(g@ == (Shape::Product { substeps: shapes(g.substeps@) }));
            let substeps = describe_all(&g.substeps, constant_gates);
            let out = GateDescription {
                name: String::from_str("ProductGate"),
                num_inputs,
                qudits: g.dits() as u32,
                matrix: 0,
                substeps,
            };
            proof {
                let expected = describe(gate@, constant_gates@).substeps;
                assert(expected.len() == g.substeps@.len());
                assert forall|i: int| 0 <= i < expected.len() implies out@.substeps[i]
                    == expected[i] by {
                    assert(out@.substeps[i] == out.substeps@[i]@);
                    assert(shapes(g.substeps@)[i] == g.substeps@[i]@);
                }
                assert(out@.substeps =~= expected);
            }
            out
        },
        _ => {
            let name = match gate {
                Gate::CNOT(_) => String::from_str("CNOTGate"),
                Gate::U3(_) => String::from_str("U3Gate"),
                Gate::U2(_) => String::from_str("U2Gate"),
                Gate::U1(_) => String::from_str("U1Gate"),
                Gate::X(_) => String::from_str("XGate"),
                Gate::Y(_) => String::from_str("YGate"),
                Gate::Z(_) => String::from_str("ZGate"),
                Gate::XZXZ(_) => String::from_str("XZXZGate"),
                Gate::ZXZXZ(_) => String::from_str("ZXZXZGate"),
                _ => String::from_str("SingleQutritGate"),
            };
            let out = GateDescription {
                name,
                num_inputs,
                qudits: gate.dits() as u32,
                matrix: 0,
                substeps: Vec::new(),
            };
            assert(out@.substeps =~= describe(gate@, constant_gates@).substeps);
            out
        },
    }
}

} // verus!
