//! Synthesis of quantum circuits by search: the verified core.
//!
//! Given a target unitary and a gate-set, the synthesizer searches the layered circuits
//! that it allows for one whose matrix comes close to the target. This crate
//! holds what the synthesizer decides and assembles; it never computes with a real
//! number itself:
//!
//! * [`circuits`] are the trees of parameterized gates, with their model in [`shape`];
//! * [`evaluate`] assembles the matrix of a tree and its Jacobian from the operations of
//!   a numeric backend, described in [`kernels`]; [`terms`] says what the result is made
//!   of, and [`laws`] what follows from that;
//! * [`squaremat`] holds dense square matrices over any kind of entry, and [`residuals`]
//!   lays out the least-squares objective;
//! * [`gatesets`] propose the layers of a circuit, and [`description`] builds gates from
//!   what a host says about them;
//! * [`search`] makes the decisions of the best-first search over a [`frontier`], and
//!   [`compiler`] settles what the search begins with;
//! * [`solvers`] judges how a run of the minimizer ended.
//!
//! Real numbers enter in two ways. Matrices and parameters are of types that the caller
//! chooses, and the arithmetic on them is handed in as functions. Distances and heuristic
//! values are handed in as order keys: unsigned integers that compare as the numbers do.
use vstd::prelude::*;

pub mod shape;
pub mod circuits;
pub mod kernels;
pub mod terms;
pub mod evaluate;
pub mod laws;
pub mod layout;
pub mod squaremat;
pub mod residuals;
pub mod frontier;
pub mod search;
pub mod gatesets;
pub mod compiler;
pub mod description;
pub mod solvers;
