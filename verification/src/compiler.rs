//! The search compiler: what is settled before the search begins.
//!
//! A target of `size` rows is compiled on the number of qudits whose states span exactly
//! `size` dimensions. The root of the search is the product of the initial
//! layer alone, and the number of nodes expanded per step follows from the number of
//! processors unless the caller fixes it.
use vstd::prelude::*;
use vstd::arithmetic::power::{
    lemma_pow0, lemma_pow1, lemma_pow_strictly_increases, pow,
};
use vstd::arithmetic::power2::{
    lemma2_to64, lemma_pow2_strictly_increases, lemma_pow2_unfold, pow2,
};
use crate::circuits::{Gate, GateProduct, shapes};
use crate::gatesets::Gateset;
use crate::shape::{Shape, inputs_before};

verus! {

/// `dits` qudits of `radix` levels each span exactly `size` dimensions.
pub open spec fn spans(radix: usize, dits: nat, size: usize) -> bool {
    pow(radix as int, dits) == size
}

/// A power of a base of at least two is at least the same power of two.
proof fn lemma_pow_at_least_pow2(radix: nat, e: nat)
    requires
        radix >= 2,
    ensures
        pow(radix as int, e) >= pow2(e),
    decreases e,
{
    if e == 0 {
        lemma_pow0(radix as int);
        lemma2_to64();
    } else {
        lemma_pow_at_least_pow2(radix, (e - 1) as nat);
        let below = pow(radix as int, (e - 1) as nat);
        assert(pow(radix as int, e) == radix * below) by {
            reveal(pow);
        }
        lemma_pow2_unfold(e);
        assert(radix * below >= 2 * below) by (nonlinear_arith)
            requires
                radix >= 2,
                below >= 0,
        ;
    }
}

/// The number of qudits of `radix` levels whose states span `size` dimensions, if there
/// is one: the least `dits` with `radix` to the power `dits` equal to `size`.
pub fn qudit_count(size: usize, radix: usize) -> (out: Option<u8>)
    ensures
        out matches Some(dits) ==> spans(radix, dits as nat, size) && forall|fewer: nat|
            fewer < dits ==> !spans(radix, fewer, size),
        out is None ==> forall|dits: nat| !spans(radix, dits, size),
{
    proof {
        lemma_pow0(radix as int);
    }
    if size == 1 {
        return Some(0);
    }
    if radix < 2 {
        if radix == 0 && size == 0 {
            proof {
                lemma_pow1(0);
            }
            return Some(1);
        }
        proof {
            assert forall|dits: nat| !spans(radix, dits, size) by {
                if radix == 1 {
                    vstd::arithmetic::power::lemma1_pow(dits);
                } else if dits > 0 {
                    vstd::arithmetic::power::lemma0_pow(dits);
                }
            }
        }
        return None;
    }
    let mut power: usize = 1;
    let mut dits: u8 = 0;
    while power < size
        invariant
            radix >= 2,
            size != 1,
            power >= 1,
            power == pow(radix as int, dits as nat),
            forall|fewer: nat| fewer < dits ==> !spans(radix, fewer, size),
        decreases size - power,
    {
        proof {
            lemma_pow_at_least_pow2(radix as nat, dits as nat);
            lemma2_to64();
            if dits > 64 {
                lemma_pow2_strictly_increases(64, dits as nat);
            }
            assert(dits < 64);
            assert(pow(radix as int, (dits + 1) as nat) == radix * power) by {
                reveal(pow);
            }
            assert(power * radix >= 2 * power) by (nonlinear_arith)
                requires
                    radix >= 2,
                    power >= 1,
            ;
        }
        if power > size / radix {
            proof {
                assert(power * radix > size) by (nonlinear_arith)
                    requires
                        power > size / radix,
                        radix >= 2,
                        size >= 0,
                ;
                assert forall|more: nat| !spans(radix, more, size) by {
                    if more > dits + 1 {
                        lemma_pow_strictly_increases(radix as nat, (dits + 1) as nat, more);
                    }
                }
            }
            return None;
        }
        proof {
            assert(power * radix <= size) by (nonlinear_arith)
                requires
                    power <= size / radix,
                    radix >= 2,
            ;
            assert forall|fewer: nat| fewer < dits + 1 implies !spans(radix, fewer, size) by {}
        }
        power = power * radix;
        dits = dits + 1;
    }
    if power == size {
        Some(dits)
    } else {
        proof {
            assert forall|more: nat| !spans(radix, more, size) by {
                if more > dits {
                    lemma_pow_strictly_increases(radix as nat, dits as nat, more);
                }
            }
        }
        None
    }
}

/// How many nodes are expanded per step when the caller does not say: as many as there
/// are processors for each search layer, and at least one.
pub open spec fn spec_default_beams(cpus: usize, layers: usize) -> usize {
    if layers == 0 || cpus / layers < 1 {
        1
    } else {
        cpus / layers
    }
}

/// How many nodes are expanded per step over `layers` search layers on `cpus`
/// processors when the caller does not say.
pub fn default_beams(cpus: usize, layers: usize) -> (out: usize)
    ensures
        out == spec_default_beams(cpus, layers),
        out >= 1,
{
    if layers == 0 {
        1
    } else {
        let share = cpus / layers;
        if share < 1 {
            1
        } else {
            share
        }
    }
}

/// How many workers solve the children of one step: one for each child, but no more than
/// there are processors.
pub open spec fn spec_pool_size(cpus: usize, layers: usize, beams: usize) -> int {
    vstd::math::min(cpus as int, layers * beams)
}

/// How many workers solve the children of a step with `beams` nodes over `layers`
/// search layers on `cpus` processors.
pub fn pool_size(cpus: usize, layers: usize, beams: usize) -> (out: usize)
    ensures
        out == spec_pool_size(cpus, layers, beams),
{
    match layers.checked_mul(beams) {
        Some(children) => if children < cpus {
            children
        } else {
            cpus
        },
        None => cpus,
    }
}

/// The number of processors available to this process, which is at least one.
///
/// Calls `num_cpus::get`. Nothing is proved of it: its documentation says that it always
/// returns at least 1, and that is all this states.
#[verifier::external_body]
fn available_cpus() -> (out: usize)
    ensures
        out >= 1,
{
    num_cpus::get()
}

/// A compiler that searches for a circuit over the layers of a gate-set.
///
/// `threshold` is the order key of the distance below which a circuit is accepted, and
/// `beams` the number of nodes to expand per step, if the caller fixes it.
pub struct SearchCompiler<G: Gateset> {
    pub threshold: u64,
    pub gateset: G,
    pub beams: Option<usize>,
}

impl<G: Gateset> SearchCompiler<G> {
    /// A compiler over `gateset` that accepts circuits closer to the target than
    /// `threshold`.
    pub fn new(threshold: u64, gateset: G, beams: Option<usize>) -> (out: Self)
        ensures
            out.threshold == threshold,
            out.gateset == gateset,
            out.beams == beams,
    {
        SearchCompiler { threshold, gateset, beams }
    }

    /// The number of qudits that a target of `size` rows is compiled on, if the qudits of
    /// its gate-set span `size` dimensions at all.
    pub fn qudits(&self, size: usize) -> (out: Option<u8>)
        ensures
            exists|radix: usize| #[trigger]
                call_ensures(G::d, (&self.gateset,), radix) && {
                    &&& out matches Some(dits) ==> spans(radix, dits as nat, size) && forall|
                        fewer: nat,
                    |
                        fewer < dits ==> !spans(radix, fewer, size)
                    &&& out is None ==> forall|dits: nat| !spans(radix, dits, size)
                },
    {
        let radix = self.gateset.d();
        qudit_count(size, radix)
    }

    /// The number of nodes to expand per step over `layers` search layers: what the
    /// caller fixed, or else what the number of processors allows.
    pub fn beam_factor(&self, layers: usize) -> (out: usize)
        ensures
            self.beams matches Some(fixed) ==> out == fixed,
            self.beams is None ==> out >= 1 && exists|cpus: usize|
                cpus >= 1 && out == #[trigger] spec_default_beams(cpus, layers),
    {
        match self.beams {
            Some(fixed) => fixed,
            None => default_beams(available_cpus(), layers),
        }
    }

    /// The number of workers for a step over `layers` search layers with `beams` nodes:
    /// no more than there are processors, and no more than there are children.
    pub fn workers(&self, layers: usize, beams: usize) -> (out: usize)
        ensures
            out <= layers * beams,
            exists|cpus: usize| cpus >= 1 && out == #[trigger] spec_pool_size(cpus, layers, beams),
    {
        let cpus = available_cpus();
        pool_size(cpus, layers, beams)
    }

    /// The circuit the search begins with: the product of the initial layer alone.
    pub fn root(&self, dits: u8) -> (out: GateProduct)
        ensures
            exists|layer: Gate| #[trigger]
                call_ensures(G::initial_layer, (&self.gateset, dits), layer) && out@
                    == (Shape::Product { substeps: seq![layer@] }),
    {
        let layer = self.gateset.initial_layer(dits);
        let ghost first = layer;
        let _ = layer.inputs();
        let steps = vec![layer];
        proof {
            let models = shapes(steps@);
            assert(models =~= seq![first@]);
            assert(inputs_before(models, 1) == first@.inputs()) by {
                assert(inputs_before(models, 0) == 0);
            }
        }
        GateProduct::new(steps)
    }
}

} // verus!
