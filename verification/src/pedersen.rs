//! Pedersen vector commitments over `G1`: binding, hiding, and additively
//! homomorphic. A commitment to `w` under blinding `r` is
//! `r·h + w[0]·g[0] + … + w[k-1]·g[k-1]`, written here over the named group
//! operations, left to right.
use vstd::prelude::*;

use ark_std::rand::rngs::StdRng;

use crate::field::Fe;
use crate::group::{g1_add_of, g1_mul_of, GroupElement};

verus! {

/// Public commitment parameters: a blinding generator and one generator per
/// committed coordinate.
pub struct Params {
    pub h: GroupElement,
    pub generators: Vec<GroupElement>,
}

/// The encoding of the commitment to the first `k` coordinates of `w` under
/// blinding `r`: `r·h + w[0]·g[0] + … + w[k-1]·g[k-1]`.
pub open spec fn commit_prefix(gs: Seq<Seq<u8>>, h: Seq<u8>, w: Seq<int>, r: int, k: nat) -> Seq<
    u8,
>
    decreases k,
{
    if k == 0 {
        g1_mul_of(h, r)
    } else {
        g1_add_of(commit_prefix(gs, h, w, r, (k - 1) as nat), g1_mul_of(gs[k - 1], w[k - 1]))
    }
}

/// The encoding of the commitment to all of `w` under blinding `r`.
pub open spec fn commit_spec(gs: Seq<Seq<u8>>, h: Seq<u8>, w: Seq<int>, r: int) -> Seq<u8> {
    commit_prefix(gs, h, w, r, w.len())
}

/// Draw commitment parameters for vectors of at most `max` coordinates.
pub fn new_params(rng: &mut StdRng, max: usize) -> (r: Params)
    ensures
        r.generators.len() == max,
{
    let h = GroupElement::rand(rng);
    let mut generators: Vec<GroupElement> = Vec::new();
    let mut i: usize = 0;
    while i < max
        invariant
            i <= max,
            generators.len() == i,
        decreases max - i,
    {
        generators.push(GroupElement::rand(rng));
        i += 1;
    }
    Params { h, generators }
}

/// Commit to the vector `w` under the blinding `r`.
pub fn commit(params: &Params, w: &Vec<Fe>, r: &Fe) -> (c: GroupElement)
    requires
        w.len() <= params.generators.len(),
    ensures
        c@ == commit_spec(params.generators.deep_view(), params.h@, w.deep_view(), r@),
{
    let mut acc = params.h.scalar_mul(r);
    let mut i: usize = 0;
    while i < w.len()
        invariant
            i <= w.len(),
            w.len() <= params.generators.len(),
            acc@ == commit_prefix(
                params.generators.deep_view(),
                params.h@,
                w.deep_view(),
                r@,
                i as nat,
            ),
        decreases w.len() - i,
    {
        let term = params.generators[i].scalar_mul(&w[i]);
        acc = acc.add(&term);
        i += 1;
    }
    acc
}

} // verus!
