//! The commitment group: points of BLS12-381 `G1`, by their canonical
//! compressed encoding.
//!
//! A `GroupElement` carries the curve point itself, for `ark_ec`'s arithmetic,
//! next to the canonical compressed encoding of that same point; every
//! constructor keeps the two in step, and the contracts speak of the encoding
//! alone. Group addition and scalar multiplication are deterministic, so their
//! results under the encoding are named spec functions.
use vstd::prelude::*;

use ark_bls12_381::{Fr, G1Projective};
use ark_ff::{BigInt, BigInteger, PrimeField};
use ark_serialize::CanonicalSerialize;
use ark_std::rand::rngs::StdRng;
use ark_std::UniformRand;

use crate::field::Fe;

verus! {

/// A point of `G1` as `ark_ec` computes with it, opaque here: its generic
/// curve-parameter bounds keep the type itself from being declared, so it is
/// held inside this opaque struct, which only the trusted wrappers below ever
/// open.
#[verifier::external_body]
struct PointInner(G1Projective);

/// The compressed encoding of the sum of the two points so encoded.
pub uninterp spec fn g1_add_of(a: Seq<u8>, b: Seq<u8>) -> Seq<u8>;

/// The compressed encoding of the point so encoded, multiplied by the residue
/// `k` of the scalar field.
pub uninterp spec fn g1_mul_of(p: Seq<u8>, k: int) -> Seq<u8>;

/// A point of `G1`, viewed as its canonical compressed encoding.
pub struct GroupElement {
    pt: PointInner,
    rep: Vec<u8>,
}

impl View for GroupElement {
    type V = Seq<u8>;

    closed spec fn view(&self) -> Seq<u8> {
        self.rep@
    }
}

impl DeepView for GroupElement {
    type V = Seq<u8>;

    open spec fn deep_view(&self) -> Seq<u8> {
        self.view()
    }
}

impl GroupElement {
    /// Group addition.
    pub fn add(&self, other: &GroupElement) -> (r: GroupElement)
        ensures
            r@ == g1_add_of(self@, other@),
    {
        g1_add_raw(self, other)
    }

    /// Multiplication by a scalar.
    pub fn scalar_mul(&self, k: &Fe) -> (r: GroupElement)
        ensures
            r@ == g1_mul_of(self@, k@),
    {
        g1_mul_raw(self, k)
    }

    /// Whether the two points have the same encoding, and so are the same
    /// point: the compressed encoding is canonical.
    pub fn equals(&self, other: &GroupElement) -> (r: bool)
        ensures
            r == (self@ == other@),
    {
        if self.rep.len() != other.rep.len() {
            return false;
        }
        let n = self.rep.len();
        let mut i: usize = 0;
        while i < n
            invariant
                i <= n,
                n == self.rep.len() == other.rep.len(),
                forall|j: int| 0 <= j < i ==> self.rep@[j] == other.rep@[j],
            decreases n - i,
        {
            if self.rep[i] != other.rep[i] {
                return false;
            }
            i += 1;
        }
        proof {
            assert(self@ =~= other@);
        }
        true
    }

    /// A uniformly random point, for commitment generators; nothing holds of
    /// which point is drawn.
    pub fn rand(rng: &mut StdRng) -> (r: GroupElement) {
        g1_rand_raw(rng)
    }
}

/// Relies on `ark_ec`'s group addition on `G1Projective` and on
/// `ark_serialize`'s canonical compressed encoding: the encoding of the sum of
/// two points is a function of their encodings alone.
#[verifier::external_body]
fn g1_add_raw(a: &GroupElement, b: &GroupElement) -> (r: GroupElement)
    ensures
        r@ == g1_add_of(a@, b@),
{
    let p = a.pt.0 + b.pt.0;
    let mut rep: Vec<u8> = Vec::new();
    p.serialize_compressed(&mut rep).unwrap();
    GroupElement { pt: PointInner(p), rep }
}

/// Relies on `ark_ec`'s scalar multiplication on `G1Projective` and on
/// `ark_serialize`'s canonical compressed encoding: the encoding of `k` times
/// a point is a function of the point's encoding and the residue `k` alone.
#[verifier::external_body]
fn g1_mul_raw(a: &GroupElement, k: &Fe) -> (r: GroupElement)
    ensures
        r@ == g1_mul_of(a@, k@),
{
    let fk = Fr::from_le_bytes_mod_order(&BigInt::<4>([k.limb0, k.limb1, k.limb2, k.limb3]).to_bytes_le());
    let p = a.pt.0 * fk;
    let mut rep: Vec<u8> = Vec::new();
    p.serialize_compressed(&mut rep).unwrap();
    GroupElement { pt: PointInner(p), rep }
}

/// Relies on `ark_ff`'s `UniformRand` for `G1Projective`: draws one point from
/// the given source; nothing is stated of which point comes.
#[verifier::external_body]
fn g1_rand_raw(rng: &mut StdRng) -> (r: GroupElement) {
    let p = G1Projective::rand(rng);
    let mut rep: Vec<u8> = Vec::new();
    p.serialize_compressed(&mut rep).unwrap();
    GroupElement { pt: PointInner(p), rep }
}

} // verus!
