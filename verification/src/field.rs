//! The scalar field of BLS12-381, modelled by its canonical residues.
//!
//! A field element is four little-endian 64-bit limbs whose value is a
//! canonical residue modulo the field order. The arithmetic itself is done by
//! `ark_bls12_381::Fr` behind trusted wrappers; every contract speaks of the
//! residue that a value denotes.
use vstd::prelude::*;

use ark_bls12_381::Fr;
use ark_ff::{BigInt, BigInteger, PrimeField};
use ark_std::rand::rngs::StdRng;
use ark_std::UniformRand;

verus! {

/// Base of one limb: 2^64.
pub open spec fn limb_base() -> int {
    0x10000000000000000
}

/// Order of the scalar field of the BLS12-381 curve.
pub open spec fn fr_order() -> int {
    0xffffffff00000001 + limb_base() * (0x53bda402fffe5bfe + limb_base() * (0x3339d80809a1d805
        + limb_base() * 0x73eda753299d7d48))
}

/// Field addition on residues.
pub open spec fn fadd(a: int, b: int) -> int {
    (a + b) % fr_order()
}

/// Field subtraction on residues.
pub open spec fn fsub(a: int, b: int) -> int {
    (a - b) % fr_order()
}

/// Field multiplication on residues.
pub open spec fn fmul(a: int, b: int) -> int {
    (a * b) % fr_order()
}

/// The source of random field elements and commitment generators.
#[verifier::external_type_specification]
#[verifier::external_body]
pub struct ExStdRng(StdRng);

/// An element of the scalar field, as the canonical residue it denotes.
#[derive(Clone, Copy, PartialEq, Eq, Structural, Debug, Hash)]
pub struct Fe {
    pub(crate) limb0: u64,
    pub(crate) limb1: u64,
    pub(crate) limb2: u64,
    pub(crate) limb3: u64,
}

impl View for Fe {
    type V = int;

    closed spec fn view(&self) -> int {
        self.limb0 + limb_base() * (self.limb1 + limb_base() * (self.limb2 + limb_base()
            * self.limb3))
    }
}

impl DeepView for Fe {
    type V = int;

    open spec fn deep_view(&self) -> int {
        self.view()
    }
}

impl Fe {
    /// Every element holds a canonical residue.
    #[verifier::type_invariant]
    pub closed spec fn canonical(self) -> bool {
        0 <= self.view() < fr_order()
    }

    /// The zero of the field.
    pub fn zero() -> (r: Fe)
        ensures
            r@ == 0,
    {
        Fe { limb0: 0, limb1: 0, limb2: 0, limb3: 0 }
    }

    /// The one of the field.
    pub fn one() -> (r: Fe)
        ensures
            r@ == 1,
    {
        Fe { limb0: 1, limb1: 0, limb2: 0, limb3: 0 }
    }

    /// The residue of a small integer.
    pub fn from_u64(x: u64) -> (r: Fe)
        ensures
            r@ == x,
    {
        Fe { limb0: x, limb1: 0, limb2: 0, limb3: 0 }
    }

    /// Field addition.
    pub fn add(&self, other: &Fe) -> (r: Fe)
        ensures
            r@ == fadd(self@, other@),
    {
        fe_add_raw(self, other)
    }

    /// Field subtraction.
    pub fn sub(&self, other: &Fe) -> (r: Fe)
        ensures
            r@ == fsub(self@, other@),
    {
        fe_sub_raw(self, other)
    }

    /// Field multiplication.
    pub fn mul(&self, other: &Fe) -> (r: Fe)
        ensures
            r@ == fmul(self@, other@),
    {
        fe_mul_raw(self, other)
    }

    /// A uniformly random field element; nothing holds of the value drawn
    /// beyond canonicity.
    pub fn rand(rng: &mut StdRng) -> (r: Fe) {
        fe_rand_raw(rng)
    }
}

/// `fmul` distributes over `fadd`.
pub proof fn lemma_fmul_distributes(a: int, b: int, c: int)
    ensures
        fmul(a, fadd(b, c)) == fadd(fmul(a, b), fmul(a, c)),
{
    let p = fr_order();
    vstd::arithmetic::div_mod::lemma_mul_mod_noop_general(a, b + c, p);
    assert(a * (b + c) == a * b + a * c) by (nonlinear_arith);
    vstd::arithmetic::div_mod::lemma_add_mod_noop(a * b, a * c, p);
}

/// `fmul` is associative.
pub proof fn lemma_fmul_assoc(a: int, b: int, c: int)
    ensures
        fmul(a, fmul(b, c)) == fmul(fmul(a, b), c),
{
    let p = fr_order();
    vstd::arithmetic::div_mod::lemma_mul_mod_noop_general(a, b * c, p);
    assert(a * (b * c) == (a * b) * c) by (nonlinear_arith);
    vstd::arithmetic::div_mod::lemma_mul_mod_noop_general(a * b, c, p);
}

/// `fmul` is commutative.
pub proof fn lemma_fmul_comm(a: int, b: int)
    ensures
        fmul(a, b) == fmul(b, a),
{
    assert(a * b == b * a) by (nonlinear_arith);
}

/// Summands of a double `fadd` may be regrouped.
pub proof fn lemma_fadd_rearrange(a: int, b: int, c: int, d: int)
    ensures
        fadd(fadd(a, b), fadd(c, d)) == fadd(fadd(a, c), fadd(b, d)),
{
    let p = fr_order();
    vstd::arithmetic::div_mod::lemma_add_mod_noop(a + b, c + d, p);
    vstd::arithmetic::div_mod::lemma_add_mod_noop(a + c, b + d, p);
}

/// A canonical residue is untouched by the reduction.
pub proof fn lemma_residue_identity(a: int)
    requires
        0 <= a < fr_order(),
    ensures
        a % fr_order() == a,
{
    vstd::arithmetic::div_mod::lemma_small_mod(a as nat, fr_order() as nat);
}

/// Two elements are the same exactly when they denote the same residue:
/// the limbs of a value are its base-2^64 digits, which are unique.
pub proof fn lemma_fe_eq_residue(a: Fe, b: Fe)
    ensures
        (a == b) <==> (a@ == b@),
{
    if a@ == b@ {
        lemma_limbs_unique(a, b);
    }
}

proof fn lemma_limbs_unique(a: Fe, b: Fe)
    requires
        a@ == b@,
    ensures
        a == b,
{
    let ha = a.limb1 + limb_base() * (a.limb2 + limb_base() * a.limb3);
    let hb = b.limb1 + limb_base() * (b.limb2 + limb_base() * b.limb3);
    lemma_digit_split(a@, a.limb0 as int, ha);
    lemma_digit_split(b@, b.limb0 as int, hb);
    assert(a.limb0 == b.limb0 && ha == hb);
    let ma = a.limb2 + limb_base() * a.limb3;
    let mb = b.limb2 + limb_base() * b.limb3;
    lemma_digit_split(ha, a.limb1 as int, ma);
    lemma_digit_split(hb, b.limb1 as int, mb);
    assert(a.limb1 == b.limb1 && ma == mb);
    lemma_digit_split(ma, a.limb2 as int, a.limb3 as int);
    lemma_digit_split(mb, b.limb2 as int, b.limb3 as int);
}

/// A value below 2^64 and a quotient determine, and are determined by, the
/// number `low + 2^64 * high`.
proof fn lemma_digit_split(x: int, low: int, high: int)
    requires
        x == low + limb_base() * high,
        0 <= low < limb_base(),
        0 <= high,
    ensures
        low == x % limb_base(),
        high == x / limb_base(),
{
    vstd::arithmetic::div_mod::lemma_fundamental_div_mod_converse_mod(
        x,
        limb_base(),
        high,
        low,
    );
    vstd::arithmetic::div_mod::lemma_fundamental_div_mod_converse_div(
        x,
        limb_base(),
        high,
        low,
    );
}

/// Relies on `ark_bls12_381::Fr` addition (`ark_ff::Fp`): adding two residues
/// and reading the canonical representative back yields the sum mod the field
/// order. `from_le_bytes_mod_order` interprets little-endian bytes mod the
/// order; `into_bigint` returns the canonical representative.
#[verifier::external_body]
fn fe_add_raw(a: &Fe, b: &Fe) -> (r: Fe)
    ensures
        r@ == fadd(a@, b@),
{
    let fa = Fr::from_le_bytes_mod_order(&BigInt::<4>([a.limb0, a.limb1, a.limb2, a.limb3]).to_bytes_le());
    let fb = Fr::from_le_bytes_mod_order(&BigInt::<4>([b.limb0, b.limb1, b.limb2, b.limb3]).to_bytes_le());
    let c = (fa + fb).into_bigint().0;
    Fe { limb0: c[0], limb1: c[1], limb2: c[2], limb3: c[3] }
}

/// Relies on `ark_bls12_381::Fr` subtraction, as `fe_add_raw` does on addition.
#[verifier::external_body]
fn fe_sub_raw(a: &Fe, b: &Fe) -> (r: Fe)
    ensures
        r@ == fsub(a@, b@),
{
    let fa = Fr::from_le_bytes_mod_order(&BigInt::<4>([a.limb0, a.limb1, a.limb2, a.limb3]).to_bytes_le());
    let fb = Fr::from_le_bytes_mod_order(&BigInt::<4>([b.limb0, b.limb1, b.limb2, b.limb3]).to_bytes_le());
    let c = (fa - fb).into_bigint().0;
    Fe { limb0: c[0], limb1: c[1], limb2: c[2], limb3: c[3] }
}

/// Relies on `ark_bls12_381::Fr` multiplication, as `fe_add_raw` does on
/// addition.
#[verifier::external_body]
fn fe_mul_raw(a: &Fe, b: &Fe) -> (r: Fe)
    ensures
        r@ == fmul(a@, b@),
{
    let fa = Fr::from_le_bytes_mod_order(&BigInt::<4>([a.limb0, a.limb1, a.limb2, a.limb3]).to_bytes_le());
    let fb = Fr::from_le_bytes_mod_order(&BigInt::<4>([b.limb0, b.limb1, b.limb2, b.limb3]).to_bytes_le());
    let c = (fa * fb).into_bigint().0;
    Fe { limb0: c[0], limb1: c[1], limb2: c[2], limb3: c[3] }
}

/// Relies on `ark_ff`'s `UniformRand` for `Fr`: draws one scalar from the
/// given source; nothing is stated of the value, whose representative is
/// canonical.
#[verifier::external_body]
fn fe_rand_raw(rng: &mut StdRng) -> (r: Fe) {
    let f = Fr::rand(rng);
    let c = f.into_bigint().0;
    Fe { limb0: c[0], limb1: c[1], limb2: c[2], limb3: c[3] }
}

} // verus!
