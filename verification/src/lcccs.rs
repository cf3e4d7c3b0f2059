//! Committed CCS instances and their folding.
//!
//! A `CCCS` is a committed instance with public input only; an `LCCCS` is a
//! linearized committed instance carrying an accumulation scalar, an
//! evaluation point and claimed evaluations. Construction turns a full
//! satisfying assignment into an instance and its witness; the relation checks
//! validate a pair and reject malformed or adversarial input with a typed
//! error; folding combines a running `LCCCS` with a fresh `CCCS` under one
//! challenge scalar into a new `LCCCS`, without touching its inputs.
use vstd::prelude::*;

use ark_std::rand::rngs::StdRng;

use crate::ccs::{lemma_sum_mz_linear, sum_mz, CCSError, CCS};
use crate::field::{
    fadd, fmul, lemma_fe_eq_residue, lemma_fmul_comm, lemma_residue_identity, Fe,
};
use crate::group::{g1_add_of, g1_mul_of, GroupElement};
use crate::pedersen;
use crate::pedersen::{commit_spec, Params};

verus! {

/// Witness of an instance: the private assignment tail and the blinding
/// randomness of its commitment.
pub struct Witness {
    /// The private coordinates: the assignment past the public input.
    pub w: Vec<Fe>,
    /// The blinding the commitment to `w` was made with.
    pub r_w: Fe,
}

/// Committed CCS instance: commitment and public input, not yet reduced to an
/// evaluation claim.
pub struct CCCS<'a> {
    /// The shape, shared read-only among the instances over one circuit.
    pub ccs: &'a CCS,
    /// Commitment to the witness vector.
    pub C: GroupElement,
    /// Public input, of length `l`.
    pub x: Vec<Fe>,
}

/// Linearized committed CCS instance: a committed instance reduced to claimed
/// evaluations at one point.
pub struct LCCCS<'a> {
    /// The shape, shared read-only among the instances over one circuit.
    pub ccs: &'a CCS,
    /// Commitment to the witness vector.
    pub C: GroupElement,
    /// Accumulation scalar: 1 on construction, accumulating the challenges
    /// across folds.
    pub u: Fe,
    /// Public input, of length `l`.
    pub x: Vec<Fe>,
    /// The evaluation point, of length `s`.
    pub r_x: Vec<Fe>,
    /// Claimed evaluation of each matrix at `r_x`, of length `t`.
    pub v: Vec<Fe>,
}

/// The full assignment a pair denotes: accumulation scalar, then public
/// input, then private witness.
pub open spec fn z_residues(u: int, x: Seq<int>, w: Seq<int>) -> Seq<int> {
    seq![u] + x + w
}

/// The commitment of the instance opens to the witness: it equals the
/// commitment to `w.w` under the blinding `w.r_w`.
pub open spec fn commitment_ok(c: Seq<u8>, params: Params, w: Witness) -> bool {
    c == commit_spec(params.generators.deep_view(), params.h@, w.w.deep_view(), w.r_w@)
}

impl<'a> CCCS<'a> {
    /// The lengths the shape allows, and enough generators to recommit.
    pub open spec fn lens_ok(self, params: Params, w: Witness) -> bool {
        &&& self.x.len() == self.ccs.l
        &&& w.w.len() == self.ccs.n - self.ccs.l - 1
        &&& w.w.len() <= params.generators.len()
    }

    /// Verify the pair: the commitment must open to the witness and the
    /// characteristic polynomial of the assignment must vanish on the whole
    /// hypercube.
    pub fn check_relation(&self, pedersen_params: &Params, w: &Witness) -> (res: Result<
        (),
        CCSError,
    >)
        requires
            self.ccs.wf(),
        ensures
            res is Ok <==> {
                &&& self.lens_ok(*pedersen_params, *w)
                &&& commitment_ok(self.C@, *pedersen_params, *w)
                &&& self.ccs.satisfied_by(
                    z_residues(1, self.x.deep_view(), w.w.deep_view()),
                )
            },
            res == Result::<(), CCSError>::Err(CCSError::LengthMismatch) <==> !self.lens_ok(
                *pedersen_params,
                *w,
            ),
            res == Result::<(), CCSError>::Err(CCSError::CommitmentMismatch) <==> {
                &&& self.lens_ok(*pedersen_params, *w)
                &&& !commitment_ok(self.C@, *pedersen_params, *w)
            },
            res == Result::<(), CCSError>::Err(CCSError::NotSatisfied) <==> {
                &&& self.lens_ok(*pedersen_params, *w)
                &&& commitment_ok(self.C@, *pedersen_params, *w)
                &&& !self.ccs.satisfied_by(
                    z_residues(1, self.x.deep_view(), w.w.deep_view()),
                )
            },
    {
        if self.x.len() != self.ccs.l || w.w.len() != self.ccs.n - self.ccs.l - 1 || w.w.len()
            > pedersen_params.generators.len() {
            return Err(CCSError::LengthMismatch);
        }
        let recommitted = pedersen::commit(pedersen_params, &w.w, &w.r_w);
        if !recommitted.equals(&self.C) {
            return Err(CCSError::CommitmentMismatch);
        }
        let z = assemble_z(Fe::one(), &self.x, &w.w);
        match self.ccs.check_relation(&z) {
            Ok(()) => Ok(()),
            Err(_) => Err(CCSError::NotSatisfied),
        }
    }
}

impl<'a> LCCCS<'a> {
    /// The lengths the shape allows, and enough generators to recommit.
    pub open spec fn lens_ok(self, params: Params, w: Witness) -> bool {
        &&& self.x.len() == self.ccs.l
        &&& self.r_x.len() == self.ccs.s
        &&& self.v.len() == self.ccs.t
        &&& w.w.len() == self.ccs.n - self.ccs.l - 1
        &&& w.w.len() <= params.generators.len()
    }

    /// Every claimed evaluation is the recomputed one: for each matrix `j`,
    /// `v[j] = Σ_y M̃_j(r_x, y)·z(y)` over the assignment the pair denotes.
    pub open spec fn evals_ok(self, w: Witness) -> bool {
        forall|j: int|
            0 <= j < self.ccs.t ==> self.v.deep_view()[j] == sum_mz(
                self.ccs.mats()[j],
                z_residues(self.u@, self.x.deep_view(), w.w.deep_view()),
                self.r_x.deep_view(),
            )
    }

    /// Verify the pair: the commitment must open to the witness and the
    /// claimed evaluations must equal the recomputed ones, exactly and
    /// componentwise.
    pub fn check_relation(&self, pedersen_params: &Params, w: &Witness) -> (res: Result<
        (),
        CCSError,
    >)
        requires
            self.ccs.wf(),
        ensures
            res is Ok <==> {
                &&& self.lens_ok(*pedersen_params, *w)
                &&& commitment_ok(self.C@, *pedersen_params, *w)
                &&& self.evals_ok(*w)
            },
            res == Result::<(), CCSError>::Err(CCSError::LengthMismatch) <==> !self.lens_ok(
                *pedersen_params,
                *w,
            ),
            res == Result::<(), CCSError>::Err(CCSError::CommitmentMismatch) <==> {
                &&& self.lens_ok(*pedersen_params, *w)
                &&& !commitment_ok(self.C@, *pedersen_params, *w)
            },
            res == Result::<(), CCSError>::Err(CCSError::EvaluationMismatch) <==> {
                &&& self.lens_ok(*pedersen_params, *w)
                &&& commitment_ok(self.C@, *pedersen_params, *w)
                &&& !self.evals_ok(*w)
            },
    {
        if self.x.len() != self.ccs.l || self.r_x.len() != self.ccs.s || self.v.len()
            != self.ccs.t || w.w.len() != self.ccs.n - self.ccs.l - 1 || w.w.len()
            > pedersen_params.generators.len() {
            return Err(CCSError::LengthMismatch);
        }
        let recommitted = pedersen::commit(pedersen_params, &w.w, &w.r_w);
        if !recommitted.equals(&self.C) {
            return Err(CCSError::CommitmentMismatch);
        }
        let z = assemble_z(self.u, &self.x, &w.w);
        let computed = self.ccs.evaluate_all_matrix_sums(&z, &self.r_x);
        let mut j: usize = 0;
        while j < computed.len()
            invariant
                self.ccs.wf(),
                self.lens_ok(*pedersen_params, *w),
                commitment_ok(self.C@, *pedersen_params, *w),
                computed.len() == self.ccs.t,
                self.v.len() == self.ccs.t,
                z.deep_view() == z_residues(self.u@, self.x.deep_view(), w.w.deep_view()),
                forall|j2: int|
                    0 <= j2 < computed.len() ==> computed.deep_view()[j2] == sum_mz(
                        self.ccs.mats()[j2],
                        z.deep_view(),
                        self.r_x.deep_view(),
                    ),
                j <= computed.len(),
                forall|j2: int|
                    0 <= j2 < j ==> self.v.deep_view()[j2] == computed.deep_view()[j2],
            decreases computed.len() - j,
        {
            let claimed = self.v[j];
            let recomputed = computed[j];
            proof {
                lemma_fe_eq_residue(claimed, recomputed);
                assert(claimed@ == self.v.deep_view()[j as int]);
                assert(recomputed@ == computed.deep_view()[j as int]);
            }
            if claimed != recomputed {
                proof {
                    assert(self.v.deep_view()[j as int] != sum_mz(
                        self.ccs.mats()[j as int],
                        z_residues(self.u@, self.x.deep_view(), w.w.deep_view()),
                        self.r_x.deep_view(),
                    ));
                    assert(!self.evals_ok(*w));
                }
                return Err(CCSError::EvaluationMismatch);
            }
            j += 1;
        }
        proof {
            assert forall|j2: int| 0 <= j2 < self.ccs.t implies self.v.deep_view()[j2] == sum_mz(
                self.ccs.mats()[j2],
                z_residues(self.u@, self.x.deep_view(), w.w.deep_view()),
                self.r_x.deep_view(),
            ) by {
                assert(self.v.deep_view()[j2] == computed.deep_view()[j2]);
                assert(computed.deep_view()[j2] == sum_mz(
                    self.ccs.mats()[j2],
                    z.deep_view(),
                    self.r_x.deep_view(),
                ));
            }
            assert(self.evals_ok(*w));
        }
        Ok(())
    }

    /// Fold a running linearized instance with a fresh committed instance
    /// under the challenge `rho`: commitment, accumulation scalar, public
    /// input and claimed evaluations combine linearly, and the evaluation
    /// point is replaced by `r_x_prime`. The inputs are left untouched;
    /// `sigmas`, `thetas` and `r_x_prime` must come from the surrounding
    /// sum-check reduction for this pair and this `rho`, which nothing here
    /// validates.
    pub fn fold(
        lcccs1: &LCCCS<'a>,
        cccs2: &CCCS<'a>,
        sigmas: &Vec<Fe>,
        thetas: &Vec<Fe>,
        r_x_prime: Vec<Fe>,
        rho: Fe,
    ) -> (out: LCCCS<'a>)
        requires
            lcccs1.x.len() == lcccs1.ccs.l,
            cccs2.x.len() == lcccs1.ccs.l,
            sigmas.len() == lcccs1.ccs.t,
            thetas.len() == lcccs1.ccs.t,
            r_x_prime.len() == lcccs1.ccs.s,
        ensures
            fold_post(*lcccs1, *cccs2, sigmas.deep_view(), thetas.deep_view(), r_x_prime, rho@, out),
    {
        let C = lcccs1.C.add(&cccs2.C.scalar_mul(&rho));
        let u = lcccs1.u.add(&rho);
        let mut x: Vec<Fe> = Vec::new();
        let mut i: usize = 0;
        while i < lcccs1.x.len()
            invariant
                lcccs1.x.len() == cccs2.x.len(),
                i <= lcccs1.x.len(),
                x.len() == i,
                forall|i2: int|
                    0 <= i2 < i ==> x.deep_view()[i2] == fadd(
                        lcccs1.x.deep_view()[i2],
                        fmul(cccs2.x.deep_view()[i2], rho@),
                    ),
            decreases lcccs1.x.len() - i,
        {
            let ghost prev = x.deep_view();
            x.push(lcccs1.x[i].add(&cccs2.x[i].mul(&rho)));
            proof {
                assert(x.deep_view() =~= prev.push(x@[i as int]@));
            }
            i += 1;
        }
        let mut v: Vec<Fe> = Vec::new();
        let mut j: usize = 0;
        while j < sigmas.len()
            invariant
                sigmas.len() == thetas.len(),
                j <= sigmas.len(),
                v.len() == j,
                forall|j2: int|
                    0 <= j2 < j ==> v.deep_view()[j2] == fadd(
                        sigmas.deep_view()[j2],
                        fmul(thetas.deep_view()[j2], rho@),
                    ),
            decreases sigmas.len() - j,
        {
            let ghost prev = v.deep_view();
            v.push(sigmas[j].add(&thetas[j].mul(&rho)));
            proof {
                assert(v.deep_view() =~= prev.push(v@[j as int]@));
            }
            j += 1;
        }
        LCCCS { ccs: lcccs1.ccs, C, u, x, r_x: r_x_prime, v }
    }

    /// Fold the two witnesses under the same challenge `rho` as `fold`:
    /// `w' = w1 + rho·w2` componentwise, `r_w' = r_w1 + rho·r_w2`.
    pub fn fold_witness(w1: Witness, w2: Witness, rho: Fe) -> (out: Witness)
        requires
            w1.w.len() == w2.w.len(),
        ensures
            out.w.len() == w1.w.len(),
            forall|i: int|
                0 <= i < w1.w.len() ==> out.w.deep_view()[i] == fadd(
                    w1.w.deep_view()[i],
                    fmul(w2.w.deep_view()[i], rho@),
                ),
            out.r_w@ == fadd(w1.r_w@, fmul(rho@, w2.r_w@)),
    {
        let mut w: Vec<Fe> = Vec::new();
        let mut i: usize = 0;
        while i < w1.w.len()
            invariant
                w1.w.len() == w2.w.len(),
                i <= w1.w.len(),
                w.len() == i,
                forall|i2: int|
                    0 <= i2 < i ==> w.deep_view()[i2] == fadd(
                        w1.w.deep_view()[i2],
                        fmul(w2.w.deep_view()[i2], rho@),
                    ),
            decreases w1.w.len() - i,
        {
            let ghost prev = w.deep_view();
            w.push(w1.w[i].add(&w2.w[i].mul(&rho)));
            proof {
                assert(w.deep_view() =~= prev.push(w@[i as int]@));
            }
            i += 1;
        }
        let r_w = w1.r_w.add(&rho.mul(&w2.r_w));
        Witness { w, r_w }
    }
}

/// Everything `fold` promises of its output, as one predicate: each public
/// component of the new instance is the stated linear combination of the
/// inputs under the challenge, and the evaluation point is `r_x_prime`.
pub open spec fn fold_post<'a>(
    l1: LCCCS<'a>,
    c2: CCCS<'a>,
    sigmas: Seq<int>,
    thetas: Seq<int>,
    r_x_prime: Vec<Fe>,
    rho: int,
    out: LCCCS<'a>,
) -> bool {
    &&& out.ccs == l1.ccs
    &&& out.C@ == g1_add_of(l1.C@, g1_mul_of(c2.C@, rho))
    &&& out.u@ == fadd(l1.u@, rho)
    &&& out.x.len() == l1.x.len()
    &&& (forall|i: int|
        0 <= i < l1.x.len() ==> out.x.deep_view()[i] == fadd(
            l1.x.deep_view()[i],
            fmul(c2.x.deep_view()[i], rho),
        ))
    &&& out.r_x == r_x_prime
    &&& out.v.len() == sigmas.len()
    &&& (forall|j: int|
        0 <= j < sigmas.len() ==> out.v.deep_view()[j] == fadd(sigmas[j], fmul(thetas[j], rho)))
}

impl CCS {
    /// Construct a linearized committed instance and its witness from a full
    /// assignment: commit to the private tail under a fresh blinding, draw a
    /// fresh evaluation point of `s` coordinates, and claim the evaluation of
    /// every matrix there, with accumulation scalar 1.
    pub fn to_lcccs<'a>(
        &'a self,
        rng: &mut StdRng,
        pedersen_params: &Params,
        z: &Vec<Fe>,
    ) -> (out: (LCCCS<'a>, Witness))
        requires
            self.wf(),
            z.len() == self.n,
            z.deep_view()[0] == 1,
            self.n - self.l - 1 <= pedersen_params.generators.len(),
        ensures
            out.0.ccs == self,
            out.1.w.deep_view() == z.deep_view().subrange(self.l as int + 1, self.n as int),
            out.0.x.deep_view() == z.deep_view().subrange(1, self.l as int + 1),
            out.0.u@ == 1,
            out.0.r_x.len() == self.s,
            out.0.v.len() == self.t,
            forall|j: int|
                0 <= j < self.t ==> out.0.v.deep_view()[j] == sum_mz(
                    self.mats()[j],
                    z.deep_view(),
                    out.0.r_x.deep_view(),
                ),
            commitment_ok(out.0.C@, *pedersen_params, out.1),
    {
        let w = copy_range(z, self.l + 1, z.len());
        let r_w = Fe::rand(rng);
        let C = pedersen::commit(pedersen_params, &w, &r_w);
        let mut r_x: Vec<Fe> = Vec::new();
        let mut i: usize = 0;
        while i < self.s
            invariant
                i <= self.s,
                r_x.len() == i,
            decreases self.s - i,
        {
            r_x.push(Fe::rand(rng));
            i += 1;
        }
        let v = self.evaluate_all_matrix_sums(z, &r_x);
        let x = copy_range(z, 1, self.l + 1);
        (LCCCS { ccs: self, C, u: Fe::one(), x, r_x, v }, Witness { w, r_w })
    }

    /// Construct a committed instance and its witness from a full assignment:
    /// commit to the private tail under a fresh blinding; no evaluation point
    /// is chosen.
    pub fn to_cccs<'a>(
        &'a self,
        rng: &mut StdRng,
        pedersen_params: &Params,
        z: &Vec<Fe>,
    ) -> (out: (CCCS<'a>, Witness))
        requires
            self.wf(),
            z.len() == self.n,
            z.deep_view()[0] == 1,
            self.n - self.l - 1 <= pedersen_params.generators.len(),
        ensures
            out.0.ccs == self,
            out.1.w.deep_view() == z.deep_view().subrange(self.l as int + 1, self.n as int),
            out.0.x.deep_view() == z.deep_view().subrange(1, self.l as int + 1),
            commitment_ok(out.0.C@, *pedersen_params, out.1),
    {
        let w = copy_range(z, self.l + 1, z.len());
        let r_w = Fe::rand(rng);
        let C = pedersen::commit(pedersen_params, &w, &r_w);
        let x = copy_range(z, 1, self.l + 1);
        (CCCS { ccs: self, C, x }, Witness { w, r_w })
    }
}

/// Copy one contiguous range of the assignment.
fn copy_range(z: &Vec<Fe>, from: usize, to: usize) -> (out: Vec<Fe>)
    requires
        from <= to <= z.len(),
    ensures
        out.len() == to - from,
        out.deep_view() == z.deep_view().subrange(from as int, to as int),
{
    let mut out: Vec<Fe> = Vec::new();
    let mut i: usize = from;
    while i < to
        invariant
            from <= i <= to <= z.len(),
            out.len() == i - from,
            out.deep_view() == z.deep_view().subrange(from as int, i as int),
        decreases to - i,
    {
        let ghost prev = out.deep_view();
        out.push(z[i]);
        proof {
            assert(out.deep_view() =~= prev.push(z@[i as int]@));
            assert(out.deep_view() =~= z.deep_view().subrange(from as int, i as int + 1));
        }
        i += 1;
    }
    out
}

/// Assemble the full assignment `[u] ++ x ++ w`.
fn assemble_z(u: Fe, x: &Vec<Fe>, w: &Vec<Fe>) -> (z: Vec<Fe>)
    ensures
        z.len() == 1 + x.len() + w.len(),
        z.deep_view() == z_residues(u@, x.deep_view(), w.deep_view()),
{
    let mut z: Vec<Fe> = Vec::new();
    z.push(u);
    let mut i: usize = 0;
    while i < x.len()
        invariant
            i <= x.len(),
            z.len() == 1 + i,
            z.deep_view() == seq![u@] + x.deep_view().subrange(0, i as int),
        decreases x.len() - i,
    {
        let ghost prev = z.deep_view();
        z.push(x[i]);
        proof {
            assert(z.deep_view() =~= prev.push(x@[i as int]@));
            assert(z.deep_view() =~= seq![u@] + x.deep_view().subrange(0, i as int + 1));
        }
        i += 1;
    }
    let mut k: usize = 0;
    while k < w.len()
        invariant
            k <= w.len(),
            z.len() == 1 + x.len() + k,
            z.deep_view() == seq![u@] + x.deep_view() + w.deep_view().subrange(0, k as int),
        decreases w.len() - k,
    {
        let ghost prev = z.deep_view();
        z.push(w[k]);
        proof {
            assert(z.deep_view() =~= prev.push(w@[k as int]@));
            assert(z.deep_view() =~= seq![u@] + x.deep_view() + w.deep_view().subrange(
                0,
                k as int + 1,
            ));
        }
        k += 1;
    }
    proof {
        assert(x.deep_view().subrange(0, x.len() as int) =~= x.deep_view());
        assert(w.deep_view().subrange(0, w.len() as int) =~= w.deep_view());
        assert(z.deep_view() =~= z_residues(u@, x.deep_view(), w.deep_view()));
    }
    z
}

/// Determinism of folding: two outputs that `fold` could return for the same
/// inputs and the same challenge are the same instance, component by
/// component.
pub proof fn lemma_fold_deterministic<'a>(
    l1: LCCCS<'a>,
    c2: CCCS<'a>,
    sigmas: Seq<int>,
    thetas: Seq<int>,
    r_x_prime: Vec<Fe>,
    rho: int,
    o1: LCCCS<'a>,
    o2: LCCCS<'a>,
)
    requires
        fold_post(l1, c2, sigmas, thetas, r_x_prime, rho, o1),
        fold_post(l1, c2, sigmas, thetas, r_x_prime, rho, o2),
    ensures
        o1.ccs == o2.ccs,
        o1.C@ == o2.C@,
        o1.u == o2.u,
        o1.x@ == o2.x@,
        o1.r_x == o2.r_x,
        o1.v@ == o2.v@,
{
    lemma_fe_eq_residue(o1.u, o2.u);
    assert forall|i: int| 0 <= i < o1.x@.len() implies o1.x@[i] == o2.x@[i] by {
        assert(o1.x.deep_view()[i] == o2.x.deep_view()[i]);
        lemma_fe_eq_residue(o1.x@[i], o2.x@[i]);
    }
    assert(o1.x@ =~= o2.x@);
    assert forall|j: int| 0 <= j < o1.v@.len() implies o1.v@[j] == o2.v@[j] by {
        assert(o1.v.deep_view()[j] == o2.v.deep_view()[j]);
        lemma_fe_eq_residue(o1.v@[j], o2.v@[j]);
    }
    assert(o1.v@ =~= o2.v@);
}

/// The folded commitment is exactly the homomorphic combination of the input
/// commitments, `C1 + rho·C2`, under the canonical encoding.
pub proof fn lemma_fold_commitment<'a>(
    l1: LCCCS<'a>,
    c2: CCCS<'a>,
    sigmas: Seq<int>,
    thetas: Seq<int>,
    r_x_prime: Vec<Fe>,
    rho: int,
    out: LCCCS<'a>,
)
    requires
        fold_post(l1, c2, sigmas, thetas, r_x_prime, rho, out),
    ensures
        out.C@ == g1_add_of(l1.C@, g1_mul_of(c2.C@, rho)),
{
}

/// Folding correctness, the evaluation half: when `sigmas` and `thetas` are
/// the claimed evaluations, at the new point, of the assignments the two input
/// pairs denote — which the surrounding sum-check reduction owes the caller —
/// then the instance `fold` returns and the witness `fold_witness` returns
/// under the same canonical challenge make every claimed evaluation of the
/// folded pair the recomputed one. Together with the homomorphism of the
/// commitment, which no statement over the named group operations can supply,
/// this is why folding two satisfying pairs yields a satisfying pair.
pub proof fn lemma_fold_evals_correct<'a>(
    l1: LCCCS<'a>,
    c2: CCCS<'a>,
    w1: Witness,
    w2: Witness,
    sigmas: Seq<int>,
    thetas: Seq<int>,
    r_x_prime: Vec<Fe>,
    rho: int,
    out: LCCCS<'a>,
    w_out: Witness,
)
    requires
        0 <= rho < crate::field::fr_order(),
        fold_post(l1, c2, sigmas, thetas, r_x_prime, rho, out),
        sigmas.len() == l1.ccs.t,
        l1.x.len() == c2.x.len(),
        w1.w.len() == w2.w.len(),
        forall|j: int|
            0 <= j < l1.ccs.t ==> sigmas[j] == sum_mz(
                l1.ccs.mats()[j],
                z_residues(l1.u@, l1.x.deep_view(), w1.w.deep_view()),
                r_x_prime.deep_view(),
            ),
        forall|j: int|
            0 <= j < l1.ccs.t ==> thetas[j] == sum_mz(
                l1.ccs.mats()[j],
                z_residues(1, c2.x.deep_view(), w2.w.deep_view()),
                r_x_prime.deep_view(),
            ),
        w_out.w.len() == w1.w.len(),
        forall|i: int|
            0 <= i < w1.w.len() ==> w_out.w.deep_view()[i] == fadd(
                w1.w.deep_view()[i],
                fmul(w2.w.deep_view()[i], rho),
            ),
    ensures
        out.evals_ok(w_out),
{
    let z1 = z_residues(l1.u@, l1.x.deep_view(), w1.w.deep_view());
    let z2 = z_residues(1, c2.x.deep_view(), w2.w.deep_view());
    let zf = z_residues(out.u@, out.x.deep_view(), w_out.w.deep_view());
    lemma_residue_identity(rho);
    assert forall|y: int| 0 <= y < zf.len() implies zf[y] == fadd(z1[y], fmul(rho, z2[y])) by {
        if y == 0 {
            assert(fmul(rho, 1) == rho);
        } else if y < 1 + l1.x.len() {
            lemma_fmul_comm(c2.x.deep_view()[y - 1], rho);
        } else {
            lemma_fmul_comm(w2.w.deep_view()[y - 1 - l1.x.len()], rho);
        }
    }
    assert forall|j: int| 0 <= j < out.ccs.t implies out.v.deep_view()[j] == sum_mz(
        out.ccs.mats()[j],
        zf,
        out.r_x.deep_view(),
    ) by {
        lemma_sum_mz_linear(l1.ccs.mats()[j], z1, z2, zf, r_x_prime.deep_view(), rho);
        lemma_fmul_comm(thetas[j], rho);
    }
}

/// Round-trip soundness for linearized instances: a pair related to a full
/// assignment `z` with `z[0] == 1` as construction leaves it — witness and
/// public input the two halves of `z`, accumulation scalar 1, commitment
/// opening to the witness, claimed evaluations those of `z` — passes every
/// clause of the linearized relation check.
pub proof fn lemma_lcccs_round_trip<'a>(params: Params, inst: LCCCS<'a>, wit: Witness, z: Seq<int>)
    requires
        inst.ccs.wf(),
        z.len() == inst.ccs.n,
        z[0] == 1,
        wit.w.deep_view() == z.subrange(inst.ccs.l as int + 1, inst.ccs.n as int),
        inst.x.deep_view() == z.subrange(1, inst.ccs.l as int + 1),
        inst.u@ == 1,
        inst.r_x.len() == inst.ccs.s,
        inst.v.len() == inst.ccs.t,
        forall|j: int|
            0 <= j < inst.ccs.t ==> inst.v.deep_view()[j] == sum_mz(
                inst.ccs.mats()[j],
                z,
                inst.r_x.deep_view(),
            ),
        commitment_ok(inst.C@, params, wit),
        wit.w.len() <= params.generators.len(),
    ensures
        inst.lens_ok(params, wit),
        inst.evals_ok(wit),
{
    assert(wit.w.len() == wit.w.deep_view().len());
    assert(inst.x.len() == inst.x.deep_view().len());
    assert(z_residues(inst.u@, inst.x.deep_view(), wit.w.deep_view()) =~= z);
}

/// Round-trip soundness for committed instances: a pair related to a full
/// satisfying assignment `z` with `z[0] == 1` as construction leaves it passes
/// every clause of the committed relation check.
pub proof fn lemma_cccs_round_trip<'a>(params: Params, inst: CCCS<'a>, wit: Witness, z: Seq<int>)
    requires
        inst.ccs.wf(),
        z.len() == inst.ccs.n,
        z[0] == 1,
        wit.w.deep_view() == z.subrange(inst.ccs.l as int + 1, inst.ccs.n as int),
        inst.x.deep_view() == z.subrange(1, inst.ccs.l as int + 1),
        inst.ccs.satisfied_by(z),
        commitment_ok(inst.C@, params, wit),
        wit.w.len() <= params.generators.len(),
    ensures
        inst.lens_ok(params, wit),
        inst.ccs.satisfied_by(z_residues(1, inst.x.deep_view(), wit.w.deep_view())),
{
    assert(wit.w.len() == wit.w.deep_view().len());
    assert(inst.x.len() == inst.x.deep_view().len());
    assert(z_residues(1, inst.x.deep_view(), wit.w.deep_view()) =~= z);
}

} // verus!
