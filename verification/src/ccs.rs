//! Customizable constraint systems: the shape, the hypercube evaluation
//! machinery, and the satisfiability check of a full assignment.
//!
//! A shape has `t` matrices of `m = 2^s` rows and `n` columns, and a
//! characteristic polynomial `q(x) = Σ_i c_i · Π_{j ∈ S_i} (M_j z)(x)`: an
//! assignment `z` satisfies the system when `q` vanishes on every row of the
//! boolean hypercube `{0,1}^s`. Sums, products and multilinear-extension
//! values are defined below as left-to-right folds over field residues.
use vstd::prelude::*;

use vstd::arithmetic::div_mod::lemma_div_denominator;
use vstd::arithmetic::power2::{lemma2_to64, lemma_pow2_pos, lemma_pow2_unfold, pow2};

use crate::field::{
    fadd, fmul, fsub, lemma_fadd_rearrange, lemma_fmul_assoc, lemma_fmul_comm,
    lemma_fmul_distributes, Fe,
};

verus! {

/// Why an instance or assignment was rejected.
#[derive(Clone, Copy, Debug, PartialEq, Eq, Structural)]
pub enum CCSError {
    /// The characteristic polynomial does not vanish on the whole hypercube.
    NotSatisfied,
    /// The instance's commitment is not the commitment to the given witness.
    CommitmentMismatch,
    /// A claimed evaluation differs from the recomputed one.
    EvaluationMismatch,
    /// A vector has a length the shape does not allow.
    LengthMismatch,
}

/// A CCS shape. It is fixed per circuit and shared, read-only, by every
/// instance over it.
pub struct CCS {
    /// Number of hypercube rows, `2^s`.
    pub m: usize,
    /// Full assignment length.
    pub n: usize,
    /// Public input length.
    pub l: usize,
    /// Number of matrices.
    pub t: usize,
    /// Number of terms of the characteristic polynomial.
    pub q: usize,
    /// Hypercube dimension.
    pub s: usize,
    /// The `t` constraint matrices, each of `m` rows of `n` columns.
    pub matrices: Vec<Vec<Vec<Fe>>>,
    /// Per term, the multiset of matrix indices multiplied together.
    pub index_sets: Vec<Vec<usize>>,
    /// Per term, its coefficient.
    pub coefficients: Vec<Fe>,
}

/// Bit `i` of the row index `a`.
pub open spec fn bit(a: nat, i: nat) -> int {
    if (a / pow2(i)) % 2 == 1 {
        1
    } else {
        0
    }
}

/// One factor of the Lagrange basis value: `r_i` where the bit is set,
/// `1 - r_i` where it is clear.
pub open spec fn eq_term(ri: int, b: int) -> int {
    if b == 1 {
        ri
    } else {
        fsub(1, ri)
    }
}

/// The product of the first `k` factors of the Lagrange basis value of row `a`
/// at the point `r`.
pub open spec fn eq_prefix(r: Seq<int>, a: nat, k: nat) -> int
    decreases k,
{
    if k == 0 {
        1
    } else {
        fmul(eq_prefix(r, a, (k - 1) as nat), eq_term(r[k - 1], bit(a, (k - 1) as nat)))
    }
}

/// `eq(r, a)`: the multilinear Lagrange basis polynomial of the boolean row
/// `a`, evaluated at the point `r`.
pub open spec fn eq_at(r: Seq<int>, a: nat) -> int {
    eq_prefix(r, a, r.len())
}

/// `Σ_{a < k} M[a][y] · eq(r, a)`.
pub open spec fn ext_prefix(mat: Seq<Seq<int>>, r: Seq<int>, y: int, k: nat) -> int
    decreases k,
{
    if k == 0 {
        0
    } else {
        fadd(ext_prefix(mat, r, y, (k - 1) as nat), fmul(mat[k - 1][y], eq_at(r, (k - 1) as nat)))
    }
}

/// `M̃(r, y)`: the multilinear extension of the matrix in its row variable,
/// evaluated at the point `r`, for the boolean column `y`.
pub open spec fn matrix_ext(mat: Seq<Seq<int>>, r: Seq<int>, y: int) -> int {
    ext_prefix(mat, r, y, mat.len())
}

/// `Σ_{y < k} M̃(r, y) · z[y]`.
pub open spec fn sum_mz_prefix(mat: Seq<Seq<int>>, z: Seq<int>, r: Seq<int>, k: nat) -> int
    decreases k,
{
    if k == 0 {
        0
    } else {
        fadd(sum_mz_prefix(mat, z, r, (k - 1) as nat), fmul(matrix_ext(mat, r, k - 1), z[k - 1]))
    }
}

/// `Σ_{y ∈ {0,1}^(log n)} M̃(r, y) · z(y)`: the claimed evaluation of one
/// matrix against the assignment at the point `r`. Columns past `n` extend the
/// matrix by zero, so the sum stops at `n`.
pub open spec fn sum_mz(mat: Seq<Seq<int>>, z: Seq<int>, r: Seq<int>) -> int {
    sum_mz_prefix(mat, z, r, z.len())
}

/// The claimed evaluation is linear in the assignment: over a pointwise
/// combination `zf = z1 + rho·z2` it is the matching combination of the two
/// claimed evaluations. This is what lets one challenge fold two instances'
/// claims.
pub proof fn lemma_sum_mz_linear(
    mat: Seq<Seq<int>>,
    z1: Seq<int>,
    z2: Seq<int>,
    zf: Seq<int>,
    r: Seq<int>,
    rho: int,
)
    requires
        z1.len() == zf.len(),
        z2.len() == zf.len(),
        forall|y: int| 0 <= y < zf.len() ==> zf[y] == fadd(z1[y], fmul(rho, z2[y])),
    ensures
        sum_mz(mat, zf, r) == fadd(sum_mz(mat, z1, r), fmul(rho, sum_mz(mat, z2, r))),
{
    lemma_sum_mz_prefix_linear(mat, z1, z2, zf, r, rho, zf.len());
}

proof fn lemma_sum_mz_prefix_linear(
    mat: Seq<Seq<int>>,
    z1: Seq<int>,
    z2: Seq<int>,
    zf: Seq<int>,
    r: Seq<int>,
    rho: int,
    k: nat,
)
    requires
        z1.len() == zf.len(),
        z2.len() == zf.len(),
        k <= zf.len(),
        forall|y: int| 0 <= y < zf.len() ==> zf[y] == fadd(z1[y], fmul(rho, z2[y])),
    ensures
        sum_mz_prefix(mat, zf, r, k) == fadd(
            sum_mz_prefix(mat, z1, r, k),
            fmul(rho, sum_mz_prefix(mat, z2, r, k)),
        ),
    decreases k,
{
    let p = crate::field::fr_order();
    if k == 0 {
        vstd::arithmetic::div_mod::lemma_small_mod(0nat, p as nat);
    } else {
        lemma_sum_mz_prefix_linear(mat, z1, z2, zf, r, rho, (k - 1) as nat);
        let e = matrix_ext(mat, r, k - 1);
        let s1 = sum_mz_prefix(mat, z1, r, (k - 1) as nat);
        let s2 = sum_mz_prefix(mat, z2, r, (k - 1) as nat);
        let z1k = z1[k - 1];
        let z2k = z2[k - 1];
        // e·zf[k-1] splits into e·z1[k-1] and rho·(e·z2[k-1])
        lemma_fmul_distributes(e, z1k, fmul(rho, z2k));
        lemma_fmul_assoc(e, rho, z2k);
        lemma_fmul_comm(e, rho);
        lemma_fmul_assoc(rho, e, z2k);
        // rho·(s2 + e·z2[k-1]) splits into rho·s2 and rho·(e·z2[k-1])
        lemma_fmul_distributes(rho, s2, fmul(e, z2k));
        lemma_fadd_rearrange(s1, fmul(rho, s2), fmul(e, z1k), fmul(rho, fmul(e, z2k)));
    }
}

/// `Σ_{y < k} row[y] · z[y]`.
pub open spec fn row_dot_prefix(row: Seq<int>, z: Seq<int>, k: nat) -> int
    decreases k,
{
    if k == 0 {
        0
    } else {
        fadd(row_dot_prefix(row, z, (k - 1) as nat), fmul(row[k - 1], z[k - 1]))
    }
}

/// `(M z)(a)` for one row: the dot product of the row with the assignment.
pub open spec fn row_dot(row: Seq<int>, z: Seq<int>) -> int {
    row_dot_prefix(row, z, z.len())
}

impl CCS {
    /// The matrices, as the residues they hold.
    pub open spec fn mats(self) -> Seq<Seq<Seq<int>>> {
        self.matrices.deep_view()
    }

    /// Well-formedness of the shape: consistent dimensions, `m = 2^s`, and
    /// every index set within range.
    pub open spec fn wf(self) -> bool {
        &&& self.m >= 1
        &&& self.m == pow2(self.s as nat)
        &&& self.l + 1 <= self.n
        &&& self.matrices.len() == self.t
        &&& (forall|j: int| 0 <= j < self.t ==> #[trigger] self.matrices@[j]@.len() == self.m)
        &&& (forall|j: int, a: int|
            0 <= j < self.t && 0 <= a < self.m ==> #[trigger] self.matrices@[j]@[a]@.len()
                == self.n)
        &&& self.index_sets.len() == self.q
        &&& self.coefficients.len() == self.q
        &&& (forall|i: int, k: int|
            0 <= i < self.q && 0 <= k < self.index_sets@[i]@.len()
                ==> #[trigger] self.index_sets@[i]@[k] < self.t)
    }

    /// The product of the first `k` factors of term `i` at row `a`.
    pub open spec fn set_prod_prefix(self, z: Seq<int>, i: int, a: int, k: nat) -> int
        decreases k,
    {
        if k == 0 {
            1
        } else {
            fmul(
                self.set_prod_prefix(z, i, a, (k - 1) as nat),
                row_dot(self.mats()[self.index_sets@[i]@[k - 1] as int][a], z),
            )
        }
    }

    /// The sum of the first `k` terms of the characteristic polynomial at row
    /// `a`.
    pub open spec fn q_row_prefix(self, z: Seq<int>, a: int, k: nat) -> int
        decreases k,
    {
        if k == 0 {
            0
        } else {
            fadd(
                self.q_row_prefix(z, a, (k - 1) as nat),
                fmul(
                    self.coefficients@[k - 1]@,
                    self.set_prod_prefix(z, k - 1, a, self.index_sets@[k - 1]@.len()),
                ),
            )
        }
    }

    /// `q(a)`: the characteristic polynomial of the assignment, at row `a`.
    pub open spec fn q_at_row(self, z: Seq<int>, a: int) -> int {
        self.q_row_prefix(z, a, self.q as nat)
    }

    /// The assignment satisfies the system: `q` vanishes on every row.
    pub open spec fn satisfied_by(self, z: Seq<int>) -> bool {
        forall|a: int| 0 <= a < self.m ==> self.q_at_row(z, a) == 0
    }
}

/// `eq(r, a)` of the row index `a`, by its bits from the lowest.
pub fn eval_eq(r: &Vec<Fe>, a: usize) -> (e: Fe)
    ensures
        e@ == eq_at(r.deep_view(), a as nat),
{
    let one = Fe::one();
    let mut acc = one;
    let mut cur = a;
    let mut k: usize = 0;
    proof {
        lemma2_to64();
    }
    while k < r.len()
        invariant
            k <= r.len(),
            acc@ == eq_prefix(r.deep_view(), a as nat, k as nat),
            cur == a as nat / pow2(k as nat),
        decreases r.len() - k,
    {
        let term = if cur % 2 == 1 {
            r[k]
        } else {
            Fe::one().sub(&r[k])
        };
        acc = acc.mul(&term);
        proof {
            lemma_pow2_pos(k as nat);
            lemma_div_denominator(a as int, pow2(k as nat) as int, 2);
            lemma_pow2_unfold((k + 1) as nat);
        }
        cur = cur / 2;
        k += 1;
    }
    acc
}

/// The dot product of one matrix row with the assignment.
fn row_dot_exec(row: &Vec<Fe>, z: &Vec<Fe>) -> (d: Fe)
    requires
        row.len() >= z.len(),
    ensures
        d@ == row_dot(row.deep_view(), z.deep_view()),
{
    let mut acc = Fe::zero();
    let mut y: usize = 0;
    while y < z.len()
        invariant
            y <= z.len(),
            z.len() <= row.len(),
            acc@ == row_dot_prefix(row.deep_view(), z.deep_view(), y as nat),
        decreases z.len() - y,
    {
        acc = acc.add(&row[y].mul(&z[y]));
        y += 1;
    }
    acc
}

/// `M̃(r, y)` for one boolean column `y`.
fn matrix_ext_exec(mat: &Vec<Vec<Fe>>, r: &Vec<Fe>, y: usize) -> (e: Fe)
    requires
        forall|a: int| 0 <= a < mat.len() ==> #[trigger] mat@[a]@.len() > y,
    ensures
        e@ == matrix_ext(mat.deep_view(), r.deep_view(), y as int),
{
    let mut acc = Fe::zero();
    let mut a: usize = 0;
    while a < mat.len()
        invariant
            a <= mat.len(),
            forall|a2: int| 0 <= a2 < mat.len() ==> #[trigger] mat@[a2]@.len() > y,
            acc@ == ext_prefix(mat.deep_view(), r.deep_view(), y as int, a as nat),
        decreases mat.len() - a,
    {
        let basis = eval_eq(r, a);
        acc = acc.add(&mat[a][y].mul(&basis));
        a += 1;
    }
    acc
}

impl CCS {
    /// The claimed evaluations of every matrix against the assignment at the
    /// point `r`: for each `j`, `Σ_y M̃_j(r, y) · z(y)`.
    pub fn evaluate_all_matrix_sums(&self, z: &Vec<Fe>, r: &Vec<Fe>) -> (v: Vec<Fe>)
        requires
            self.wf(),
            z.len() == self.n,
        ensures
            v.len() == self.t,
            forall|j: int|
                0 <= j < self.t ==> v.deep_view()[j] == sum_mz(
                    self.mats()[j],
                    z.deep_view(),
                    r.deep_view(),
                ),
    {
        let mut v: Vec<Fe> = Vec::new();
        let mut j: usize = 0;
        while j < self.matrices.len()
            invariant
                self.wf(),
                z.len() == self.n,
                j <= self.t,
                v.len() == j,
                forall|j2: int|
                    0 <= j2 < j ==> v.deep_view()[j2] == sum_mz(
                        self.mats()[j2],
                        z.deep_view(),
                        r.deep_view(),
                    ),
            decreases self.matrices.len() - j,
        {
            let mat = &self.matrices[j];
            let mut acc = Fe::zero();
            let mut y: usize = 0;
            while y < z.len()
                invariant
                    self.wf(),
                    z.len() == self.n,
                    j < self.t,
                    mat == &self.matrices@[j as int],
                    y <= z.len(),
                    acc@ == sum_mz_prefix(
                        self.mats()[j as int],
                        z.deep_view(),
                        r.deep_view(),
                        y as nat,
                    ),
                decreases z.len() - y,
            {
                let ext = matrix_ext_exec(mat, r, y);
                acc = acc.add(&ext.mul(&z[y]));
                y += 1;
            }
            let ghost prev = v.deep_view();
            v.push(acc);
            proof {
                assert(v.deep_view() =~= prev.push(acc@));
            }
            j += 1;
        }
        v
    }

    /// `sigmas` and `thetas` for a fold: the claimed evaluations of each
    /// assignment at the shared point.
    pub fn compute_sigmas_and_thetas(&self, z1: &Vec<Fe>, z2: &Vec<Fe>, r_x_prime: &Vec<Fe>) -> (st:
        (Vec<Fe>, Vec<Fe>))
        requires
            self.wf(),
            z1.len() == self.n,
            z2.len() == self.n,
        ensures
            st.0.len() == self.t,
            st.1.len() == self.t,
            forall|j: int|
                0 <= j < self.t ==> st.0.deep_view()[j] == sum_mz(
                    self.mats()[j],
                    z1.deep_view(),
                    r_x_prime.deep_view(),
                ),
            forall|j: int|
                0 <= j < self.t ==> st.1.deep_view()[j] == sum_mz(
                    self.mats()[j],
                    z2.deep_view(),
                    r_x_prime.deep_view(),
                ),
    {
        let sigmas = self.evaluate_all_matrix_sums(z1, r_x_prime);
        let thetas = self.evaluate_all_matrix_sums(z2, r_x_prime);
        (sigmas, thetas)
    }

    /// The value of the characteristic polynomial at one hypercube row.
    fn q_value_at_row(&self, z: &Vec<Fe>, a: usize) -> (qa: Fe)
        requires
            self.wf(),
            z.len() == self.n,
            a < self.m,
        ensures
            qa@ == self.q_at_row(z.deep_view(), a as int),
    {
        let mut acc = Fe::zero();
        let mut i: usize = 0;
        while i < self.index_sets.len()
            invariant
                self.wf(),
                z.len() == self.n,
                a < self.m,
                i <= self.q,
                acc@ == self.q_row_prefix(z.deep_view(), a as int, i as nat),
            decreases self.index_sets.len() - i,
        {
            let set = &self.index_sets[i];
            let mut prod = Fe::one();
            let mut k: usize = 0;
            while k < set.len()
                invariant
                    self.wf(),
                    z.len() == self.n,
                    a < self.m,
                    i < self.q,
                    set == &self.index_sets@[i as int],
                    k <= set.len(),
                    prod@ == self.set_prod_prefix(z.deep_view(), i as int, a as int, k as nat),
                decreases set.len() - k,
            {
                let j = set[k];
                let d = row_dot_exec(&self.matrices[j][a], z);
                prod = prod.mul(&d);
                k += 1;
            }
            acc = acc.add(&self.coefficients[i].mul(&prod));
            i += 1;
        }
        acc
    }

    /// Whether the full assignment satisfies the constraint system: the
    /// characteristic polynomial must vanish on every hypercube row.
    pub fn check_relation(&self, z: &Vec<Fe>) -> (res: Result<(), CCSError>)
        requires
            self.wf(),
            z.len() == self.n,
        ensures
            res is Ok <==> self.satisfied_by(z.deep_view()),
            res is Err ==> res == Result::<(), CCSError>::Err(CCSError::NotSatisfied),
    {
        let zero = Fe::zero();
        let mut a: usize = 0;
        while a < self.m
            invariant
                self.wf(),
                z.len() == self.n,
                zero@ == 0,
                a <= self.m,
                forall|a2: int| 0 <= a2 < a ==> self.q_at_row(z.deep_view(), a2) == 0,
            decreases self.m - a,
        {
            let qa = self.q_value_at_row(z, a);
            if qa != zero {
                proof {
                    crate::field::lemma_fe_eq_residue(qa, zero);
                }
                return Err(CCSError::NotSatisfied);
            }
            proof {
                crate::field::lemma_fe_eq_residue(qa, zero);
            }
            a += 1;
        }
        Ok(())
    }

    /// Per matrix `j`, the evaluations over the hypercube of the linearized
    /// term `L_j(a) = eq(r_x, a) · (M_j z)(a)`, whose hypercube sum is the
    /// claimed evaluation of `M_j` at `r_x`.
    pub fn compute_linearized_evals(&self, z: &Vec<Fe>, r_x: &Vec<Fe>) -> (ls: Vec<Vec<Fe>>)
        requires
            self.wf(),
            z.len() == self.n,
        ensures
            ls.len() == self.t,
            forall|j: int| 0 <= j < self.t ==> #[trigger] ls@[j]@.len() == self.m,
            forall|j: int, a: int|
                0 <= j < self.t && 0 <= a < self.m ==> #[trigger] ls@[j]@[a]@ == fmul(
                    eq_at(r_x.deep_view(), a as nat),
                    row_dot(self.mats()[j][a], z.deep_view()),
                ),
    {
        let mut ls: Vec<Vec<Fe>> = Vec::new();
        let mut j: usize = 0;
        while j < self.matrices.len()
            invariant
                self.wf(),
                z.len() == self.n,
                j <= self.t,
                ls.len() == j,
                forall|j2: int| 0 <= j2 < j ==> #[trigger] ls@[j2]@.len() == self.m,
                forall|j2: int, a: int|
                    0 <= j2 < j && 0 <= a < self.m ==> #[trigger] ls@[j2]@[a]@ == fmul(
                        eq_at(r_x.deep_view(), a as nat),
                        row_dot(self.mats()[j2][a], z.deep_view()),
                    ),
            decreases self.matrices.len() - j,
        {
            let mut row: Vec<Fe> = Vec::new();
            let mut a: usize = 0;
            while a < self.m
                invariant
                    self.wf(),
                    z.len() == self.n,
                    j < self.t,
                    a <= self.m,
                    row.len() == a,
                    forall|a2: int|
                        0 <= a2 < a ==> #[trigger] row@[a2]@ == fmul(
                            eq_at(r_x.deep_view(), a2 as nat),
                            row_dot(self.mats()[j as int][a2], z.deep_view()),
                        ),
                decreases self.m - a,
            {
                let basis = eval_eq(r_x, a);
                let d = row_dot_exec(&self.matrices[j][a], z);
                row.push(basis.mul(&d));
                a += 1;
            }
            ls.push(row);
            j += 1;
        }
        ls
    }
}

} // verus!
