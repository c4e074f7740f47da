use vstd::prelude::*;
use vstd::arithmetic::div_mod::{
    lemma_add_mod_noop, lemma_add_mod_noop_right, lemma_mod_twice, lemma_mul_mod_noop_left, lemma_mul_mod_noop_right,
    lemma_small_mod, lemma_sub_mod_noop_right,
};
use crate::algebra::{
    g1_add, g1_generator, g1_log, g1_mul, g1_sub, g1_zero, g2_generator, g2_log, g2_mul, g2_sub,
    gt_eq, order, pairing, power, scalar_mul, scalar_neg, scalar_one, scalar_random, scalar_val,
    G1, G2, Scalar,
};
use crate::polynomial::{
    is_quotient, lemma_constant_value, lemma_linear_value, lemma_trim_is_trimmed, poly_coeff,
    poly_div, poly_evaluate, poly_from_scalars, poly_len, poly_sub, poly_value, trim, Poly,
};

verus! {

/// The largest degree for which public parameters are generated.
pub const MAX_DEGREE: usize = 1000000;

/// Why an operation refused its input.
#[derive(Debug, PartialEq, Eq, Structural)]
pub enum KzgError {
    /// The degree is zero or larger than `MAX_DEGREE`.
    InvalidDegree,
    /// The public parameters are too short for the polynomial or the query.
    InsufficientParameters,
    /// The degree given at the boundary is not a decimal number.
    MalformedInput,
}

/// The structured reference string: the powers of one secret scalar `tau`
/// applied to the generator of G1 and to the generator of G2.
pub struct PublicParams {
    pub g1: Vec<G1>,
    pub g2: Vec<G2>,
}

/// The discrete logarithms of a sequence of G1 points.
pub open spec fn g1_logs(points: Seq<G1>) -> Seq<int> {
    points.map_values(|p: G1| g1_log(p))
}

/// `c[0] * w[0] + ... + c[k-1] * w[k-1]`, over the integers.
pub open spec fn dot(c: Seq<int>, w: Seq<int>, k: nat) -> int
    decreases k,
{
    if k == 0 || k > c.len() || k > w.len() {
        0
    } else {
        dot(c, w, (k - 1) as nat) + c[k - 1] * w[k - 1]
    }
}

/// The logarithm of the commitment to coefficients `c` under the points `bases`:
/// the sum of `c[i]` times the `i`-th point.
pub open spec fn commit_log(c: Seq<int>, bases: Seq<G1>) -> int {
    dot(c, g1_logs(bases), c.len()) % order()
}

/// Whether `pp` holds `n` powers of `tau`, from `tau^0` up, in both groups.
pub open spec fn srs_for(pp: PublicParams, tau: int, n: nat) -> bool {
    &&& pp.g1.len() == n
    &&& pp.g2.len() == n
    &&& forall|i: int| 0 <= i < n ==> #[trigger] g1_log(pp.g1[i]) == power(tau, i as nat) % order()
    &&& forall|i: int| 0 <= i < n ==> #[trigger] g2_log(pp.g2[i]) == power(tau, i as nat) % order()
}

/// Whether `q` is the quotient of `c(x) - y` by `x - z`: `q(x) * (x - z)`
/// and `c(x) - y` agree at every point of the field.
pub open spec fn is_opening_quotient(c: Seq<int>, z: int, y: int, q: Seq<int>) -> bool {
    forall|x: int| #[trigger] (poly_value(q, x) * (x - z)) % order() == (poly_value(c, x) - y) % order()
}

/// Whether `proof` is the commitment under `bases` to the quotient of the
/// polynomial `c` minus `y` by `x - z`.
pub open spec fn proves(bases: Seq<G1>, c: Seq<int>, z: int, y: int, proof: G1) -> bool {
    exists|q: Seq<int>|
        q.len() <= bases.len() && is_opening_quotient(c, z, y, q) && g1_log(proof) == commit_log(
            q,
            bases,
        )
}

/// The pairing check of the verifier, on logarithms: `e(proof, h1 - h0 * z)`
/// against `e(commitment - y, h0)`, where `h0`, `h1` are the first two G2 powers.
pub open spec fn accepts(commitment: int, proof: int, z: int, y: int, h0: int, h1: int) -> bool {
    (proof * (h1 - h0 * z)) % order() == ((commitment - y) * h0) % order()
}

/// Builds the reference string of `max_degree + 1` powers of the given secret.
pub fn setup_with_secret(max_degree: usize, tau: &Scalar) -> (r: Result<PublicParams, KzgError>)
    ensures
        match r {
            Ok(pp) => 1 <= max_degree <= MAX_DEGREE && srs_for(
                pp,
                scalar_val(*tau),
                (max_degree + 1) as nat,
            ),
            Err(e) => e == KzgError::InvalidDegree && (max_degree == 0 || max_degree > MAX_DEGREE),
        },
{
    if max_degree == 0 || max_degree > MAX_DEGREE {
        return Err(KzgError::InvalidDegree);
    }
    let ghost t = scalar_val(*tau);
    let n: usize = max_degree + 1;
    let gen1 = g1_generator();
    let mut g1: Vec<G1> = Vec::new();
    let mut current = scalar_one();
    let mut i: usize = 0;
    proof {
        lemma_small_mod(1, order() as nat);
    }
    while i < n
        invariant
            i <= n,
            t == scalar_val(*tau),
            g1_log(gen1) == 1,
            g1.len() == i,
            scalar_val(current) == power(t, i as nat) % order(),
            forall|j: int| 0 <= j < i ==> #[trigger] g1_log(g1[j]) == power(t, j as nat) % order(),
        decreases n - i,
    {
        let point = g1_mul(&gen1, &current);
        proof {
            lemma_mod_twice(power(t, i as nat), order());
        }
        g1.push(point);
        current = scalar_mul(&current, tau);
        proof {
            lemma_mul_mod_noop_left(power(t, i as nat), t, order());
            let pw = power(t, i as nat);
            assert(power(t, (i + 1) as nat) == t * pw);
            assert(pw * t == t * pw) by (nonlinear_arith);
        }
        i += 1;
    }
    let gen2 = g2_generator();
    let mut g2: Vec<G2> = Vec::new();
    let mut current2 = scalar_one();
    let mut k: usize = 0;
    while k < n
        invariant
            k <= n,
            t == scalar_val(*tau),
            g2_log(gen2) == 1,
            g2.len() == k,
            scalar_val(current2) == power(t, k as nat) % order(),
            forall|j: int| 0 <= j < k ==> #[trigger] g2_log(g2[j]) == power(t, j as nat) % order(),
        decreases n - k,
    {
        let point = g2_mul(&gen2, &current2);
        proof {
            lemma_mod_twice(power(t, k as nat), order());
        }
        g2.push(point);
        current2 = scalar_mul(&current2, tau);
        proof {
            lemma_mul_mod_noop_left(power(t, k as nat), t, order());
            let pw = power(t, k as nat);
            assert(power(t, (k + 1) as nat) == t * pw);
            assert(pw * t == t * pw) by (nonlinear_arith);
        }
        k += 1;
    }
    Ok(PublicParams { g1, g2 })
}

/// Builds the reference string of `max_degree + 1` powers of a secret drawn
/// at random, which is then dropped.
pub fn setup_phase(max_degree: usize) -> (r: Result<PublicParams, KzgError>)
    ensures
        match r {
            Ok(pp) => 1 <= max_degree <= MAX_DEGREE && exists|tau: int|
                0 <= tau < order() && #[trigger] srs_for(pp, tau, (max_degree + 1) as nat),
            Err(e) => e == KzgError::InvalidDegree && (max_degree == 0 || max_degree > MAX_DEGREE),
        },
{
    if max_degree == 0 || max_degree > MAX_DEGREE {
        return Err(KzgError::InvalidDegree);
    }
    let tau = scalar_random();
    setup_with_secret(max_degree, &tau)
}

/// The polynomial of degree `max_degree` whose `i`-th coefficient is `i + 2`.
pub fn create_polynomial(max_degree: usize) -> (r: Poly)
    requires
        max_degree < usize::MAX - 1,
    ensures
        r.wf(),
        r.coeffs() == Seq::new((max_degree + 1) as nat, |i: int| i + 2),
{
    let mut coefficients: Vec<Scalar> = Vec::new();
    let mut i: usize = 0;
    while i <= max_degree
        invariant
            max_degree < usize::MAX - 1,
            i <= max_degree + 1,
            coefficients.len() == i,
            forall|j: int| 0 <= j < i ==> #[trigger] scalar_val(coefficients[j]) == j + 2,
        decreases max_degree + 1 - i,
    {
        coefficients.push(Scalar::from_u64((i + 2) as u64));
        i += 1;
    }
    let ghost vals = coefficients@.map_values(|s: Scalar| scalar_val(s));
    let r = poly_from_scalars(&coefficients);
    proof {
        let want = Seq::new((max_degree + 1) as nat, |i: int| i + 2);
        assert(vals =~= want);
        lemma_small_mod((max_degree + 2) as nat, order() as nat);
        assert(trim(vals) == vals);
    }
    r
}

/// Commits to a polynomial whose coefficients the bases cover.
fn commit_coeffs(bases: &Vec<G1>, p: &Poly) -> (r: G1)
    requires
        p.coeffs().len() <= bases.len(),
    ensures
        g1_log(r) == commit_log(p.coeffs(), bases@),
{
    let n = poly_len(p);
    let ghost c = p.coeffs();
    let ghost w = g1_logs(bases@);
    let mut acc = g1_zero();
    let mut i: usize = 0;
    proof {
        lemma_small_mod(0, order() as nat);
    }
    while i < n
        invariant
            n == c.len(),
            c == p.coeffs(),
            n <= bases.len(),
            w == g1_logs(bases@),
            i <= n,
            g1_log(acc) == dot(c, w, i as nat) % order(),
        decreases n - i,
    {
        let term = g1_mul(&bases[i], &poly_coeff(p, i));
        let ghost before = g1_log(acc);
        acc = g1_add(&acc, &term);
        proof {
            let d = dot(c, w, i as nat);
            assert(w[i as int] == g1_log(bases@[i as int]));
            assert(w[i as int] * c[i as int] == c[i as int] * w[i as int]) by (nonlinear_arith);
            assert(dot(c, w, (i + 1) as nat) == d + c[i as int] * w[i as int]);
            lemma_add_mod_noop(d, c[i as int] * w[i as int], order());
            lemma_mod_twice(d, order());
            lemma_mod_twice(c[i as int] * w[i as int], order());
        }
        i += 1;
    }
    acc
}

/// The commitment to a polynomial: the sum of each coefficient times the
/// point of the same index in the G1 parameters.
pub fn commitment_phase(public_parameters: &Vec<G1>, polynomial: &Poly) -> (r: Result<G1, KzgError>)
    ensures
        match r {
            Ok(c) => polynomial.coeffs().len() <= public_parameters.len() && g1_log(c)
                == commit_log(polynomial.coeffs(), public_parameters@),
            Err(e) => e == KzgError::InsufficientParameters && polynomial.coeffs().len()
                > public_parameters.len(),
        },
{
    if poly_len(polynomial) > public_parameters.len() {
        return Err(KzgError::InsufficientParameters);
    }
    Ok(commit_coeffs(public_parameters, polynomial))
}

/// A quotient left by dividing `c(x) - y` by `x - z`, where `y` is the value
/// of `c` at `z`, is the opening quotient: the remainder is zero.
proof fn lemma_zero_remainder(c: Seq<int>, z: int, y: int, a: Seq<int>, d: Seq<int>, q: Seq<int>)
    requires
        y == poly_value(c, z),
        forall|x: int| #[trigger] poly_value(a, x) == (poly_value(c, x) - y) % order(),
        forall|x: int| #[trigger] poly_value(d, x) == (x - z) % order(),
        d.len() == 2,
        is_quotient(a, d, q),
    ensures
        is_opening_quotient(c, z, y, q),
{
    let rem = choose|rem: Seq<int>|
        rem.len() < d.len() && forall|x: int|
            #[trigger] poly_value(a, x) == (poly_value(q, x) * poly_value(d, x) + poly_value(
                rem,
                x,
            )) % order();
    let k = if rem.len() == 0 { 0 } else { rem[0] % order() };
    lemma_constant_value(rem, z);
    assert(poly_value(a, z) == 0);
    assert(poly_value(d, z) == 0);
    assert(poly_value(a, z) == (poly_value(q, z) * poly_value(d, z) + poly_value(rem, z)) % order());
    assert(poly_value(q, z) * poly_value(d, z) == 0);
    if rem.len() > 0 {
        lemma_mod_twice(rem[0], order());
    }
    assert(k == 0);
    assert forall|x: int| #[trigger] (poly_value(q, x) * (x - z)) % order() == (poly_value(c, x) - y) % order() by {
        lemma_constant_value(rem, x);
        let qx = poly_value(q, x);
        assert(poly_value(a, x) == (qx * poly_value(d, x) + 0) % order());
        lemma_mul_mod_noop_right(qx, x - z, order());
    }
}

/// Opens a polynomial at one point: its value `y` there, and the commitment
/// to the quotient of the polynomial minus `y` by `x - z`.
pub fn open(public_parameters: &Vec<G1>, polynomial: &Poly, z: &Scalar) -> (r: Result<(Scalar, G1), KzgError>)
    requires
        polynomial.wf(),
    ensures
        match r {
            Ok((y, proof)) => polynomial.coeffs().len() <= public_parameters.len() + 1 && scalar_val(y)
                == poly_value(polynomial.coeffs(), scalar_val(*z)) && proves(
                public_parameters@,
                polynomial.coeffs(),
                scalar_val(*z),
                scalar_val(y),
                proof,
            ),
            Err(e) => e == KzgError::InsufficientParameters && polynomial.coeffs().len()
                > public_parameters.len() + 1,
        },
{
    let n = poly_len(polynomial);
    if n > 0 && n - 1 > public_parameters.len() {
        return Err(KzgError::InsufficientParameters);
    }
    let ghost c = polynomial.coeffs();
    let ghost zv = scalar_val(*z);
    let y = poly_evaluate(polynomial, z);
    let ghost yv = scalar_val(y);
    let ghost yseq = seq![yv];
    let mut y_vec = vec![y];
    let constant = poly_from_scalars(&y_vec);
    let ghost y_seq = y_vec@;
    let y = y_vec.remove(0);
    proof {
        assert(y_seq.map_values(|s: Scalar| scalar_val(s)) =~= yseq);
        lemma_trim_is_trimmed(yseq);
    }
    let dividend = poly_sub(polynomial, &constant);
    let neg_z = scalar_neg(z);
    let one = scalar_one();
    let ghost dseq = seq![scalar_val(neg_z), 1int];
    let d_vec = vec![neg_z, one];
    let divisor = poly_from_scalars(&d_vec);
    proof {
        assert(d_vec@.map_values(|s: Scalar| scalar_val(s)) =~= dseq);
        lemma_small_mod(1, order() as nat);
        assert(trim(dseq) == dseq);
        lemma_small_mod(yv as nat, order() as nat);
        if yv == 0 {
            assert(yseq.drop_last() =~= Seq::<int>::empty());
            assert(trim(Seq::<int>::empty()) == Seq::<int>::empty());
        }
        assert forall|x: int| #[trigger] poly_value(dividend.coeffs(), x) == (poly_value(c, x) - yv) % order() by {
            lemma_constant_value(trim(yseq), x);
            assert(poly_value(constant.coeffs(), x) == yv);
            assert(poly_value(dividend.coeffs(), x) == (poly_value(c, x) - poly_value(constant.coeffs(), x)) % order());
        }
        assert forall|x: int| #[trigger] poly_value(dseq, x) == (x - zv) % order() by {
            lemma_linear_value(dseq, x);
            assert(dseq[0] == (0 - zv) % order());
            assert(dseq[1] * x == x);
            lemma_add_mod_noop_right(x, 0 - zv, order());
        }
    }
    let quotient = poly_div(&dividend, &divisor);
    proof {
        assert(constant.coeffs().len() <= 1);
        assert(quotient.coeffs().len() <= public_parameters.len());
    }
    let proof = commit_coeffs(public_parameters, &quotient);
    proof {
        lemma_zero_remainder(c, zv, yv, dividend.coeffs(), dseq, quotient.coeffs());
    }
    Ok((y, proof))
}

/// Whether the pairing check passes for `commitment`, `proof`, the point `z`
/// and the claimed value `y` against the G2 parameters `g2`.
pub open spec fn checks(commitment: G1, proof: G1, z: Scalar, y: Scalar, g2: Seq<G2>) -> bool {
    accepts(
        g1_log(commitment),
        g1_log(proof),
        scalar_val(z),
        scalar_val(y),
        g2_log(g2[0]),
        g2_log(g2[1]),
    )
}

/// Checks one opening: `e(proof, g2[1] - g2[0] * z) == e(commitment - g * y, g2[0])`.
pub fn verify(commitment: &G1, proof: &G1, z: &Scalar, y: &Scalar, g2_powers: &Vec<G2>) -> (r: Result<bool, KzgError>)
    ensures
        match r {
            Ok(b) => g2_powers.len() >= 2 && b == checks(*commitment, *proof, *z, *y, g2_powers@),
            Err(e) => e == KzgError::InsufficientParameters && g2_powers.len() < 2,
        },
{
    if g2_powers.len() < 2 {
        return Err(KzgError::InsufficientParameters);
    }
    let g2 = &g2_powers[0];
    let g2_tau = &g2_powers[1];
    let g2_z = g2_mul(g2, z);
    let g2_shift = g2_sub(g2_tau, &g2_z);
    let g1_y = g1_mul(&g1_generator(), y);
    let commitment_shift = g1_sub(commitment, &g1_y);
    let lhs = pairing(proof, &g2_shift);
    let rhs = pairing(&commitment_shift, g2);
    let ok = gt_eq(&lhs, &rhs);
    proof {
        let c = g1_log(*commitment);
        let pi = g1_log(*proof);
        let zv = scalar_val(*z);
        let yv = scalar_val(*y);
        let h0 = g2_log(g2_powers@[0]);
        let h1 = g2_log(g2_powers@[1]);
        lemma_sub_mod_noop_right(h1, h0 * zv, order());
        assert(1 * yv == yv);
        lemma_sub_mod_noop_right(c, yv, order());
        lemma_mul_mod_noop_right(pi, h1 - h0 * zv, order());
        lemma_mul_mod_noop_left(c - yv, h0, order());
        lemma_mod_twice(pi * (h1 - h0 * zv), order());
        lemma_mod_twice((c - yv) * h0, order());
    }
    Ok(ok)
}

/// Whether `y` and `proof` are the opening of the polynomial `c` at `z`
/// under the G1 parameters `bases`.
pub open spec fn opened_at(bases: Seq<G1>, c: Seq<int>, z: Scalar, y: Scalar, proof: G1) -> bool {
    scalar_val(y) == poly_value(c, scalar_val(z)) && proves(
        bases,
        c,
        scalar_val(z),
        scalar_val(y),
        proof,
    )
}

/// Opens a polynomial at each of the points `zs`, one independent opening per
/// point, in the order of `zs`.
pub fn prove_multi_evaluations(public_parameters: &Vec<G1>, polynomial: &Poly, zs: &[Scalar]) -> (r:
    Result<(Vec<Scalar>, Vec<G1>), KzgError>)
    requires
        polynomial.wf(),
    ensures
        match r {
            Ok((ys, proofs)) => {
                &&& polynomial.coeffs().len() <= public_parameters.len() + 1
                &&& ys.len() == zs.len()
                &&& proofs.len() == zs.len()
                &&& forall|i: int|
                    0 <= i < zs.len() ==> #[trigger] opened_at(
                        public_parameters@,
                        polynomial.coeffs(),
                        zs@[i],
                        ys@[i],
                        proofs@[i],
                    )
            },
            Err(e) => e == KzgError::InsufficientParameters && polynomial.coeffs().len()
                > public_parameters.len() + 1,
        },
{
    let n = poly_len(polynomial);
    if n > 0 && n - 1 > public_parameters.len() {
        return Err(KzgError::InsufficientParameters);
    }
    let mut evaluations: Vec<Scalar> = Vec::new();
    let mut proofs: Vec<G1> = Vec::new();
    let mut i: usize = 0;
    while i < zs.len()
        invariant
            polynomial.wf(),
            polynomial.coeffs().len() <= public_parameters.len() + 1,
            i <= zs.len(),
            evaluations.len() == i,
            proofs.len() == i,
            forall|j: int|
                0 <= j < i ==> #[trigger] opened_at(
                    public_parameters@,
                    polynomial.coeffs(),
                    zs@[j],
                    evaluations@[j],
                    proofs@[j],
                ),
        decreases zs.len() - i,
    {
        match open(public_parameters, polynomial, &zs[i]) {
            Ok((y, proof)) => {
                evaluations.push(y);
                proofs.push(proof);
            },
            Err(e) => {
                return Err(e);
            },
        }
        i += 1;
    }
    Ok((evaluations, proofs))
}

/// Whether the pairing check passes at every index that all of `proofs`,
/// `zs` and `ys` hold.
pub open spec fn batch_checks(
    commitment: G1,
    proofs: Seq<G1>,
    zs: Seq<Scalar>,
    ys: Seq<Scalar>,
    g2: Seq<G2>,
) -> bool {
    forall|i: int|
        0 <= i < zs.len() && i < ys.len() && i < proofs.len() ==> #[trigger] checks(
            commitment,
            proofs[i],
            zs[i],
            ys[i],
            g2,
        )
}

/// Checks the openings at each point, pairing the `i`-th point, value and
/// proof; the check covers as many points as the shortest of the three holds.
pub fn verify_multi_evaluations(
    commitment: &G1,
    proofs: &[G1],
    zs: &[Scalar],
    ys: &[Scalar],
    g2_powers: &Vec<G2>,
) -> (r: Result<bool, KzgError>)
    ensures
        match r {
            Ok(b) => g2_powers.len() >= 2 && b == batch_checks(
                *commitment,
                proofs@,
                zs@,
                ys@,
                g2_powers@,
            ),
            Err(e) => e == KzgError::InsufficientParameters && g2_powers.len() < 2,
        },
{
    if g2_powers.len() < 2 {
        return Err(KzgError::InsufficientParameters);
    }
    let mut n: usize = zs.len();
    if ys.len() < n {
        n = ys.len();
    }
    if proofs.len() < n {
        n = proofs.len();
    }
    let mut i: usize = 0;
    while i < n
        invariant
            g2_powers.len() >= 2,
            n <= zs.len(),
            n <= ys.len(),
            n <= proofs.len(),
            n == zs.len() || n == ys.len() || n == proofs.len(),
            i <= n,
            forall|j: int|
                0 <= j < i ==> #[trigger] checks(*commitment, proofs@[j], zs@[j], ys@[j], g2_powers@),
        decreases n - i,
    {
        match verify(commitment, &proofs[i], &zs[i], &ys[i], g2_powers) {
            Ok(b) => {
                if !b {
                    return Ok(false);
                }
            },
            Err(e) => {
                return Err(e);
            },
        }
        i += 1;
    }
    Ok(true)
}

} // verus!
