use vstd::prelude::*;
use vstd::arithmetic::div_mod::{
    lemma_add_mod_noop, lemma_mod_add_multiples_vanish, lemma_mod_twice, lemma_mul_mod_noop_right, lemma_small_mod,
    lemma_sub_mod_noop,
};
use crate::algebra::{g1_log, g2_log, order, power, scalar_val, Scalar, G1, G2};
use crate::polynomial::{poly_value, sum_terms};
use crate::protocol::{
    accepts, batch_checks, checks, commit_log, dot, g1_logs, is_opening_quotient, opened_at, proves, srs_for,
    PublicParams,
};

verus! {

/// Under points that are the powers of `tau`, the partial sums of a
/// commitment agree with the partial sums of the polynomial at `tau`.
proof fn lemma_dot_powers(c: Seq<int>, bases: Seq<G1>, tau: int, k: nat)
    requires
        k <= c.len(),
        c.len() <= bases.len(),
        forall|i: int| 0 <= i < bases.len() ==> #[trigger] g1_log(bases[i]) == power(tau, i as nat) % order(),
    ensures
        dot(c, g1_logs(bases), k) % order() == sum_terms(c, tau, k) % order(),
    decreases k,
{
    if k > 0 {
        let j = (k - 1) as nat;
        lemma_dot_powers(c, bases, tau, j);
        let w = g1_logs(bases);
        let d = dot(c, w, j);
        let s = sum_terms(c, tau, j);
        let p = power(tau, j);
        assert(w[j as int] == p % order());
        lemma_add_mod_noop(d, c[j as int] * (p % order()), order());
        lemma_add_mod_noop(s, c[j as int] * p, order());
        lemma_mul_mod_noop_right(c[j as int], p, order());
    }
}

/// The commitment to a polynomial under parameters built from `tau` is the
/// polynomial's value at `tau`, carried to G1.
pub proof fn lemma_commitment_is_evaluation(pp: PublicParams, tau: int, c: Seq<int>)
    requires
        srs_for(pp, tau, pp.g1.len() as nat),
        c.len() <= pp.g1.len(),
    ensures
        commit_log(c, pp.g1@) == poly_value(c, tau),
{
    lemma_dot_powers(c, pp.g1@, tau, c.len());
}

/// An honest opening passes the verifier: a commitment made with
/// `commitment_phase` and a proof made with `open` for the value of the
/// polynomial at `z` pass the pairing check of `verify`.
pub proof fn lemma_completeness(
    pp: PublicParams,
    tau: int,
    c: Seq<int>,
    z: int,
    y: int,
    commitment: G1,
    proof: G1,
)
    requires
        srs_for(pp, tau, pp.g1.len() as nat),
        pp.g1.len() >= 2,
        c.len() <= pp.g1.len(),
        g1_log(commitment) == commit_log(c, pp.g1@),
        y == poly_value(c, z),
        proves(pp.g1@, c, z, y, proof),
    ensures
        accepts(g1_log(commitment), g1_log(proof), z, y, g2_log(pp.g2[0]), g2_log(pp.g2[1])),
{
    let q = choose|q: Seq<int>|
        q.len() <= pp.g1.len() && is_opening_quotient(c, z, y, q) && g1_log(proof) == commit_log(
            q,
            pp.g1@,
        );
    lemma_commitment_is_evaluation(pp, tau, c);
    lemma_commitment_is_evaluation(pp, tau, q);
    let h0 = g2_log(pp.g2[0]);
    let h1 = g2_log(pp.g2[1]);
    let qt = poly_value(q, tau);
    assert(power(tau, 0) == 1);
    assert(power(tau, 1) == tau * power(tau, 0));
    lemma_small_mod(1, order() as nat);
    assert(h0 == 1);
    assert(h1 == tau % order());
    assert(h1 - h0 * z == tau % order() - z) by (nonlinear_arith)
        requires
            h0 == 1,
            h1 == tau % order(),
    ;
    lemma_mod_twice(tau, order());
    lemma_sub_mod_noop(tau % order(), z, order());
    lemma_sub_mod_noop(tau, z, order());
    lemma_mul_mod_noop_right(qt, tau % order() - z, order());
    lemma_mul_mod_noop_right(qt, tau - z, order());
    assert((qt * (tau - z)) % order() == (poly_value(c, tau) - y) % order());
    assert((g1_log(commitment) - y) * h0 == poly_value(c, tau) - y);
}

/// An honest proof for the value `y` fails the verifier for any other claimed
/// value: the pairing check rejects every `y2` that differs from `y` in the field.
pub proof fn lemma_soundness(
    pp: PublicParams,
    tau: int,
    c: Seq<int>,
    z: int,
    y: int,
    y2: int,
    commitment: G1,
    proof: G1,
)
    requires
        srs_for(pp, tau, pp.g1.len() as nat),
        pp.g1.len() >= 2,
        c.len() <= pp.g1.len(),
        g1_log(commitment) == commit_log(c, pp.g1@),
        y == poly_value(c, z),
        proves(pp.g1@, c, z, y, proof),
        y2 % order() != y % order(),
    ensures
        !accepts(g1_log(commitment), g1_log(proof), z, y2, g2_log(pp.g2[0]), g2_log(pp.g2[1])),
{
    lemma_completeness(pp, tau, c, z, y, commitment, proof);
    let h0 = g2_log(pp.g2[0]);
    let ct = g1_log(commitment);
    lemma_small_mod(1, order() as nat);
    assert(power(tau, 0) == 1);
    assert(h0 == 1);
    assert((ct - y) * h0 == ct - y) by (nonlinear_arith)
        requires
            h0 == 1,
    ;
    assert((ct - y2) * h0 == ct - y2) by (nonlinear_arith)
        requires
            h0 == 1,
    ;
    let a = ct - y;
    let b = ct - y2;
    if a % order() == b % order() {
        lemma_sub_mod_noop(a, b, order());
        assert(a % order() - b % order() == 0);
        assert(0int % order() == 0);
        assert(a - b == y2 - y);
        assert((a - b) % order() == (y2 - y) % order());
        lemma_sub_mod_noop(y2, y, order());
        let d = y2 % order() - y % order();
        assert(d % order() == 0);
        if d >= 0 {
            lemma_small_mod(d as nat, order() as nat);
        } else {
            lemma_mod_add_multiples_vanish(d, order());
            lemma_small_mod((order() + d) as nat, order() as nat);
        }
        assert(d == 0);
    }
}

/// Committing is a function of its inputs: two commitments to the same
/// coefficients under the same points are the same group element.
pub proof fn lemma_commitment_deterministic(c: Seq<int>, bases: Seq<G1>, first: G1, second: G1)
    requires
        g1_log(first) == commit_log(c, bases),
        g1_log(second) == commit_log(c, bases),
    ensures
        g1_log(first) == g1_log(second),
{
}

/// The openings that `prove_multi_evaluations` makes all pass the checks of
/// `verify_multi_evaluations` against the commitment to the same polynomial.
pub proof fn lemma_batch_completeness(
    pp: PublicParams,
    tau: int,
    c: Seq<int>,
    commitment: G1,
    zs: Seq<Scalar>,
    ys: Seq<Scalar>,
    proofs: Seq<G1>,
)
    requires
        srs_for(pp, tau, pp.g1.len() as nat),
        pp.g1.len() >= 2,
        c.len() <= pp.g1.len(),
        g1_log(commitment) == commit_log(c, pp.g1@),
        ys.len() == zs.len(),
        proofs.len() == zs.len(),
        forall|i: int| 0 <= i < zs.len() ==> #[trigger] opened_at(pp.g1@, c, zs[i], ys[i], proofs[i]),
    ensures
        forall|i: int| 0 <= i < zs.len() ==> #[trigger] checks(commitment, proofs[i], zs[i], ys[i], pp.g2@),
{
    assert forall|i: int| 0 <= i < zs.len() implies #[trigger] checks(
        commitment,
        proofs[i],
        zs[i],
        ys[i],
        pp.g2@,
    ) by {
        assert(opened_at(pp.g1@, c, zs[i], ys[i], proofs[i]));
        lemma_completeness(
            pp,
            tau,
            c,
            scalar_val(zs[i]),
            scalar_val(ys[i]),
            commitment,
            proofs[i],
        );
    }
}

/// A batch passes the verifier exactly when each of its points, checked on
/// its own as a batch of one, passes.
pub proof fn lemma_batch_consistency(
    commitment: G1,
    proofs: Seq<G1>,
    zs: Seq<Scalar>,
    ys: Seq<Scalar>,
    g2: Seq<G2>,
)
    ensures
        batch_checks(commitment, proofs, zs, ys, g2) <==> forall|i: int|
            0 <= i < zs.len() && i < ys.len() && i < proofs.len() ==> #[trigger] batch_checks(
                commitment,
                seq![proofs[i]],
                seq![zs[i]],
                seq![ys[i]],
                g2,
            ),
{
    assert forall|i: int| 0 <= i < zs.len() && i < ys.len() && i < proofs.len() implies
        #[trigger] batch_checks(commitment, seq![proofs[i]], seq![zs[i]], seq![ys[i]], g2)
        == checks(commitment, proofs[i], zs[i], ys[i], g2) by {
        assert(seq![proofs[i]][0] == proofs[i]);
        assert(seq![zs[i]][0] == zs[i]);
        assert(seq![ys[i]][0] == ys[i]);
    }
    if batch_checks(commitment, proofs, zs, ys, g2) {
        assert forall|i: int| 0 <= i < zs.len() && i < ys.len() && i < proofs.len() implies
            #[trigger] batch_checks(commitment, seq![proofs[i]], seq![zs[i]], seq![ys[i]], g2) by {
            assert(checks(commitment, proofs[i], zs[i], ys[i], g2));
        }
    }
    if forall|i: int|
        0 <= i < zs.len() && i < ys.len() && i < proofs.len() ==> #[trigger] batch_checks(
            commitment,
            seq![proofs[i]],
            seq![zs[i]],
            seq![ys[i]],
            g2,
        ) {
        assert forall|i: int| 0 <= i < zs.len() && i < ys.len() && i < proofs.len() implies
            #[trigger] checks(commitment, proofs[i], zs[i], ys[i], g2) by {
            assert(batch_checks(commitment, seq![proofs[i]], seq![zs[i]], seq![ys[i]], g2));
        }
    }
}

} // verus!
