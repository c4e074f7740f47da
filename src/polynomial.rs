use vstd::prelude::*;
use ark_bls12_381::Fr;
use ark_poly::univariate::DensePolynomial;
use ark_poly::{DenseUVPolynomial, Polynomial};
use crate::algebra::{order, power, scalar_val, Scalar};

verus! {

/// Whether a coefficient sequence has no zero coefficient at its top end.
pub open spec fn is_trimmed(c: Seq<int>) -> bool {
    c.len() == 0 || c.last() % order() != 0
}

/// The coefficient sequence with the zero coefficients at its top end removed.
pub open spec fn trim(c: Seq<int>) -> Seq<int>
    decreases c.len(),
{
    if c.len() > 0 && c.last() % order() == 0 {
        trim(c.drop_last())
    } else {
        c
    }
}

/// `c[0] + c[1] * x + ... + c[k-1] * x^(k-1)`, over the integers.
pub open spec fn sum_terms(c: Seq<int>, x: int, k: nat) -> int
    decreases k,
{
    if k == 0 || k > c.len() {
        0
    } else {
        sum_terms(c, x, (k - 1) as nat) + c[k - 1] * power(x, (k - 1) as nat)
    }
}

/// The value at `x` of the polynomial with coefficients `c`, in the scalar field.
pub open spec fn poly_value(c: Seq<int>, x: int) -> int {
    sum_terms(c, x, c.len()) % order()
}

/// Whether `q` is the quotient of dividing `a` by `d`: some remainder of
/// fewer coefficients than `d` makes `a = q * d + remainder` at every point.
pub open spec fn is_quotient(a: Seq<int>, d: Seq<int>, q: Seq<int>) -> bool {
    exists|rem: Seq<int>|
        rem.len() < d.len() && forall|x: int|
            #[trigger] poly_value(a, x) == (poly_value(q, x) * poly_value(d, x) + poly_value(
                rem,
                x,
            )) % order()
}

/// A univariate polynomial over the scalar field, stored densely by its
/// coefficients, lowest degree first.
#[verifier::external_body]
pub struct Poly(DensePolynomial<Fr>);

/// The coefficients of a polynomial, lowest degree first, as field values.
pub uninterp spec fn poly_coeffs(p: Poly) -> Seq<int>;

impl Poly {
    /// The coefficients as stored carry no zero at their top end.
    pub open spec fn wf(&self) -> bool {
        is_trimmed(poly_coeffs(*self))
    }

    /// The coefficients, lowest degree first.
    pub open spec fn coeffs(&self) -> Seq<int> {
        poly_coeffs(*self)
    }
}

/// Relies on `DenseUVPolynomial::from_coefficients_vec` of ark-poly: the
/// coefficients are kept in order, less the zeros at their top end.
#[verifier::external_body]
pub(crate) fn poly_from_scalars(v: &Vec<Scalar>) -> (r: Poly)
    ensures
        poly_coeffs(r) == trim(v@.map_values(|s: Scalar| scalar_val(s))),
{
    Poly(DensePolynomial::from_coefficients_vec(v.iter().map(|s| s.0).collect()))
}

/// Relies on the `coeffs` field of ark-poly's `DensePolynomial`: its length.
#[verifier::external_body]
pub(crate) fn poly_len(p: &Poly) -> (r: usize)
    ensures
        r == poly_coeffs(*p).len(),
{
    p.0.coeffs.len()
}

/// Relies on the `coeffs` field of ark-poly's `DensePolynomial`: one coefficient.
#[verifier::external_body]
pub(crate) fn poly_coeff(p: &Poly, i: usize) -> (r: Scalar)
    requires
        i < poly_coeffs(*p).len(),
    ensures
        scalar_val(r) == poly_coeffs(*p)[i as int],
{
    Scalar(p.0.coeffs[i])
}

/// Relies on `Polynomial::evaluate` of ark-poly: the polynomial's value at `z`.
#[verifier::external_body]
pub(crate) fn poly_evaluate(p: &Poly, z: &Scalar) -> (r: Scalar)
    ensures
        scalar_val(r) == poly_value(poly_coeffs(*p), scalar_val(*z)),
{
    Scalar(p.0.evaluate(&z.0))
}

/// Relies on `Sub` for ark-poly's `DensePolynomial`: the difference, with the
/// zeros at its top end removed.
#[verifier::external_body]
pub(crate) fn poly_sub(a: &Poly, b: &Poly) -> (r: Poly)
    requires
        a.wf(),
        b.wf(),
    ensures
        r.wf(),
        r.coeffs().len() <= a.coeffs().len() || r.coeffs().len() <= b.coeffs().len(),
        forall|x: int|
            #[trigger] poly_value(r.coeffs(), x) == (poly_value(a.coeffs(), x) - poly_value(
                b.coeffs(),
                x,
            )) % order(),
{
    Poly(&a.0 - &b.0)
}

/// Relies on `Div` for ark-poly's `DensePolynomial`: the quotient of the
/// division with remainder, whose remainder has lower degree than the divisor.
#[verifier::external_body]
pub(crate) fn poly_div(a: &Poly, d: &Poly) -> (r: Poly)
    requires
        a.wf(),
        d.wf(),
        d.coeffs().len() > 0,
    ensures
        r.wf(),
        r.coeffs().len() == 0 || r.coeffs().len() + d.coeffs().len() <= a.coeffs().len() + 1,
        is_quotient(a.coeffs(), d.coeffs(), r.coeffs()),
{
    Poly(&a.0 / &d.0)
}

impl Poly {
    /// The polynomial with the given coefficients, lowest degree first.
    pub fn from_coefficients(v: &Vec<Scalar>) -> (r: Poly)
        ensures
            r.wf(),
            r.coeffs() == trim(v@.map_values(|s: Scalar| scalar_val(s))),
    {
        let r = poly_from_scalars(v);
        proof {
            lemma_trim_is_trimmed(v@.map_values(|s: Scalar| scalar_val(s)));
        }
        r
    }

    /// The number of coefficients stored.
    pub fn len(&self) -> (r: usize)
        ensures
            r == self.coeffs().len(),
    {
        poly_len(self)
    }
}

/// Trimming leaves a trimmed sequence that is no longer than before.
pub proof fn lemma_trim_is_trimmed(c: Seq<int>)
    ensures
        is_trimmed(trim(c)),
        trim(c).len() <= c.len(),
    decreases c.len(),
{
    if c.len() > 0 && c.last() % order() == 0 {
        lemma_trim_is_trimmed(c.drop_last());
    }
}

/// A polynomial of at most one coefficient takes the same value everywhere.
pub proof fn lemma_constant_value(c: Seq<int>, x: int)
    requires
        c.len() <= 1,
    ensures
        poly_value(c, x) == (if c.len() == 0 { 0 } else { c[0] % order() }),
{
    if c.len() == 1 {
        assert(sum_terms(c, x, 0) == 0);
        assert(power(x, 0) == 1);
        assert(sum_terms(c, x, 1) == c[0]);
    } else {
        assert(sum_terms(c, x, 0) == 0);
    }
}

/// The value of the polynomial `a + b * x`.
pub proof fn lemma_linear_value(c: Seq<int>, x: int)
    requires
        c.len() == 2,
    ensures
        poly_value(c, x) == (c[0] + c[1] * x) % order(),
{
    assert(power(x, 0) == 1);
    assert(power(x, 1) == x * power(x, 0));
    assert(sum_terms(c, x, 0) == 0);
    assert(sum_terms(c, x, 1) == c[0]);
    assert(sum_terms(c, x, 2) == c[0] + c[1] * x);
}

} // verus!
