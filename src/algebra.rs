use vstd::prelude::*;
use vstd::arithmetic::div_mod::lemma_small_mod;
use ark_bls12_381::{Bls12_381, Fr, G1Projective, G2Projective};
use ark_ec::pairing::{Pairing, PairingOutput};
use ark_ec::PrimeGroup;
use ark_ff::{AdditiveGroup, Field, UniformRand};

verus! {

/// The order of the scalar field of BLS12-381, which is also the order of
/// the groups G1, G2 and of the pairing's target group:
/// 52435875175126190479447740508185965837690552500527637822603658699938581184513,
/// written here in two halves of 128 bits.
pub open spec fn order() -> int {
    154095187621958656428822154526901524485int * 0x1_0000_0000_0000_0000_0000_0000_0000_0000int
        + 111310594309268602877181240610339684353int
}

/// `x` raised to the `n`-th power, over the integers.
pub open spec fn power(x: int, n: nat) -> int
    decreases n,
{
    if n == 0 {
        1
    } else {
        x * power(x, (n - 1) as nat)
    }
}

/// An element of the scalar field.
#[verifier::external_body]
pub struct Scalar(pub(crate) Fr);

/// A point of the prime-order subgroup G1.
#[verifier::external_body]
pub struct G1(G1Projective);

/// A point of the prime-order subgroup G2.
#[verifier::external_body]
pub struct G2(G2Projective);

/// An element of the pairing's target group.
#[verifier::external_body]
pub struct Gt(PairingOutput<Bls12_381>);

/// The integer that a scalar stands for.
pub uninterp spec fn scalar_val(s: Scalar) -> int;

/// The discrete logarithm of a G1 point to the base of the G1 generator.
pub uninterp spec fn g1_log(p: G1) -> int;

/// The discrete logarithm of a G2 point to the base of the G2 generator.
pub uninterp spec fn g2_log(q: G2) -> int;

/// The discrete logarithm of a target-group element to the base of the
/// pairing of the two generators.
pub uninterp spec fn gt_log(t: Gt) -> int;

/// Relies on `Field::ONE` of ark-ff: the multiplicative identity.
#[verifier::external_body]
pub(crate) fn scalar_one() -> (r: Scalar)
    ensures
        scalar_val(r) == 1,
{
    Scalar(Fr::ONE)
}

/// Relies on `From<u64>` for `Fr` of ark-ff: the integer reduced modulo the order.
#[verifier::external_body]
pub(crate) fn scalar_of_u64(n: u64) -> (r: Scalar)
    ensures
        scalar_val(r) == n as int % order(),
{
    Scalar(Fr::from(n))
}

/// Relies on `Mul` for `Fr` of ark-ff: the product modulo the order.
#[verifier::external_body]
pub(crate) fn scalar_mul(a: &Scalar, b: &Scalar) -> (r: Scalar)
    ensures
        scalar_val(r) == (scalar_val(*a) * scalar_val(*b)) % order(),
{
    Scalar(a.0 * b.0)
}

/// Relies on `Neg` for `Fr` of ark-ff: the additive inverse modulo the order.
#[verifier::external_body]
pub(crate) fn scalar_neg(a: &Scalar) -> (r: Scalar)
    ensures
        scalar_val(r) == (0 - scalar_val(*a)) % order(),
{
    Scalar(-a.0)
}

/// Relies on `UniformRand` for `Fr` of ark-ff, drawn from rand's `thread_rng`:
/// some element of the field, nothing more is known of which.
#[verifier::external_body]
pub(crate) fn scalar_random() -> (r: Scalar)
    ensures
        0 <= scalar_val(r) < order(),
{
    Scalar(Fr::rand(&mut rand::thread_rng()))
}

/// Relies on `AdditiveGroup::ZERO` for `G1Projective` of ark-ec: the identity point.
#[verifier::external_body]
pub(crate) fn g1_zero() -> (r: G1)
    ensures
        g1_log(r) == 0,
{
    G1(G1Projective::ZERO)
}

/// Relies on `PrimeGroup::generator` for `G1Projective` of ark-ec.
#[verifier::external_body]
pub(crate) fn g1_generator() -> (r: G1)
    ensures
        g1_log(r) == 1,
{
    G1(G1Projective::generator())
}

/// Relies on `Mul<Fr>` for `G1Projective` of ark-ec: scalar multiplication.
#[verifier::external_body]
pub(crate) fn g1_mul(p: &G1, s: &Scalar) -> (r: G1)
    ensures
        g1_log(r) == (g1_log(*p) * scalar_val(*s)) % order(),
{
    G1(p.0 * s.0)
}

/// Relies on `Add` for `G1Projective` of ark-ec: the group law.
#[verifier::external_body]
pub(crate) fn g1_add(p: &G1, q: &G1) -> (r: G1)
    ensures
        g1_log(r) == (g1_log(*p) + g1_log(*q)) % order(),
{
    G1(p.0 + q.0)
}

/// Relies on `Sub` for `G1Projective` of ark-ec: adding the inverse.
#[verifier::external_body]
pub(crate) fn g1_sub(p: &G1, q: &G1) -> (r: G1)
    ensures
        g1_log(r) == (g1_log(*p) - g1_log(*q)) % order(),
{
    G1(p.0 - q.0)
}

/// Relies on `PrimeGroup::generator` for `G2Projective` of ark-ec.
#[verifier::external_body]
pub(crate) fn g2_generator() -> (r: G2)
    ensures
        g2_log(r) == 1,
{
    G2(G2Projective::generator())
}

/// Relies on `Mul<Fr>` for `G2Projective` of ark-ec: scalar multiplication.
#[verifier::external_body]
pub(crate) fn g2_mul(p: &G2, s: &Scalar) -> (r: G2)
    ensures
        g2_log(r) == (g2_log(*p) * scalar_val(*s)) % order(),
{
    G2(p.0 * s.0)
}

/// Relies on `Sub` for `G2Projective` of ark-ec: adding the inverse.
#[verifier::external_body]
pub(crate) fn g2_sub(p: &G2, q: &G2) -> (r: G2)
    ensures
        g2_log(r) == (g2_log(*p) - g2_log(*q)) % order(),
{
    G2(p.0 - q.0)
}

/// Relies on `Pairing::pairing` for `Bls12_381` of ark-ec: the pairing is
/// bilinear, so the logarithms multiply.
#[verifier::external_body]
pub(crate) fn pairing(p: &G1, q: &G2) -> (r: Gt)
    ensures
        gt_log(r) == (g1_log(*p) * g2_log(*q)) % order(),
{
    Gt(Bls12_381::pairing(p.0, q.0))
}

/// Relies on `PartialEq` for `PairingOutput` of ark-ec: the target group has
/// prime order, so two elements are equal exactly when their logarithms are.
#[verifier::external_body]
pub(crate) fn gt_eq(a: &Gt, b: &Gt) -> (r: bool)
    ensures
        r == (gt_log(*a) % order() == gt_log(*b) % order()),
{
    a.0 == b.0
}

/// Relies on `PartialEq` for `Fr` of ark-ff: elements are kept reduced, so
/// two are equal exactly when they stand for the same residue.
#[verifier::external_body]
pub(crate) fn scalar_eq(a: &Scalar, b: &Scalar) -> (r: bool)
    ensures
        r == (scalar_val(*a) % order() == scalar_val(*b) % order()),
{
    a.0 == b.0
}

/// Relies on `PartialEq` for `G1Projective` of ark-ec: it compares the points
/// the projective coordinates stand for, so two points of the prime-order
/// subgroup are equal exactly when their logarithms are.
#[verifier::external_body]
pub(crate) fn g1_eq(a: &G1, b: &G1) -> (r: bool)
    ensures
        r == (g1_log(*a) % order() == g1_log(*b) % order()),
{
    a.0 == b.0
}

impl G1 {
    /// Whether two points are the same point.
    pub fn equals(&self, other: &G1) -> (r: bool)
        ensures
            r == (g1_log(*self) % order() == g1_log(*other) % order()),
    {
        g1_eq(self, other)
    }
}

impl Scalar {
    /// Whether two scalars are the same field element.
    pub fn equals(&self, other: &Scalar) -> (r: bool)
        ensures
            r == (scalar_val(*self) % order() == scalar_val(*other) % order()),
    {
        scalar_eq(self, other)
    }

    /// The field element `n`.
    pub fn from_u64(n: u64) -> (r: Scalar)
        ensures
            scalar_val(r) == n as int,
    {
        let r = scalar_of_u64(n);
        proof {
            lemma_small_mod(n as nat, order() as nat);
        }
        r
    }
}

/// `n` scalars drawn uniformly at random.
pub fn random_scalars(n: usize) -> (r: Vec<Scalar>)
    ensures
        r.len() == n,
        forall|i: int| 0 <= i < n ==> 0 <= #[trigger] scalar_val(r[i]) < order(),
{
    let mut out: Vec<Scalar> = Vec::new();
    let mut i: usize = 0;
    while i < n
        invariant
            i <= n,
            out.len() == i,
            forall|j: int| 0 <= j < i ==> 0 <= #[trigger] scalar_val(out[j]) < order(),
        decreases n - i,
    {
        out.push(scalar_random());
        i += 1;
    }
    out
}

} // verus!
