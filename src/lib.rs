//! A KZG polynomial commitment scheme over BLS12-381.
//!
//! `protocol` holds the four steps: the reference string, the commitment,
//! the opening proofs and the pairing check. `algebra` and `polynomial` hold
//! the field, group, pairing and polynomial operations it is built on, with
//! their mathematical model: scalars as integers modulo the group order,
//! group elements by their discrete logarithms, polynomials by their
//! coefficient sequences. `laws` proves what holds across the steps.
use vstd::prelude::*;

pub mod algebra;
pub mod polynomial;
pub mod protocol;
pub mod laws;

verus! {

} // verus!
