//! The tolerance type: a validated, strictly positive length.
//!
//! A tolerance bounds how far a triangulated approximation may deviate from
//! the original surface. It is stored as a fixed-point count of nanos
//! (billionths of a unit) and can only be constructed through the fallible
//! constructor, which rejects every value that is not strictly positive.

use vstd::prelude::*;

verus! {

/// Number of nanos in one length unit.
pub const NANOS_PER_UNIT: i64 = 1_000_000_000;

/// A tolerance value that was not strictly positive.
///
/// Carries the offending value so that diagnostics can show it.
#[derive(Clone, Copy, PartialEq, Eq, Structural, Debug)]
pub struct InvalidTolerance {
    /// The rejected value, in nanos.
    pub value_nanos: i64,
}

/// A strictly positive tolerance, in nanos.
///
/// Immutable once constructed; the only way to obtain one is
/// [`Tolerance::from_nanos`], which enforces positivity.
#[derive(Clone, Copy, Debug)]
pub struct Tolerance {
    nanos: i64,
}

impl Tolerance {
    /// The tolerance, in nanos, as a mathematical integer.
    pub closed spec fn nanos_spec(self) -> int {
        self.nanos as int
    }

    /// Every tolerance in existence is strictly positive.
    #[verifier::type_invariant]
    pub closed spec fn positive(self) -> bool {
        self.nanos > 0
    }

    /// Construct a tolerance, rejecting values that are not strictly positive.
    pub fn from_nanos(nanos: i64) -> (r: Result<Tolerance, InvalidTolerance>)
        ensures
            nanos > 0 ==> (r matches Ok(t) && t.nanos_spec() == nanos),
            nanos <= 0 ==> r == Err::<Tolerance, _>(InvalidTolerance { value_nanos: nanos }),
    {
        if nanos > 0 {
            Ok(Tolerance { nanos })
        } else {
            Err(InvalidTolerance { value_nanos: nanos })
        }
    }

    /// The tolerance, in nanos. Always strictly positive.
    pub fn as_nanos(&self) -> (n: i64)
        ensures
            n == self.nanos_spec(),
            n > 0,
    {
        proof {
            use_type_invariant(self);
        }
        self.nanos
    }
}

} // verus!
