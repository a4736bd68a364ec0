//! The algorithms that sign and verify tokens.

use vstd::prelude::*;

verus! {

/// An algorithm that signs and verifies tokens.
#[derive(Clone, Copy, Debug, PartialEq, Eq, Structural)]
pub enum Algorithm {
    EdDSA,
    Es256,
    Es384,
    Es512,
    Hs256,
    Hs384,
    Hs512,
    Ps256,
    Ps384,
    Ps512,
    Rs256,
    Rs384,
    Rs512,
}

impl Algorithm {
    /// Whether the algorithm signs and verifies with the same key.
    pub open spec fn symmetric(self) -> bool {
        self is Hs256 || self is Hs384 || self is Hs512
    }

    /// Whether the algorithm signs and verifies with the same key.
    pub fn is_symmetric(self) -> (r: bool)
        ensures
            r == self.symmetric(),
    {
        match self {
            Algorithm::Hs256 | Algorithm::Hs384 | Algorithm::Hs512 => true,
            _ => false,
        }
    }
}

} // verus!
