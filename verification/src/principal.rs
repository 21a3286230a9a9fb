use vstd::prelude::*;

verus! {

/// An opaque caller identity supplied by the host environment.
///
/// The host authenticates callers and hands every mutating operation an
/// unforgeable identifier; the engine only ever compares identities for
/// equality, so a plain numeric handle carries everything the logic reads.
/// The identifier 0 is reserved for the distinguished anonymous identity,
/// which the host never supplies as a real caller.
#[derive(Clone, Copy, PartialEq, Eq, Structural, Debug)]
pub struct Principal {
    pub id: u64,
}

impl Principal {
    /// The distinguished "no one" identity: the default winner before close.
    pub open spec fn spec_anonymous() -> Principal {
        Principal { id: 0 }
    }

    pub open spec fn spec_is_anonymous(self) -> bool {
        self == Principal::spec_anonymous()
    }

    pub fn anonymous() -> (r: Principal)
        ensures
            r == Principal::spec_anonymous(),
    {
        Principal { id: 0 }
    }

    pub fn is_anonymous(&self) -> (r: bool)
        ensures
            r == self.spec_is_anonymous(),
    {
        self.id == 0
    }
}

} // verus!
