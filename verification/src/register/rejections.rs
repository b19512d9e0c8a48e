use vstd::prelude::*;

verus! {

/// Why the registry refused a request.
#[derive(Debug, Clone, Copy, PartialEq, Eq, Structural)]
pub enum Rejections {
    /// The registration type is absent or not recognised.
    MissingRegistrationType,
    /// A credential could not be hashed.
    UnhashableKey,
    /// A credential does not verify against the stored hash.
    InvalidKey,
    /// The requested identifier is taken and requested identifiers are enforced.
    InUseID,
    /// The requested identifier is not eight characters long and requested
    /// identifiers are enforced.
    IncorrectLengthID,
    /// No registration has the identifier.
    NotFound,
    /// Every identifier drawn was already taken.
    NoFreeID,
}

impl Rejections {
    /// The text shown to the requester.
    pub open spec fn text(self) -> Seq<char> {
        match self {
            Rejections::MissingRegistrationType => "Missing the registration type"@,
            Rejections::UnhashableKey => "Provided key is unhashable"@,
            Rejections::InvalidKey => "Provided key is invalid"@,
            Rejections::InUseID => "ID is already in use and server is configured to reject requested IDs that are already in use"@,
            Rejections::IncorrectLengthID => "The ID must be exactly 8 characters long"@,
            Rejections::NotFound => "No registration has this ID"@,
            Rejections::NoFreeID => "No free ID could be found"@,
        }
    }

    /// The human-readable message of the rejection.
    pub fn message(&self) -> (m: &'static str)
        ensures
            m@ == self.text(),
    {
        match self {
            Rejections::MissingRegistrationType => "Missing the registration type",
            Rejections::UnhashableKey => "Provided key is unhashable",
            Rejections::InvalidKey => "Provided key is invalid",
            Rejections::InUseID => "ID is already in use and server is configured to reject requested IDs that are already in use",
            Rejections::IncorrectLengthID => "The ID must be exactly 8 characters long",
            Rejections::NotFound => "No registration has this ID",
            Rejections::NoFreeID => "No free ID could be found",
        }
    }
}

} // verus!
