use vstd::prelude::*;

verus! {

/// Why a socket was refused at admission.
#[derive(Debug, Clone, Copy, PartialEq, Eq, Structural)]
pub enum Rejections {
    /// No registration has the requested identifier.
    NonexistentId,
    /// The participant key does not verify against the registration's hash.
    IncorrectKey,
    /// A host-client registration needs a socket type of `host` or `client`.
    InvalidSockType,
}

} // verus!
