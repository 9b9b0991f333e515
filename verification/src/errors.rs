use vstd::prelude::*;

verus! {

/// The failures an operation of this core can surface. Every failure aborts
/// the enclosing request as a whole: no partial state change accompanies any
/// of them.
#[derive(Clone, Copy, Debug, PartialEq, Eq, Structural)]
pub enum NomadzError {
    /// A create operation found a record already standing at the target
    /// address.
    AlreadyInitialized,
    /// An update or referral referenced a record that does not exist.
    NotFound,
    /// The caller is not the identity that the targeted record recognises.
    Unauthorized,
    /// The caller is not in the allow-list that gates the one-time config
    /// initialization.
    Forbidden,
    /// A referral named the same user as referrer and referred.
    SelfReferral,
    /// The referred user already received a referral once.
    AlreadyReferred,
    /// An operation needed the global config record before it was created.
    ConfigNotInitialized,
    /// An update tried to change the owner binding of a soulbound token.
    ImmutableFieldViolation,
    /// No canonical address exists for the given seed material.
    AddressDerivationError,
}

} // verus!
