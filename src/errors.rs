use vstd::prelude::*;

verus! {

/// Errors raised by the document operations and by authority resolution.
#[derive(Clone, Copy, Debug, PartialEq, Eq, Structural)]
pub enum DidSolError {
    /// No verification method with the given fragment exists.
    VmFragmentNotFound,
    /// The given verification method fragment is already in use.
    VmFragmentAlreadyInUse,
    /// A verification method with a guarded flag (ownership proof or protected) cannot be added.
    VmGuardedFlagOnAdd,
    /// The change would leave the document without an authority: a lockout.
    VmCannotRemoveLastAuthority,
    /// The service fragment is already in use.
    ServiceFragmentAlreadyInUse,
    /// No service with the given fragment exists.
    ServiceFragmentNotFound,
    /// An other-controller is not a DID, or is a did:sol DID.
    InvalidOtherControllers,
    /// The document cannot list its own authority as a native controller.
    InvalidNativeControllers,
    /// The initial account size is too small for the serialized document.
    InsufficientInitialSize,
    /// A value could not be converted (unknown flag bits or key type).
    ConversionError,
    /// The chain of controlling documents is not valid.
    InvalidControllerChain,
    /// An error occurred while validating a secp256k1 signature.
    ErrorValidatingSecp256k1Signature,
    /// The authority does not derive the address of the generative document.
    WrongAuthorityForDid,
    /// A protected verification method cannot be removed; clear its protected flag first.
    VmCannotRemoveProtected,
    /// The seeds and bump do not derive a valid program address.
    ConstraintSeeds,
    /// No verification method of the document authorizes the request.
    NotAuthorized,
}

/// Errors of the first-generation registry format.
#[derive(Clone, Copy, Debug, PartialEq, Eq, Structural)]
pub enum SolError {
    /// Incorrect authority provided on update or delete.
    IncorrectAuthority,
    /// Calculation overflow.
    Overflow,
    /// Invalid string error, from parsing.
    InvalidString,
}

} // verus!
