use vstd::prelude::*;

verus! {

/// Why an operation was refused.
#[derive(Clone, Copy, Debug, PartialEq, Eq, Structural)]
pub enum BundleError {
    /// The authority bound to the record did not sign the request.
    Unauthorized,
    /// The manager is paused and the operation would change bundles.
    ManagerPaused,
    /// A manager record already lives at the target.
    AlreadyInitialized,
    /// Wallet indexes and instruction counts differ in length.
    ArityMismatch,
    /// More wallets than a bundle holds, more instructions than a wallet
    /// declared, or a counter of the manager at its limit.
    CapacityExceeded,
    /// The bundle's status does not allow the operation.
    InvalidState,
    /// Some wallet has not received all the instructions it declared.
    IncompleteBundle,
    /// The estimated cost of the bundle is above the caller's ceiling.
    ComputeBudgetExceeded,
    /// The target is held by another owner.
    OwnershipMismatch,
    /// A record or a command could not be decoded.
    DeserializationFailure,
    /// A wallet index occurs twice in one bundle.
    DuplicateWallet,
}

impl BundleError {
    /// The number by which the host knows the error.
    pub fn code(&self) -> (c: u32)
        ensures
            c == self.spec_code(),
    {
        match self {
            BundleError::Unauthorized => 0,
            BundleError::ManagerPaused => 1,
            BundleError::CapacityExceeded => 2,
            BundleError::ArityMismatch => 3,
            BundleError::AlreadyInitialized => 4,
            BundleError::InvalidState => 5,
            BundleError::IncompleteBundle => 6,
            BundleError::ComputeBudgetExceeded => 7,
            BundleError::OwnershipMismatch => 8,
            BundleError::DeserializationFailure => 9,
            BundleError::DuplicateWallet => 10,
        }
    }

    /// The number that stands for the error.
    pub open spec fn spec_code(&self) -> u32 {
        match self {
            BundleError::Unauthorized => 0,
            BundleError::ManagerPaused => 1,
            BundleError::CapacityExceeded => 2,
            BundleError::ArityMismatch => 3,
            BundleError::AlreadyInitialized => 4,
            BundleError::InvalidState => 5,
            BundleError::IncompleteBundle => 6,
            BundleError::ComputeBudgetExceeded => 7,
            BundleError::OwnershipMismatch => 8,
            BundleError::DeserializationFailure => 9,
            BundleError::DuplicateWallet => 10,
        }
    }
}

} // verus!
