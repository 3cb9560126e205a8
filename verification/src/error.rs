//! The errors of the ledger, in two kinds: those that a caller is expected to
//! branch on, and those that a well-behaved caller never runs into.

use vstd::prelude::*;

verus! {

/// Why an operation was refused. A refused operation changes nothing.
#[derive(Debug, Clone, Copy, PartialEq, Eq, Structural)]
pub enum Error {
    /// No split has the given id.
    SplitNotFound,
    /// The split was cancelled.
    SplitCancelled,
    /// The split has already been released in full.
    SplitReleased,
    /// The split is fully funded, so only a full release may pay it out.
    SplitFullyFunded,
    /// Nothing has been collected that was not released before.
    NoFundsAvailable,
    /// The user has no rewards record, or somebody else asked for it.
    UserNotFound,
    /// The user's rewards are not open to claims.
    RewardsAlreadyClaimed,
    /// The user has earned nothing beyond what was claimed before.
    InsufficientRewards,
    /// A request for the same split is still waiting for a decision.
    VerificationAlreadyExists,
    /// No verification request has the given id.
    VerificationNotFound,
    /// The caller is not one of the configured oracles.
    OracleNotAuthorized,
    /// The request has been decided before.
    InvalidVerificationStatus,
    /// The contract has been initialized before.
    AlreadyInitialized,
    /// The contract has not been initialized yet.
    NotInitialized,
    /// There are not as many shares as participants.
    ParticipantCountMismatch,
    /// A split needs at least one participant.
    NoParticipants,
    /// The shares do not add up to the total amount.
    InvalidShares,
    /// A deposit must be positive.
    InvalidAmount,
    /// The split is released or cancelled and takes no deposits.
    SplitNotAcceptingDeposits,
    /// The depositor is not a participant of the split.
    ParticipantNotFound,
    /// The deposit is more than the participant still owes.
    DepositExceedsShare,
    /// A released split cannot be cancelled.
    SplitAlreadyReleased,
    /// The caller is not the party that the operation is reserved for.
    Unauthorized,
    /// A counter would leave the range of its integer type.
    Overflow,
    /// A record does not satisfy the invariant of its type.
    InvalidState,
}

impl Error {
    /// Whether a well-behaved caller should never run into this error. The
    /// other errors are conditions that a caller is expected to branch on.
    pub open spec fn spec_is_fatal(self) -> bool {
        match self {
            Error::AlreadyInitialized
            | Error::NotInitialized
            | Error::ParticipantCountMismatch
            | Error::NoParticipants
            | Error::InvalidShares
            | Error::InvalidAmount
            | Error::SplitNotAcceptingDeposits
            | Error::ParticipantNotFound
            | Error::DepositExceedsShare
            | Error::SplitAlreadyReleased
            | Error::Unauthorized
            | Error::Overflow
            | Error::InvalidState => true,
            _ => false,
        }
    }

    /// The reason that goes with this error, in words.
    pub open spec fn spec_message(self) -> Seq<char> {
        match self {
            Error::SplitNotFound => "Split not found"@,
            Error::SplitCancelled => "Split has been cancelled"@,
            Error::SplitReleased => "Split has already been released"@,
            Error::SplitFullyFunded => "Split is fully funded"@,
            Error::NoFundsAvailable => "No funds available for release"@,
            Error::UserNotFound => "User not found"@,
            Error::RewardsAlreadyClaimed => "Rewards are not open to claims"@,
            Error::InsufficientRewards => "No rewards available"@,
            Error::VerificationAlreadyExists => "A verification request is already pending"@,
            Error::VerificationNotFound => "Verification request not found"@,
            Error::OracleNotAuthorized => "Caller is not an authorized oracle"@,
            Error::InvalidVerificationStatus => "Verification request is not pending"@,
            Error::AlreadyInitialized => "Contract already initialized"@,
            Error::NotInitialized => "Contract not initialized"@,
            Error::ParticipantCountMismatch =>
                "Participant addresses and shares must have the same length"@,
            Error::NoParticipants => "At least one participant is required"@,
            Error::InvalidShares => "Participant shares must sum to total amount"@,
            Error::InvalidAmount => "Deposit amount must be positive"@,
            Error::SplitNotAcceptingDeposits => "Split is not accepting deposits"@,
            Error::ParticipantNotFound => "Participant not found in split"@,
            Error::DepositExceedsShare => "Deposit exceeds remaining amount owed"@,
            Error::SplitAlreadyReleased => "Cannot cancel a released split"@,
            Error::Unauthorized => "Caller is not authorized"@,
            Error::Overflow => "Arithmetic overflow"@,
            Error::InvalidState => "Record is not well formed"@,
        }
    }

    /// Whether the operation should be aborted with [`Error::message`] rather
    /// than answered with the error as a value.
    #[verifier::when_used_as_spec(spec_is_fatal)]
    pub fn is_fatal(self) -> (r: bool)
        ensures
            r == self.spec_is_fatal(),
    {
        match self {
            Error::AlreadyInitialized
            | Error::NotInitialized
            | Error::ParticipantCountMismatch
            | Error::NoParticipants
            | Error::InvalidShares
            | Error::InvalidAmount
            | Error::SplitNotAcceptingDeposits
            | Error::ParticipantNotFound
            | Error::DepositExceedsShare
            | Error::SplitAlreadyReleased
            | Error::Unauthorized
            | Error::Overflow
            | Error::InvalidState => true,
            _ => false,
        }
    }

    /// The reason that goes with this error, in words.
    pub fn message(self) -> (r: &'static str)
        ensures
            r@ == self.spec_message(),
    {
        match self {
            Error::SplitNotFound => "Split not found",
            Error::SplitCancelled => "Split has been cancelled",
            Error::SplitReleased => "Split has already been released",
            Error::SplitFullyFunded => "Split is fully funded",
            Error::NoFundsAvailable => "No funds available for release",
            Error::UserNotFound => "User not found",
            Error::RewardsAlreadyClaimed => "Rewards are not open to claims",
            Error::InsufficientRewards => "No rewards available",
            Error::VerificationAlreadyExists => "A verification request is already pending",
            Error::VerificationNotFound => "Verification request not found",
            Error::OracleNotAuthorized => "Caller is not an authorized oracle",
            Error::InvalidVerificationStatus => "Verification request is not pending",
            Error::AlreadyInitialized => "Contract already initialized",
            Error::NotInitialized => "Contract not initialized",
            Error::ParticipantCountMismatch =>
                "Participant addresses and shares must have the same length",
            Error::NoParticipants => "At least one participant is required",
            Error::InvalidShares => "Participant shares must sum to total amount",
            Error::InvalidAmount => "Deposit amount must be positive",
            Error::SplitNotAcceptingDeposits => "Split is not accepting deposits",
            Error::ParticipantNotFound => "Participant not found in split",
            Error::DepositExceedsShare => "Deposit exceeds remaining amount owed",
            Error::SplitAlreadyReleased => "Cannot cancel a released split",
            Error::Unauthorized => "Caller is not authorized",
            Error::Overflow => "Arithmetic overflow",
            Error::InvalidState => "Record is not well formed",
        }
    }
}

} // verus!
