//! A verified escrow ledger for bills that several parties share.
//!
//! A [`Split`] is a bill with a fixed total and one share for each participant.
//! Participants pay towards their shares in as many deposits as they like; what
//! was collected goes to the creator of the split, in full once the split is
//! fully funded, or in parts before. A split can be cancelled until it is
//! released. Beside the splits the ledger keeps a rewards account for each
//! user and the requests to have a split verified by an oracle.
//!
//! [`SplitEscrowContract`] holds all of it and offers the operations. It moves
//! no value and publishes nothing itself: each operation adds the transfers and
//! events that it asks for to two lists, which the caller takes and carries out.
//! Time and the identity of the caller come in as arguments.
//!
//! Every operation is specified over a mathematical model of the state
//! ([`contract::ContractView`], [`split::SplitView`], ...) and proved against
//! it; [`laws`] states what follows for any sequence of operations.

pub mod address;
pub mod contract;
pub mod error;
pub mod escrow;
pub mod events;
pub mod laws;
pub mod rewards;
pub mod split;
pub mod verification;

pub use crate::address::Address;
pub use crate::contract::{SplitEscrowContract, Transfer};
pub use crate::error::Error;
pub use crate::escrow::{create_escrow, EscrowParticipant, EscrowStatus, SplitEscrow};
pub use crate::events::Event;
pub use crate::rewards::{ActivityType, RewardsStatus, UserActivity, UserRewards};
pub use crate::split::{Participant, Split, SplitStatus};
pub use crate::verification::{
    parse_split_id, parse_verification_id, OracleConfig, VerificationRequest, VerificationStatus,
};
