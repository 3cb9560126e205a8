//! The events that the ledger wants published, and the functions that add them
//! to a log.

use crate::address::Address;
use vstd::prelude::*;
use vstd::string::StringExecFns;

verus! {

/// A notice of something that happened, meant for observers outside.
#[derive(Debug)]
#[allow(inconsistent_fields)]
pub enum Event {
    /// The contract was initialized with `admin`.
    Initialized { admin: Address },
    /// A split was created.
    SplitCreated { split_id: u64, creator: Address, total_amount: i128 },
    /// A participant paid towards its share.
    DepositReceived { split_id: u64, participant: Address, amount: i128 },
    /// Funds went to the creator of a split.
    FundsReleased { split_id: u64, recipient: Address, amount: i128, timestamp: u64 },
    /// A split was settled in full.
    EscrowCompleted { split_id: u64, total_amount: i128 },
    /// A split was cancelled.
    SplitCancelled { split_id: u64 },
    /// A participant was refunded.
    RefundProcessed { split_id: u64, participant: Address, amount: i128 },
    /// An insurance policy was bought for a split.
    InsurancePurchased {
        insurance_id: String,
        split_id: String,
        policy_holder: Address,
        premium: i128,
        coverage_amount: i128,
    },
    /// A claim was filed under an insurance policy.
    ClaimFiled { claim_id: String, insurance_id: String, claimant: Address, claim_amount: i128 },
    /// An insurance claim was decided.
    ClaimProcessed { claim_id: String, insurance_id: String, approved: bool, payout_amount: i128 },
    /// An insurance claim was paid.
    PayoutMade { claim_id: String, recipient: Address, amount: i128 },
    /// An activity of a user was recorded for rewards.
    ActivityTracked { user: Address, activity_type: String, split_id: u64, amount: i128 },
    /// The rewards of a user were worked out.
    RewardsCalculated { user: Address, total_rewards: i128, available_rewards: i128 },
    /// A user claimed rewards.
    RewardsClaimed { user: Address, amount_claimed: i128 },
    /// Evidence was submitted for a split.
    VerificationSubmitted { verification_id: u64, split_id: String, requester: Address },
    /// An oracle decided a verification request.
    VerificationCompleted { verification_id: u64, verified: bool, verifier: Address },
    /// A verification request changed its status.
    VerificationStatusChanged { verification_id: u64, old_status: String, new_status: String },
}

/// An event as a mathematical value.
#[allow(inconsistent_fields)]
pub enum EventView {
    Initialized { admin: Seq<char> },
    SplitCreated { split_id: u64, creator: Seq<char>, total_amount: int },
    DepositReceived { split_id: u64, participant: Seq<char>, amount: int },
    FundsReleased { split_id: u64, recipient: Seq<char>, amount: int, timestamp: u64 },
    EscrowCompleted { split_id: u64, total_amount: int },
    SplitCancelled { split_id: u64 },
    RefundProcessed { split_id: u64, participant: Seq<char>, amount: int },
    InsurancePurchased {
        insurance_id: Seq<char>,
        split_id: Seq<char>,
        policy_holder: Seq<char>,
        premium: int,
        coverage_amount: int,
    },
    ClaimFiled {
        claim_id: Seq<char>,
        insurance_id: Seq<char>,
        claimant: Seq<char>,
        claim_amount: int,
    },
    ClaimProcessed {
        claim_id: Seq<char>,
        insurance_id: Seq<char>,
        approved: bool,
        payout_amount: int,
    },
    PayoutMade { claim_id: Seq<char>, recipient: Seq<char>, amount: int },
    ActivityTracked { user: Seq<char>, activity_type: Seq<char>, split_id: u64, amount: int },
    RewardsCalculated { user: Seq<char>, total_rewards: int, available_rewards: int },
    RewardsClaimed { user: Seq<char>, amount_claimed: int },
    VerificationSubmitted { verification_id: u64, split_id: Seq<char>, requester: Seq<char> },
    VerificationCompleted { verification_id: u64, verified: bool, verifier: Seq<char> },
    VerificationStatusChanged {
        verification_id: u64,
        old_status: Seq<char>,
        new_status: Seq<char>,
    },
}

impl View for Event {
    type V = EventView;

    open spec fn view(&self) -> EventView {
        match *self {
            Event::Initialized { admin } => EventView::Initialized {
                admin: admin@,
            },
            Event::SplitCreated { split_id, creator, total_amount } => EventView::SplitCreated {
                split_id,
                creator: creator@,
                total_amount: total_amount as int,
            },
            Event::DepositReceived { split_id, participant, amount } => EventView::DepositReceived {
                split_id,
                participant: participant@,
                amount: amount as int,
            },
            Event::FundsReleased {
                split_id,
                recipient,
                amount,
                timestamp,
            } => EventView::FundsReleased {
                split_id,
                recipient: recipient@,
                amount: amount as int,
                timestamp,
            },
            Event::EscrowCompleted { split_id, total_amount } => EventView::EscrowCompleted {
                split_id,
                total_amount: total_amount as int,
            },
            Event::SplitCancelled { split_id } => EventView::SplitCancelled {
                split_id,
            },
            Event::RefundProcessed { split_id, participant, amount } => EventView::RefundProcessed {
                split_id,
                participant: participant@,
                amount: amount as int,
            },
            Event::InsurancePurchased {
                insurance_id,
                split_id,
                policy_holder,
                premium,
                coverage_amount,
            } => EventView::InsurancePurchased {
                insurance_id: insurance_id@,
                split_id: split_id@,
                policy_holder: policy_holder@,
                premium: premium as int,
                coverage_amount: coverage_amount as int,
            },
            Event::ClaimFiled {
                claim_id,
                insurance_id,
                claimant,
                claim_amount,
            } => EventView::ClaimFiled {
                claim_id: claim_id@,
                insurance_id: insurance_id@,
                claimant: claimant@,
                claim_amount: claim_amount as int,
            },
            Event::ClaimProcessed {
                claim_id,
                insurance_id,
                approved,
                payout_amount,
            } => EventView::ClaimProcessed {
                claim_id: claim_id@,
                insurance_id: insurance_id@,
                approved,
                payout_amount: payout_amount as int,
            },
            Event::PayoutMade { claim_id, recipient, amount } => EventView::PayoutMade {
                claim_id: claim_id@,
                recipient: recipient@,
                amount: amount as int,
            },
            Event::ActivityTracked {
                user,
                activity_type,
                split_id,
                amount,
            } => EventView::ActivityTracked {
                user: user@,
                activity_type: activity_type@,
                split_id,
                amount: amount as int,
            },
            Event::RewardsCalculated {
                user,
                total_rewards,
                available_rewards,
            } => EventView::RewardsCalculated {
                user: user@,
                total_rewards: total_rewards as int,
                available_rewards: available_rewards as int,
            },
            Event::RewardsClaimed { user, amount_claimed } => EventView::RewardsClaimed {
                user: user@,
                amount_claimed: amount_claimed as int,
            },
            Event::VerificationSubmitted {
                verification_id,
                split_id,
                requester,
            } => EventView::VerificationSubmitted {
                verification_id,
                split_id: split_id@,
                requester: requester@,
            },
            Event::VerificationCompleted {
                verification_id,
                verified,
                verifier,
            } => EventView::VerificationCompleted {
                verification_id,
                verified,
                verifier: verifier@,
            },
            Event::VerificationStatusChanged {
                verification_id,
                old_status,
                new_status,
            } => EventView::VerificationStatusChanged {
                verification_id,
                old_status: old_status@,
                new_status: new_status@,
            },
        }
    }
}

impl EventView {
    /// The topic under which the event is published.
    pub open spec fn topic(self) -> Seq<char> {
        match self {
            EventView::Initialized { .. } => "init"@,
            EventView::SplitCreated { .. } => "created"@,
            EventView::DepositReceived { .. } => "deposit"@,
            EventView::FundsReleased { .. } => "released"@,
            EventView::EscrowCompleted { .. } => "completed"@,
            EventView::SplitCancelled { .. } => "cancel"@,
            EventView::RefundProcessed { .. } => "refund"@,
            EventView::InsurancePurchased { .. } => "ins_purchased"@,
            EventView::ClaimFiled { .. } => "claim_filed"@,
            EventView::ClaimProcessed { .. } => "claim_processed"@,
            EventView::PayoutMade { .. } => "payout_made"@,
            EventView::ActivityTracked { .. } => "activity_tracked"@,
            EventView::RewardsCalculated { .. } => "rewards_calculated"@,
            EventView::RewardsClaimed { .. } => "rewards_claimed"@,
            EventView::VerificationSubmitted { .. } => "verification_submitted"@,
            EventView::VerificationCompleted { .. } => "verification_completed"@,
            EventView::VerificationStatusChanged { .. } => "verification_status_changed"@,
        }
    }
}

impl Event {
    /// The topic under which the event is published.
    pub fn topic(&self) -> (r: &'static str)
        ensures
            r@ == self@.topic(),
    {
        match self {
            Event::Initialized { .. } => "init",
            Event::SplitCreated { .. } => "created",
            Event::DepositReceived { .. } => "deposit",
            Event::FundsReleased { .. } => "released",
            Event::EscrowCompleted { .. } => "completed",
            Event::SplitCancelled { .. } => "cancel",
            Event::RefundProcessed { .. } => "refund",
            Event::InsurancePurchased { .. } => "ins_purchased",
            Event::ClaimFiled { .. } => "claim_filed",
            Event::ClaimProcessed { .. } => "claim_processed",
            Event::PayoutMade { .. } => "payout_made",
            Event::ActivityTracked { .. } => "activity_tracked",
            Event::RewardsCalculated { .. } => "rewards_calculated",
            Event::RewardsClaimed { .. } => "rewards_claimed",
            Event::VerificationSubmitted { .. } => "verification_submitted",
            Event::VerificationCompleted { .. } => "verification_completed",
            Event::VerificationStatusChanged { .. } => "verification_status_changed",
        }
    }
}

/// The views of a list of events, in order.
pub open spec fn event_views(events: Seq<Event>) -> Seq<EventView> {
    events.map_values(|e: Event| e@)
}

/// Puts `event` at the end of `log`.
pub fn record(log: &mut Vec<Event>, event: Event)
    ensures
        event_views(final(log)@) == event_views(old(log)@).push(event@),
{
    log.push(event);
}

/// Puts at the end of `log`: the contract was initialized with `admin`.
pub fn emit_initialized(log: &mut Vec<Event>, admin: &Address)
    ensures
        event_views(final(log)@) == event_views(old(log)@).push(
            EventView::Initialized { admin: admin@ },
        ),
{
    record(log, Event::Initialized { admin: admin.clone() });
}

/// Puts at the end of `log`: a split was created.
pub fn emit_split_created(
    log: &mut Vec<Event>,
    split_id: u64,
    creator: &Address,
    total_amount: i128,
)
    ensures
        event_views(final(log)@) == event_views(old(log)@).push(
            EventView::SplitCreated {
                split_id,
                creator: creator@,
                total_amount: total_amount as int,
            },
        ),
{
    record(log, Event::SplitCreated { split_id, creator: creator.clone(), total_amount });
}

/// Puts at the end of `log`: a participant paid towards its share.
pub fn emit_deposit_received(
    log: &mut Vec<Event>,
    split_id: u64,
    participant: &Address,
    amount: i128,
)
    ensures
        event_views(final(log)@) == event_views(old(log)@).push(
            EventView::DepositReceived {
                split_id,
                participant: participant@,
                amount: amount as int,
            },
        ),
{
    record(log, Event::DepositReceived { split_id, participant: participant.clone(), amount });
}

/// Puts at the end of `log`: funds went to the creator of a split.
pub fn emit_funds_released(
    log: &mut Vec<Event>,
    split_id: u64,
    recipient: &Address,
    amount: i128,
    timestamp: u64,
)
    ensures
        event_views(final(log)@) == event_views(old(log)@).push(
            EventView::FundsReleased {
                split_id,
                recipient: recipient@,
                amount: amount as int,
                timestamp,
            },
        ),
{
    record(log, Event::FundsReleased { split_id, recipient: recipient.clone(), amount, timestamp });
}

/// Puts at the end of `log`: a split was settled in full.
pub fn emit_escrow_completed(log: &mut Vec<Event>, split_id: u64, total_amount: i128)
    ensures
        event_views(final(log)@) == event_views(old(log)@).push(
            EventView::EscrowCompleted { split_id, total_amount: total_amount as int },
        ),
{
    record(log, Event::EscrowCompleted { split_id, total_amount });
}

/// Puts at the end of `log`: a split was cancelled.
pub fn emit_split_cancelled(log: &mut Vec<Event>, split_id: u64)
    ensures
        event_views(final(log)@) == event_views(old(log)@).push(
            EventView::SplitCancelled { split_id },
        ),
{
    record(log, Event::SplitCancelled { split_id });
}

/// Puts at the end of `log`: a participant was refunded.
pub fn emit_refund_processed(
    log: &mut Vec<Event>,
    split_id: u64,
    participant: &Address,
    amount: i128,
)
    ensures
        event_views(final(log)@) == event_views(old(log)@).push(
            EventView::RefundProcessed {
                split_id,
                participant: participant@,
                amount: amount as int,
            },
        ),
{
    record(log, Event::RefundProcessed { split_id, participant: participant.clone(), amount });
}

/// Puts at the end of `log`: an insurance policy was bought for a split.
pub fn emit_insurance_purchased(
    log: &mut Vec<Event>,
    insurance_id: &str,
    split_id: &str,
    policy_holder: &Address,
    premium: i128,
    coverage_amount: i128,
)
    ensures
        event_views(final(log)@) == event_views(old(log)@).push(
            EventView::InsurancePurchased {
                insurance_id: insurance_id@,
                split_id: split_id@,
                policy_holder: policy_holder@,
                premium: premium as int,
                coverage_amount: coverage_amount as int,
            },
        ),
{
    record(
        log,
        Event::InsurancePurchased {
            insurance_id: String::from_str(insurance_id),
            split_id: String::from_str(split_id),
            policy_holder: policy_holder.clone(),
            premium,
            coverage_amount,
        },
    );
}

/// Puts at the end of `log`: a claim was filed under an insurance policy.
pub fn emit_claim_filed(
    log: &mut Vec<Event>,
    claim_id: &str,
    insurance_id: &str,
    claimant: &Address,
    claim_amount: i128,
)
    ensures
        event_views(final(log)@) == event_views(old(log)@).push(
            EventView::ClaimFiled {
                claim_id: claim_id@,
                insurance_id: insurance_id@,
                claimant: claimant@,
                claim_amount: claim_amount as int,
            },
        ),
{
    record(
        log,
        Event::ClaimFiled {
            claim_id: String::from_str(claim_id),
            insurance_id: String::from_str(insurance_id),
            claimant: claimant.clone(),
            claim_amount,
        },
    );
}

/// Puts at the end of `log`: an insurance claim was decided.
pub fn emit_claim_processed(
    log: &mut Vec<Event>,
    claim_id: &str,
    insurance_id: &str,
    approved: bool,
    payout_amount: i128,
)
    ensures
        event_views(final(log)@) == event_views(old(log)@).push(
            EventView::ClaimProcessed {
                claim_id: claim_id@,
                insurance_id: insurance_id@,
                approved,
                payout_amount: payout_amount as int,
            },
        ),
{
    record(
        log,
        Event::ClaimProcessed {
            claim_id: String::from_str(claim_id),
            insurance_id: String::from_str(insurance_id),
            approved,
            payout_amount,
        },
    );
}

/// Puts at the end of `log`: an insurance claim was paid.
pub fn emit_payout_made(log: &mut Vec<Event>, claim_id: &str, recipient: &Address, amount: i128)
    ensures
        event_views(final(log)@) == event_views(old(log)@).push(
            EventView::PayoutMade {
                claim_id: claim_id@,
                recipient: recipient@,
                amount: amount as int,
            },
        ),
{
    record(
        log,
        Event::PayoutMade {
            claim_id: String::from_str(claim_id),
            recipient: recipient.clone(),
            amount,
        },
    );
}

/// Puts at the end of `log`: an activity of a user was recorded for rewards.
pub fn emit_activity_tracked(
    log: &mut Vec<Event>,
    user: &Address,
    activity_type: &str,
    split_id: u64,
    amount: i128,
)
    ensures
        event_views(final(log)@) == event_views(old(log)@).push(
            EventView::ActivityTracked {
                user: user@,
                activity_type: activity_type@,
                split_id,
                amount: amount as int,
            },
        ),
{
    record(
        log,
        Event::ActivityTracked {
            user: user.clone(),
            activity_type: String::from_str(activity_type),
            split_id,
            amount,
        },
    );
}

/// Puts at the end of `log`: the rewards of a user were worked out.
pub fn emit_rewards_calculated(
    log: &mut Vec<Event>,
    user: &Address,
    total_rewards: i128,
    available_rewards: i128,
)
    ensures
        event_views(final(log)@) == event_views(old(log)@).push(
            EventView::RewardsCalculated {
                user: user@,
                total_rewards: total_rewards as int,
                available_rewards: available_rewards as int,
            },
        ),
{
    record(log, Event::RewardsCalculated { user: user.clone(), total_rewards, available_rewards });
}

/// Puts at the end of `log`: a user claimed rewards.
pub fn emit_rewards_claimed(log: &mut Vec<Event>, user: &Address, amount_claimed: i128)
    ensures
        event_views(final(log)@) == event_views(old(log)@).push(
            EventView::RewardsClaimed { user: user@, amount_claimed: amount_claimed as int },
        ),
{
    record(log, Event::RewardsClaimed { user: user.clone(), amount_claimed });
}

/// Puts at the end of `log`: evidence was submitted for a split.
pub fn emit_verification_submitted(
    log: &mut Vec<Event>,
    verification_id: u64,
    split_id: &str,
    requester: &Address,
)
    ensures
        event_views(final(log)@) == event_views(old(log)@).push(
            EventView::VerificationSubmitted {
                verification_id,
                split_id: split_id@,
                requester: requester@,
            },
        ),
{
    record(
        log,
        Event::VerificationSubmitted {
            verification_id,
            split_id: String::from_str(split_id),
            requester: requester.clone(),
        },
    );
}

/// Puts at the end of `log`: an oracle decided a verification request.
pub fn emit_verification_completed(
    log: &mut Vec<Event>,
    verification_id: u64,
    verified: bool,
    verifier: &Address,
)
    ensures
        event_views(final(log)@) == event_views(old(log)@).push(
            EventView::VerificationCompleted { verification_id, verified, verifier: verifier@ },
        ),
{
    record(
        log,
        Event::VerificationCompleted { verification_id, verified, verifier: verifier.clone() },
    );
}

/// Puts at the end of `log`: a verification request changed its status.
pub fn emit_verification_status_changed(
    log: &mut Vec<Event>,
    verification_id: u64,
    old_status: &str,
    new_status: &str,
)
    ensures
        event_views(final(log)@) == event_views(old(log)@).push(
            EventView::VerificationStatusChanged {
                verification_id,
                old_status: old_status@,
                new_status: new_status@,
            },
        ),
{
    record(
        log,
        Event::VerificationStatusChanged {
            verification_id,
            old_status: String::from_str(old_status),
            new_status: String::from_str(new_status),
        },
    );
}

} // verus!
