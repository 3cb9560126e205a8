//! The contract: every split, rewards account and verification request, and
//! the operations on them.

use crate::address::Address;
use crate::error::Error;
use crate::events::{
    emit_activity_tracked, emit_deposit_received, emit_escrow_completed, emit_funds_released,
    emit_initialized, emit_rewards_calculated, emit_rewards_claimed, emit_split_cancelled,
    emit_split_created, emit_verification_completed, emit_verification_submitted, event_views,
    Event, EventView,
};
use crate::rewards::{ActivityType, UserActivity, UserActivityView, UserRewards, UserRewardsView};
use crate::split::{address_views, amounts_of, creation_error, Split, SplitOp, SplitView};
use crate::verification::{
    find_pending, has_pending_for, latest_decision, parse_split_id, parse_verification_id,
    request_views, settled_status, split_id_of, status_of, verification_id_of, OracleConfig,
    VerificationRequest, VerificationRequestView, VerificationStatus,
};
use vstd::prelude::*;

verus! {

/// A movement of value that the ledger asks for. The ledger works out amounts
/// and directions; moving the value is somebody else's work.
#[derive(Debug)]
pub enum Transfer {
    /// `amount` goes from `from` into custody.
    Collect { from: Address, amount: i128 },
    /// `amount` goes out of custody to `to`.
    PayOut { to: Address, amount: i128 },
}

/// A transfer as a mathematical value.
pub enum TransferView {
    Collect { from: Seq<char>, amount: int },
    PayOut { to: Seq<char>, amount: int },
}

impl View for Transfer {
    type V = TransferView;

    open spec fn view(&self) -> TransferView {
        match *self {
            Transfer::Collect { from, amount } => TransferView::Collect {
                from: from@,
                amount: amount as int,
            },
            Transfer::PayOut { to, amount } => TransferView::PayOut {
                to: to@,
                amount: amount as int,
            },
        }
    }
}

/// The views of a list of transfers, in order.
pub open spec fn transfer_views(transfers: Seq<Transfer>) -> Seq<TransferView> {
    transfers.map_values(|t: Transfer| t@)
}

/// The views of a list of splits, in order.
pub open spec fn split_views(splits: Seq<Split>) -> Seq<SplitView> {
    splits.map_values(|s: Split| s@)
}

/// The views of a list of rewards accounts, in order.
pub open spec fn rewards_views(rewards: Seq<UserRewards>) -> Seq<UserRewardsView> {
    rewards.map_values(|r: UserRewards| r@)
}

/// The views of a list of logged activities, in order.
pub open spec fn activity_views(activities: Seq<UserActivity>) -> Seq<UserActivityView> {
    activities.map_values(|a: UserActivity| a@)
}

/// The view of an address that may be missing.
pub open spec fn optional_address_view(address: Option<Address>) -> Option<Seq<char>> {
    match address {
        Some(a) => Some(a@),
        None => None,
    }
}

/// The view of an oracle list that may be missing.
pub open spec fn optional_oracles_view(config: Option<OracleConfig>) -> Option<Seq<Seq<char>>> {
    match config {
        Some(c) => Some(c@),
        None => None,
    }
}

/// Everything that the escrow contract keeps, as a mathematical value.
pub struct ContractView {
    /// Who administers the contract; `None` before it is initialized.
    pub admin: Option<Seq<char>>,
    /// The token in which splits are paid; `None` before initialization.
    pub token: Option<Seq<char>>,
    /// Every split ever created: the split with id `k` stands at place `k - 1`.
    pub splits: Seq<SplitView>,
    /// The rewards accounts, one for each user who has one.
    pub rewards: Seq<UserRewardsView>,
    /// The log of activities, oldest first.
    pub activities: Seq<UserActivityView>,
    /// Every verification request ever submitted: the request with id `k`
    /// stands at place `k - 1`.
    pub verifications: Seq<VerificationRequestView>,
    /// Who may decide verification requests; `None` where nobody was named.
    pub oracles: Option<Seq<Seq<char>>>,
    /// The events that wait to be published, oldest first.
    pub events: Seq<EventView>,
    /// The transfers that wait to be made, oldest first.
    pub transfers: Seq<TransferView>,
}

impl ContractView {
    /// The contract before anything happened.
    pub open spec fn empty() -> ContractView {
        ContractView {
            admin: None,
            token: None,
            splits: Seq::empty(),
            rewards: Seq::empty(),
            activities: Seq::empty(),
            verifications: Seq::empty(),
            oracles: None,
            events: Seq::empty(),
            transfers: Seq::empty(),
        }
    }

    /// The invariant of the contract: every split and every rewards account is
    /// well formed, ids say where a record stands, no user has two accounts, and
    /// no two requests for the same split text wait for a decision.
    pub open spec fn wf(self) -> bool {
        &&& splits_valid(self.splits)
        &&& rewards_valid(self.rewards)
        &&& requests_valid(self.verifications)
    }

    /// Whether a split has the id `id`.
    pub open spec fn has_split(self, id: u64) -> bool {
        1 <= id <= self.splits.len()
    }

    /// The split with the id `id`.
    pub open spec fn split(self, id: u64) -> SplitView
        recommends
            self.has_split(id),
    {
        self.splits[id - 1]
    }

    /// The contract with `split` in place of the split `id`.
    pub open spec fn with_split(self, id: u64, split: SplitView) -> ContractView {
        ContractView { splits: self.splits.update(id - 1, split), ..self }
    }

    /// The contract with `event` added to those that wait to be published.
    pub open spec fn with_event(self, event: EventView) -> ContractView {
        ContractView { events: self.events.push(event), ..self }
    }

    /// The contract with `transfer` added to those that wait to be made.
    pub open spec fn with_transfer(self, transfer: TransferView) -> ContractView {
        ContractView { transfers: self.transfers.push(transfer), ..self }
    }

    /// Whether `user` has a rewards account.
    pub open spec fn has_rewards(self, user: Seq<char>) -> bool {
        exists|i: int| 0 <= i < self.rewards.len() && (#[trigger] self.rewards[i]).user == user
    }

    /// Where the rewards account of `user` stands.
    pub open spec fn rewards_index(self, user: Seq<char>) -> int
        recommends
            self.has_rewards(user),
    {
        choose|i: int| 0 <= i < self.rewards.len() && (#[trigger] self.rewards[i]).user == user
    }

    /// The rewards account of `user`; that of a user who has done nothing, as of
    /// `now`, where the user has none yet.
    pub open spec fn rewards_of(self, user: Seq<char>, now: u64) -> UserRewardsView {
        if self.has_rewards(user) {
            self.rewards[self.rewards_index(user)]
        } else {
            UserRewardsView::fresh(user, now)
        }
    }

    /// The contract with `account` as the rewards account of its user.
    pub open spec fn with_rewards(self, account: UserRewardsView) -> ContractView {
        if self.has_rewards(account.user) {
            ContractView {
                rewards: self.rewards.update(self.rewards_index(account.user), account),
                ..self
            }
        } else {
            ContractView { rewards: self.rewards.push(account), ..self }
        }
    }

    /// Whether a verification request has the id `id`.
    pub open spec fn has_verification(self, id: u64) -> bool {
        1 <= id <= self.verifications.len()
    }

    /// The verification request with the id `id`.
    pub open spec fn verification(self, id: u64) -> VerificationRequestView
        recommends
            self.has_verification(id),
    {
        self.verifications[id - 1]
    }

    /// Whether `who` may decide verification requests.
    pub open spec fn is_oracle(self, who: Seq<char>) -> bool {
        match self.oracles {
            Some(oracles) => oracles.contains(who),
            None => false,
        }
    }

    // ---- initialization ------------------------------------------------

    /// Why the contract cannot be initialized, if that is so: it is done once.
    pub open spec fn initialize_error(self) -> Option<Error> {
        if self.admin is Some {
            Some(Error::AlreadyInitialized)
        } else {
            None
        }
    }

    /// The contract after it was initialized.
    pub open spec fn after_initialize(self, admin: Seq<char>, token: Seq<char>) -> ContractView {
        ContractView { admin: Some(admin), token: Some(token), ..self }.with_event(
            EventView::Initialized { admin },
        )
    }

    // ---- splits --------------------------------------------------------

    /// Why no split can be created of these participants, if that is so.
    pub open spec fn create_split_error(
        self,
        total: int,
        addresses: Seq<Seq<char>>,
        shares: Seq<int>,
    ) -> Option<Error> {
        if creation_error(addresses, shares, total) is Some {
            creation_error(addresses, shares, total)
        } else if self.splits.len() >= u64::MAX {
            Some(Error::Overflow)
        } else {
            None
        }
    }

    /// The id that the next split gets.
    pub open spec fn next_split_id(self) -> u64 {
        (self.splits.len() + 1) as u64
    }

    /// The contract after the split was created at time `now`.
    pub open spec fn after_create_split(
        self,
        creator: Seq<char>,
        description: Seq<char>,
        total: int,
        addresses: Seq<Seq<char>>,
        shares: Seq<int>,
        now: u64,
    ) -> ContractView {
        let id = self.next_split_id();
        ContractView {
            splits: self.splits.push(
                SplitView::created(id, creator, description, total, addresses, shares, now),
            ),
            ..self
        }.with_event(EventView::SplitCreated { split_id: id, creator, total_amount: total })
    }

    /// Why the deposit is refused, if it is.
    pub open spec fn deposit_error(self, id: u64, who: Seq<char>, amount: int) -> Option<Error> {
        if !self.has_split(id) {
            Some(Error::SplitNotFound)
        } else {
            self.split(id).deposit_error(who, amount)
        }
    }

    /// The contract with a full release of `split`, which pays out `paid_out` at
    /// time `now`, asked for and announced.
    pub open spec fn with_release(self, split: SplitView, paid_out: int, now: u64) -> ContractView {
        self.with_transfer(TransferView::PayOut { to: split.creator, amount: paid_out }).with_event(
            EventView::EscrowCompleted { split_id: split.id, total_amount: split.total_amount },
        ).with_event(
            EventView::FundsReleased {
                split_id: split.id,
                recipient: split.creator,
                amount: paid_out,
                timestamp: now,
            },
        )
    }

    /// The contract after the deposit was accepted at time `now`: the deposit is
    /// booked, collected and announced, and where it funds the split in full,
    /// the release follows at once.
    pub open spec fn after_deposit(
        self,
        id: u64,
        who: Seq<char>,
        amount: int,
        now: u64,
    ) -> ContractView {
        let split = self.split(id);
        let booked = split.with_deposit(who, amount);
        let taken = self.with_split(id, split.after_deposit(who, amount)).with_transfer(
            TransferView::Collect { from: who, amount },
        ).with_event(EventView::DepositReceived { split_id: id, participant: who, amount });
        if booked.is_fully_funded() {
            taken.with_release(booked, booked.available(), now)
        } else {
            taken
        }
    }

    /// Why the full release is refused, if it is.
    pub open spec fn release_funds_error(self, id: u64) -> Option<Error> {
        if !self.has_split(id) {
            Some(Error::SplitNotFound)
        } else {
            self.split(id).release_error()
        }
    }

    /// The contract after the full release at time `now`.
    pub open spec fn after_release_funds(self, id: u64, now: u64) -> ContractView {
        let split = self.split(id);
        self.with_split(id, split.after_release()).with_release(split, split.available(), now)
    }

    /// Why the partial release is refused, if it is.
    pub open spec fn release_partial_error(self, id: u64) -> Option<Error> {
        if !self.has_split(id) {
            Some(Error::SplitNotFound)
        } else {
            self.split(id).release_partial_error()
        }
    }

    /// The contract after the partial release at time `now`.
    pub open spec fn after_release_partial(self, id: u64, now: u64) -> ContractView {
        let split = self.split(id);
        self.with_split(id, split.after_release_partial()).with_transfer(
            TransferView::PayOut { to: split.creator, amount: split.available() },
        ).with_event(
            EventView::FundsReleased {
                split_id: id,
                recipient: split.creator,
                amount: split.available(),
                timestamp: now,
            },
        )
    }

    /// Why `caller` may not cancel the split, if that is so.
    pub open spec fn cancel_split_error(self, id: u64, caller: Seq<char>) -> Option<Error> {
        if !self.has_split(id) {
            Some(Error::SplitNotFound)
        } else {
            self.split(id).cancel_error(caller)
        }
    }

    /// The contract after the split was cancelled.
    pub open spec fn after_cancel_split(self, id: u64) -> ContractView {
        self.with_split(id, self.split(id).after_cancel()).with_event(
            EventView::SplitCancelled { split_id: id },
        )
    }

    /// Why `op` on the split `id` is refused, if it is.
    pub open spec fn split_op_error(self, id: u64, op: SplitOp) -> Option<Error> {
        match op {
            SplitOp::Deposit { who, amount } => self.deposit_error(id, who, amount),
            SplitOp::Release => self.release_funds_error(id),
            SplitOp::ReleasePartial => self.release_partial_error(id),
            SplitOp::Cancel { caller } => self.cancel_split_error(id, caller),
        }
    }

    /// The contract after `op` was asked of the split `id` at time `now`:
    /// changed as `op` says where it is accepted, untouched where it is refused.
    pub open spec fn after_split_op(self, id: u64, op: SplitOp, now: u64) -> ContractView {
        if self.split_op_error(id, op) is Some {
            self
        } else {
            match op {
                SplitOp::Deposit { who, amount } => self.after_deposit(id, who, amount, now),
                SplitOp::Release => self.after_release_funds(id, now),
                SplitOp::ReleasePartial => self.after_release_partial(id, now),
                SplitOp::Cancel { caller } => self.after_cancel_split(id),
            }
        }
    }

    // ---- rewards -------------------------------------------------------

    /// Why the participation of `user` cannot be counted, if that is so.
    pub open spec fn track_split_usage_error(self, user: Seq<char>, now: u64) -> Option<Error> {
        self.rewards_of(user, now).participation_error()
    }

    /// The contract after one more participation of `user` was counted and
    /// logged at time `now`.
    pub open spec fn after_track_split_usage(self, user: Seq<char>, now: u64) -> ContractView {
        let counted = self.with_rewards(self.rewards_of(user, now).after_participation(now));
        ContractView {
            activities: self.activities.push(
                UserActivityView {
                    user,
                    activity_type: ActivityType::SplitParticipated,
                    split_id: 0,
                    amount: 0,
                    timestamp: now,
                },
            ),
            ..counted
        }.with_event(
            EventView::ActivityTracked {
                user,
                activity_type: "split_participated"@,
                split_id: 0,
                amount: 0,
            },
        )
    }

    /// The contract after the rewards of `user` were worked out at time `now`.
    pub open spec fn after_calculate_rewards(self, user: Seq<char>, now: u64) -> ContractView {
        let account = self.rewards_of(user, now).after_calculation();
        self.with_rewards(account).with_event(
            EventView::RewardsCalculated {
                user,
                total_rewards: account.rewards_earned,
                available_rewards: account.available(),
            },
        )
    }

    /// Why `caller` cannot claim the rewards of `user`, if that is so.
    pub open spec fn claim_rewards_error(self, caller: Seq<char>, user: Seq<char>) -> Option<
        Error,
    > {
        if caller != user || !self.has_rewards(user) {
            Some(Error::UserNotFound)
        } else {
            self.rewards[self.rewards_index(user)].claim_error()
        }
    }

    /// The contract after `user` claimed everything available at time `now`.
    pub open spec fn after_claim_rewards(self, user: Seq<char>, now: u64) -> ContractView {
        let account = self.rewards[self.rewards_index(user)];
        self.with_rewards(account.after_claim(now)).with_event(
            EventView::RewardsClaimed { user, amount_claimed: account.available() },
        )
    }

    // ---- verification --------------------------------------------------

    /// Why no evidence can be submitted for the split named `text`, if that is so.
    pub open spec fn submit_verification_error(self, text: Seq<char>) -> Option<Error> {
        if !(split_id_of(text) matches Some(id) && self.has_split(id)) {
            Some(Error::SplitNotFound)
        } else if has_pending_for(self.verifications, text) {
            Some(Error::VerificationAlreadyExists)
        } else if self.verifications.len() >= u64::MAX {
            Some(Error::Overflow)
        } else {
            None
        }
    }

    /// The id that the next verification request gets.
    pub open spec fn next_verification_id(self) -> u64 {
        (self.verifications.len() + 1) as u64
    }

    /// The contract after `requester` submitted evidence at time `now`.
    pub open spec fn after_submit_verification(
        self,
        requester: Seq<char>,
        text: Seq<char>,
        receipt_hash: Seq<char>,
        now: u64,
    ) -> ContractView {
        let id = self.next_verification_id();
        ContractView {
            verifications: self.verifications.push(
                VerificationRequestView::submitted(id, text, requester, receipt_hash, now),
            ),
            ..self
        }.with_event(
            EventView::VerificationSubmitted { verification_id: id, split_id: text, requester },
        )
    }

    /// Why `caller` cannot decide the request, if that is so.
    pub open spec fn verify_split_error(self, caller: Seq<char>, id: u64) -> Option<Error> {
        if !self.has_verification(id) {
            Some(Error::VerificationNotFound)
        } else if !self.is_oracle(caller) {
            Some(Error::OracleNotAuthorized)
        } else {
            self.verification(id).decision_error()
        }
    }

    /// The contract after `caller` decided the request at time `now`.
    pub open spec fn after_verify_split(
        self,
        caller: Seq<char>,
        id: u64,
        verified: bool,
        now: u64,
    ) -> ContractView {
        ContractView {
            verifications: self.verifications.update(
                id - 1,
                self.verification(id).after_decision(caller, verified, now),
            ),
            ..self
        }.with_event(
            EventView::VerificationCompleted { verification_id: id, verified, verifier: caller },
        )
    }

    /// Why `caller` cannot decide the request that `text` names, if that is so.
    pub open spec fn verify_split_by_text_error(self, caller: Seq<char>, text: Seq<char>) -> Option<
        Error,
    > {
        match verification_id_of(text) {
            Some(id) => self.verify_split_error(caller, id),
            None => Some(Error::VerificationNotFound),
        }
    }

    /// The verification status of the split named `text`.
    pub open spec fn verification_status(self, text: Seq<char>) -> VerificationStatus {
        status_of(latest_decision(self.verifications, text))
    }
}

/// The escrow contract: splits, rewards accounts and verification requests,
/// with the events and transfers that its operations ask for.
///
/// Every operation either is accepted and changes the contract as its contract
/// says, or is refused with an [`Error`] and changes nothing. What an operation
/// wants published or moved is added to [`SplitEscrowContract::events`] and
/// [`SplitEscrowContract::transfers`].
#[derive(Debug)]
pub struct SplitEscrowContract {
    admin: Option<Address>,
    token: Option<Address>,
    splits: Vec<Split>,
    rewards: Vec<UserRewards>,
    activities: Vec<UserActivity>,
    verifications: Vec<VerificationRequest>,
    oracle_config: Option<OracleConfig>,
    events: Vec<Event>,
    transfers: Vec<Transfer>,
}

impl View for SplitEscrowContract {
    type V = ContractView;

    closed spec fn view(&self) -> ContractView {
        ContractView {
            admin: optional_address_view(self.admin),
            token: optional_address_view(self.token),
            splits: split_views(self.splits@),
            rewards: rewards_views(self.rewards@),
            activities: activity_views(self.activities@),
            verifications: request_views(self.verifications@),
            oracles: optional_oracles_view(self.oracle_config),
            events: event_views(self.events@),
            transfers: transfer_views(self.transfers@),
        }
    }
}

/// Puts `transfer` at the end of `log`.
pub fn record_transfer(log: &mut Vec<Transfer>, transfer: Transfer)
    ensures
        transfer_views(final(log)@) == transfer_views(old(log)@).push(transfer@),
{
    log.push(transfer);
}

impl SplitEscrowContract {
    /// A contract in which nothing has happened yet.
    pub fn new() -> (c: SplitEscrowContract)
        ensures
            c@ == ContractView::empty(),
            c@.wf(),
    {
        let c = SplitEscrowContract {
            admin: None,
            token: None,
            splits: Vec::new(),
            rewards: Vec::new(),
            activities: Vec::new(),
            verifications: Vec::new(),
            oracle_config: None,
            events: Vec::new(),
            transfers: Vec::new(),
        };
        assert(c@.splits =~= Seq::empty());
        assert(c@.rewards =~= Seq::empty());
        assert(c@.activities =~= Seq::empty());
        assert(c@.verifications =~= Seq::empty());
        assert(c@.events =~= Seq::empty());
        assert(c@.transfers =~= Seq::empty());
        c
    }

    /// Names the administrator and the token. This is done once.
    pub fn initialize(&mut self, admin: Address, token: Address) -> (r: Result<(), Error>)
        requires
            old(self)@.wf(),
        ensures
            final(self)@.wf(),
            match r {
                Ok(_) => {
                    &&& old(self)@.initialize_error() is None
                    &&& final(self)@ == old(self)@.after_initialize(admin@, token@)
                },
                Err(e) => {
                    &&& old(self)@.initialize_error() == Some(e)
                    &&& final(self)@ == old(self)@
                },
            },
    {
        if self.admin.is_some() {
            return Err(Error::AlreadyInitialized);
        }
        emit_initialized(&mut self.events, &admin);
        self.admin = Some(admin);
        self.token = Some(token);
        Ok(())
    }

    /// The administrator of the contract.
    pub fn get_admin(&self) -> (r: Result<Address, Error>)
        ensures
            match r {
                Ok(admin) => self@.admin == Some(admin@),
                Err(e) => self@.admin is None && e == Error::NotInitialized,
            },
    {
        match &self.admin {
            Some(admin) => Ok(admin.clone()),
            None => Err(Error::NotInitialized),
        }
    }

    /// The token in which splits are paid.
    pub fn get_token(&self) -> (r: Result<Address, Error>)
        ensures
            match r {
                Ok(token) => self@.token == Some(token@),
                Err(e) => self@.token is None && e == Error::NotInitialized,
            },
    {
        match &self.token {
            Some(token) => Ok(token.clone()),
            None => Err(Error::NotInitialized),
        }
    }

    /// The events that wait to be published, oldest first.
    pub fn events(&self) -> (r: &Vec<Event>)
        ensures
            event_views(r@) == self@.events,
    {
        &self.events
    }

    /// The transfers that wait to be made, oldest first.
    pub fn transfers(&self) -> (r: &Vec<Transfer>)
        ensures
            transfer_views(r@) == self@.transfers,
    {
        &self.transfers
    }

    /// Hands out the events that wait to be published and forgets them.
    pub fn take_events(&mut self) -> (r: Vec<Event>)
        ensures
            event_views(r@) == old(self)@.events,
            final(self)@ == (ContractView { events: Seq::empty(), ..old(self)@ }),
    {
        let mut taken: Vec<Event> = Vec::new();
        std::mem::swap(&mut self.events, &mut taken);
        assert(event_views(self.events@) =~= Seq::empty());
        taken
    }

    /// Hands out the transfers that wait to be made and forgets them.
    pub fn take_transfers(&mut self) -> (r: Vec<Transfer>)
        ensures
            transfer_views(r@) == old(self)@.transfers,
            final(self)@ == (ContractView { transfers: Seq::empty(), ..old(self)@ }),
    {
        let mut taken: Vec<Transfer> = Vec::new();
        std::mem::swap(&mut self.transfers, &mut taken);
        assert(transfer_views(self.transfers@) =~= Seq::empty());
        taken
    }

    /// Where the split `split_id` stands, if there is one.
    fn find_split(&self, split_id: u64) -> (r: Option<usize>)
        ensures
            match r {
                Some(i) => self@.has_split(split_id) && i == split_id - 1 && i
                    < self.splits.len(),
                None => !self@.has_split(split_id),
            },
    {
        if split_id >= 1 && split_id - 1 < self.splits.len() as u64 {
            Some((split_id - 1) as usize)
        } else {
            None
        }
    }

    /// Creates a split of `total_amount` between the given participants, at time
    /// `now`, and returns its id. Ids count up from 1.
    ///
    /// There must be as many shares as addresses, and at least one; no share
    /// may be negative, and the shares must add up to `total_amount`.
    pub fn create_split(
        &mut self,
        creator: Address,
        description: String,
        total_amount: i128,
        participant_addresses: Vec<Address>,
        participant_shares: Vec<i128>,
        now: u64,
    ) -> (r: Result<u64, Error>)
        requires
            old(self)@.wf(),
        ensures
            final(self)@.wf(),
            match r {
                Ok(id) => {
                    &&& old(self)@.create_split_error(
                        total_amount as int,
                        address_views(participant_addresses@),
                        amounts_of(participant_shares@),
                    ) is None
                    &&& id == old(self)@.next_split_id()
                    &&& final(self)@ == old(self)@.after_create_split(
                        creator@,
                        description@,
                        total_amount as int,
                        address_views(participant_addresses@),
                        amounts_of(participant_shares@),
                        now,
                    )
                },
                Err(e) => {
                    &&& old(self)@.create_split_error(
                        total_amount as int,
                        address_views(participant_addresses@),
                        amounts_of(participant_shares@),
                    ) == Some(e)
                    &&& final(self)@ == old(self)@
                },
            },
    {
        // The participants are looked at before the id: where both are at fault,
        // the participants are reported. Without an id left, 0 stands in.
        let count = self.splits.len() as u64;
        let id = if count < u64::MAX {
            count + 1
        } else {
            0
        };
        let announced = creator.clone();
        let split = match Split::new(
            id,
            creator,
            description,
            total_amount,
            &participant_addresses,
            &participant_shares,
            now,
        ) {
            Ok(split) => split,
            Err(e) => {
                return Err(e);
            },
        };
        if id == 0 {
            return Err(Error::Overflow);
        }
        let ghost before = self.splits@;
        self.splits.push(split);
        assert(split_views(self.splits@) =~= split_views(before).push(split@));
        emit_split_created(&mut self.events, id, &announced, total_amount);
        Ok(id)
    }

    /// The split `split_id`.
    pub fn get_split(&self, split_id: u64) -> (r: Result<&Split, Error>)
        ensures
            match r {
                Ok(split) => self@.has_split(split_id) && split@ == self@.split(split_id),
                Err(e) => !self@.has_split(split_id) && e == Error::SplitNotFound,
            },
    {
        match self.find_split(split_id) {
            Some(i) => Ok(&self.splits[i]),
            None => Err(Error::SplitNotFound),
        }
    }

    /// Whether the split `split_id` has collected as much as it asks for.
    pub fn is_fully_funded(&self, split_id: u64) -> (r: Result<bool, Error>)
        ensures
            match r {
                Ok(funded) => self@.has_split(split_id) && funded == self@.split(
                    split_id,
                ).is_fully_funded(),
                Err(e) => !self@.has_split(split_id) && e == Error::SplitNotFound,
            },
    {
        match self.find_split(split_id) {
            Some(i) => Ok(self.splits[i].is_fully_funded()),
            None => Err(Error::SplitNotFound),
        }
    }

    /// Announces and asks for the full release of the split at place `i`, which
    /// pays out `paid_out` at time `now`.
    fn settle(&mut self, i: usize, booked: Ghost<SplitView>, paid_out: i128, now: u64)
        requires
            i < old(self).splits.len(),
            old(self).splits[i as int]@.id == booked@.id,
            old(self).splits[i as int]@.creator == booked@.creator,
            old(self).splits[i as int]@.total_amount == booked@.total_amount,
        ensures
            final(self)@ == old(self)@.with_release(booked@, paid_out as int, now),
    {
        let split = &self.splits[i];
        let id = split.id;
        let total = split.total_amount;
        let creator = split.creator.clone();
        record_transfer(
            &mut self.transfers,
            Transfer::PayOut { to: creator.clone(), amount: paid_out },
        );
        emit_escrow_completed(&mut self.events, id, total);
        emit_funds_released(&mut self.events, id, &creator, paid_out, now);
    }

    /// Takes a deposit of `amount` from `participant` for the split `split_id`,
    /// at time `now`.
    ///
    /// The amount must be positive, the split pending or active, the participant
    /// one of the split's, and the amount no more than an entry of the
    /// participant still owes. The deposit is collected from the participant,
    /// credited to that entry, and makes the split active. Where it funds the
    /// split in full, everything collected and not released before is paid out
    /// to the creator at once, and the split is released.
    pub fn deposit(&mut self, split_id: u64, participant: Address, amount: i128, now: u64) -> (r:
        Result<(), Error>)
        requires
            old(self)@.wf(),
        ensures
            final(self)@.wf(),
            match r {
                Ok(_) => {
                    &&& old(self)@.deposit_error(split_id, participant@, amount as int) is None
                    &&& final(self)@ == old(self)@.after_deposit(
                        split_id,
                        participant@,
                        amount as int,
                        now,
                    )
                },
                Err(e) => {
                    &&& old(self)@.deposit_error(split_id, participant@, amount as int) == Some(e)
                    &&& final(self)@ == old(self)@
                },
            },
    {
        let i = match self.find_split(split_id) {
            Some(i) => i,
            None => {
                return Err(Error::SplitNotFound);
            },
        };
        let ghost before = self@;
        let ghost split = self.splits[i as int]@;
        let ghost booked = split.with_deposit(participant@, amount as int);
        let paid_out = match self.splits[i].deposit(&participant, amount) {
            Ok(paid_out) => paid_out,
            Err(e) => {
                assert(split_views(self.splits@) =~= before.splits);
                return Err(e);
            },
        };
        assert(split_views(self.splits@) =~= before.splits.update(
            i as int,
            split.after_deposit(participant@, amount as int),
        ));
        record_transfer(
            &mut self.transfers,
            Transfer::Collect { from: participant.clone(), amount },
        );
        emit_deposit_received(&mut self.events, split_id, &participant, amount);
        match paid_out {
            Some(paid_out) => {
                self.settle(i, Ghost(booked), paid_out, now);
            },
            None => {},
        }
        Ok(())
    }

    /// Pays out to the creator of the split `split_id` everything that was
    /// collected and not released before, at time `now`, and settles the split.
    /// A cancelled split and a released split are refused, so that nothing is
    /// ever paid out twice.
    pub fn release_funds(&mut self, split_id: u64, now: u64) -> (r: Result<(), Error>)
        requires
            old(self)@.wf(),
        ensures
            final(self)@.wf(),
            match r {
                Ok(_) => {
                    &&& old(self)@.release_funds_error(split_id) is None
                    &&& final(self)@ == old(self)@.after_release_funds(split_id, now)
                },
                Err(e) => {
                    &&& old(self)@.release_funds_error(split_id) == Some(e)
                    &&& final(self)@ == old(self)@
                },
            },
    {
        let i = match self.find_split(split_id) {
            Some(i) => i,
            None => {
                return Err(Error::SplitNotFound);
            },
        };
        let ghost before = self@;
        let ghost split = self.splits[i as int]@;
        let paid_out = match self.splits[i].release_funds() {
            Ok(paid_out) => paid_out,
            Err(e) => {
                assert(split_views(self.splits@) =~= before.splits);
                return Err(e);
            },
        };
        assert(split_views(self.splits@) =~= before.splits.update(i as int, split.after_release()));
        self.settle(i, Ghost(split), paid_out, now);
        Ok(())
    }

    /// Pays out to the creator of the split `split_id` what was collected so far
    /// and not released before, at time `now`, and returns the amount. The split
    /// stays active. A cancelled, released or fully funded split is refused, and
    /// so is one with nothing to pay out.
    pub fn release_partial(&mut self, split_id: u64, now: u64) -> (r: Result<i128, Error>)
        requires
            old(self)@.wf(),
        ensures
            final(self)@.wf(),
            match r {
                Ok(paid_out) => {
                    &&& old(self)@.release_partial_error(split_id) is None
                    &&& final(self)@ == old(self)@.after_release_partial(split_id, now)
                    &&& paid_out == old(self)@.split(split_id).available()
                },
                Err(e) => {
                    &&& old(self)@.release_partial_error(split_id) == Some(e)
                    &&& final(self)@ == old(self)@
                },
            },
    {
        let i = match self.find_split(split_id) {
            Some(i) => i,
            None => {
                return Err(Error::SplitNotFound);
            },
        };
        let ghost before = self@;
        let ghost split = self.splits[i as int]@;
        let paid_out = match self.splits[i].release_partial() {
            Ok(paid_out) => paid_out,
            Err(e) => {
                assert(split_views(self.splits@) =~= before.splits);
                return Err(e);
            },
        };
        assert(split_views(self.splits@) =~= before.splits.update(
            i as int,
            split.after_release_partial(),
        ));
        let creator = self.splits[i].creator.clone();
        record_transfer(
            &mut self.transfers,
            Transfer::PayOut { to: creator.clone(), amount: paid_out },
        );
        emit_funds_released(&mut self.events, split_id, &creator, paid_out, now);
        Ok(paid_out)
    }

    /// Calls the split `split_id` off on behalf of `caller`. Only the creator
    /// may do so, and not once the split is released. What was collected stays
    /// in custody.
    pub fn cancel_split(&mut self, split_id: u64, caller: &Address) -> (r: Result<(), Error>)
        requires
            old(self)@.wf(),
        ensures
            final(self)@.wf(),
            match r {
                Ok(_) => {
                    &&& old(self)@.cancel_split_error(split_id, caller@) is None
                    &&& final(self)@ == old(self)@.after_cancel_split(split_id)
                },
                Err(e) => {
                    &&& old(self)@.cancel_split_error(split_id, caller@) == Some(e)
                    &&& final(self)@ == old(self)@
                },
            },
    {
        let i = match self.find_split(split_id) {
            Some(i) => i,
            None => {
                return Err(Error::SplitNotFound);
            },
        };
        let ghost before = self@;
        let ghost split = self.splits[i as int]@;
        match self.splits[i].cancel(caller) {
            Ok(_) => {},
            Err(e) => {
                assert(split_views(self.splits@) =~= before.splits);
                return Err(e);
            },
        }
        assert(split_views(self.splits@) =~= before.splits.update(i as int, split.after_cancel()));
        emit_split_cancelled(&mut self.events, split_id);
        Ok(())
    }

    /// Where the rewards account of `user` stands, if the user has one.
    fn find_rewards(&self, user: &Address) -> (r: Option<usize>)
        requires
            self@.wf(),
        ensures
            match r {
                Some(i) => self@.has_rewards(user@) && i == self@.rewards_index(user@) && i
                    < self.rewards.len(),
                None => !self@.has_rewards(user@),
            },
    {
        let n = self.rewards.len();
        let mut i: usize = 0;
        while i < n
            invariant
                0 <= i <= n,
                n == self.rewards.len(),
                self@.wf(),
                forall|j: int| 0 <= j < i ==> (#[trigger] self@.rewards[j]).user != user@,
            decreases n - i,
        {
            assert(self@.rewards[i as int] == self.rewards[i as int]@);
            if self.rewards[i].user.same_as(user) {
                return Some(i);
            }
            i += 1;
        }
        None
    }

    /// Counts one more split that `user` took part in, at time `now`, and logs
    /// the activity. A user without a rewards account gets one.
    pub fn track_split_usage(&mut self, user: Address, now: u64) -> (r: Result<(), Error>)
        requires
            old(self)@.wf(),
        ensures
            final(self)@.wf(),
            match r {
                Ok(_) => {
                    &&& old(self)@.track_split_usage_error(user@, now) is None
                    &&& final(self)@ == old(self)@.after_track_split_usage(user@, now)
                },
                Err(e) => {
                    &&& old(self)@.track_split_usage_error(user@, now) == Some(e)
                    &&& final(self)@ == old(self)@
                },
            },
    {
        let ghost before = self@;
        match self.find_rewards(&user) {
            Some(i) => {
                let ghost account = self.rewards[i as int]@;
                match self.rewards[i].record_participation(now) {
                    Ok(_) => {},
                    Err(e) => {
                        assert(rewards_views(self.rewards@) =~= before.rewards);
                        return Err(e);
                    },
                }
                assert(rewards_views(self.rewards@) =~= before.rewards.update(
                    i as int,
                    account.after_participation(now),
                ));
            },
            None => {
                let mut account = UserRewards::new(user.clone(), now);
                match account.record_participation(now) {
                    Ok(_) => {},
                    Err(e) => {
                        return Err(e);
                    },
                }
                let ghost held = self.rewards@;
                self.rewards.push(account);
                assert(rewards_views(self.rewards@) =~= rewards_views(held).push(account@));
            },
        }
        let ghost logged = self.activities@;
        let activity = UserActivity {
            user: user.clone(),
            activity_type: ActivityType::SplitParticipated,
            split_id: 0,
            amount: 0,
            timestamp: now,
        };
        self.activities.push(activity);
        assert(activity_views(self.activities@) =~= activity_views(logged).push(activity@));
        emit_activity_tracked(
            &mut self.events,
            &user,
            "split_participated",
            0,
            0,
        );
        Ok(())
    }

    /// Works out what `user` has earned, books it and returns it: ten points
    /// for each split created, five for each split taken part in, and one for
    /// each full thousand transacted. A user without a rewards account gets
    /// one, as of `now`.
    pub fn calculate_rewards(&mut self, user: Address, now: u64) -> (r: i128)
        requires
            old(self)@.wf(),
        ensures
            final(self)@.wf(),
            final(self)@ == old(self)@.after_calculate_rewards(user@, now),
            r == old(self)@.rewards_of(user@, now).worth(),
    {
        let ghost before = self@;
        let total: i128;
        let available: i128;
        match self.find_rewards(&user) {
            Some(i) => {
                let ghost account = self.rewards[i as int]@;
                total = self.rewards[i].calculate();
                available = self.rewards[i].available();
                assert(rewards_views(self.rewards@) =~= before.rewards.update(
                    i as int,
                    account.after_calculation(),
                ));
            },
            None => {
                let mut account = UserRewards::new(user.clone(), now);
                total = account.calculate();
                available = account.available();
                let ghost held = self.rewards@;
                self.rewards.push(account);
                assert(rewards_views(self.rewards@) =~= rewards_views(held).push(account@));
            },
        }
        emit_rewards_calculated(&mut self.events, &user, total, available);
        total
    }

    /// Claims for `user` everything that was earned and not claimed before, at
    /// time `now`, and returns it. `caller` must be the user; the user must have
    /// an active rewards account with something to claim.
    pub fn claim_rewards(&mut self, caller: &Address, user: &Address, now: u64) -> (r: Result<
        i128,
        Error,
    >)
        requires
            old(self)@.wf(),
        ensures
            final(self)@.wf(),
            match r {
                Ok(claimed) => {
                    &&& old(self)@.claim_rewards_error(caller@, user@) is None
                    &&& final(self)@ == old(self)@.after_claim_rewards(user@, now)
                    &&& claimed == old(self)@.rewards_of(user@, now).available()
                    &&& claimed > 0
                },
                Err(e) => {
                    &&& old(self)@.claim_rewards_error(caller@, user@) == Some(e)
                    &&& final(self)@ == old(self)@
                },
            },
    {
        if !caller.same_as(user) {
            return Err(Error::UserNotFound);
        }
        let i = match self.find_rewards(user) {
            Some(i) => i,
            None => {
                return Err(Error::UserNotFound);
            },
        };
        let ghost before = self@;
        let ghost account = self.rewards[i as int]@;
        let claimed = match self.rewards[i].claim(now) {
            Ok(claimed) => claimed,
            Err(e) => {
                assert(rewards_views(self.rewards@) =~= before.rewards);
                return Err(e);
            },
        };
        assert(rewards_views(self.rewards@) =~= before.rewards.update(
            i as int,
            account.after_claim(now),
        ));
        emit_rewards_claimed(&mut self.events, user, claimed);
        Ok(claimed)
    }

    /// The rewards account of `user`, if the user has one.
    pub fn get_user_rewards(&self, user: &Address) -> (r: Option<&UserRewards>)
        requires
            self@.wf(),
        ensures
            match r {
                Some(account) => {
                    &&& self@.has_rewards(user@)
                    &&& account@ == self@.rewards[self@.rewards_index(user@)]
                },
                None => !self@.has_rewards(user@),
            },
    {
        match self.find_rewards(user) {
            Some(i) => Some(&self.rewards[i]),
            None => None,
        }
    }

    /// Names the oracles, who may decide verification requests.
    pub fn set_oracle_config(&mut self, config: OracleConfig)
        ensures
            final(self)@ == (ContractView { oracles: Some(config@), ..old(self)@ }),
            old(self)@.wf() ==> final(self)@.wf(),
    {
        self.oracle_config = Some(config);
    }

    /// Submits evidence, on behalf of `caller` and at time `now`, for the split
    /// that `split_id` names, and returns the id of the new request. Ids count
    /// up from 1.
    ///
    /// The digits of `split_id` are read as a decimal number and every other
    /// character is passed over; a split must have that number as its id. While
    /// a request for the same text waits for a decision, no other is taken.
    pub fn submit_verification(
        &mut self,
        caller: Address,
        split_id: String,
        receipt_hash: String,
        now: u64,
    ) -> (r: Result<u64, Error>)
        requires
            old(self)@.wf(),
        ensures
            final(self)@.wf(),
            match r {
                Ok(id) => {
                    &&& old(self)@.submit_verification_error(split_id@) is None
                    &&& id == old(self)@.next_verification_id()
                    &&& final(self)@ == old(self)@.after_submit_verification(
                        caller@,
                        split_id@,
                        receipt_hash@,
                        now,
                    )
                },
                Err(e) => {
                    &&& old(self)@.submit_verification_error(split_id@) == Some(e)
                    &&& final(self)@ == old(self)@
                },
            },
    {
        let named = match parse_split_id(split_id.as_str()) {
            Some(named) => named,
            None => {
                return Err(Error::SplitNotFound);
            },
        };
        if self.find_split(named).is_none() {
            return Err(Error::SplitNotFound);
        }
        if find_pending(&self.verifications, &split_id) {
            return Err(Error::VerificationAlreadyExists);
        }
        let count = self.verifications.len() as u64;
        if count == u64::MAX {
            return Err(Error::Overflow);
        }
        let id = count + 1;
        let ghost held = self.verifications@;
        emit_verification_submitted(&mut self.events, id, split_id.as_str(), &caller);
        let request = VerificationRequest::new(id, split_id, caller, receipt_hash, now);
        self.verifications.push(request);
        assert(request_views(self.verifications@) =~= request_views(held).push(request@));
        Ok(id)
    }

    /// Records the decision of `caller` on the request `verification_id`, at
    /// time `now`: verified or rejected. The request must exist, the caller be
    /// one of the oracles, and the request still wait for its decision. A
    /// rejection carries the one reason that the library knows.
    pub fn verify_split(
        &mut self,
        caller: &Address,
        verification_id: u64,
        verified: bool,
        now: u64,
    ) -> (r: Result<(), Error>)
        requires
            old(self)@.wf(),
        ensures
            final(self)@.wf(),
            match r {
                Ok(_) => {
                    &&& old(self)@.verify_split_error(caller@, verification_id) is None
                    &&& final(self)@ == old(self)@.after_verify_split(
                        caller@,
                        verification_id,
                        verified,
                        now,
                    )
                },
                Err(e) => {
                    &&& old(self)@.verify_split_error(caller@, verification_id) == Some(e)
                    &&& final(self)@ == old(self)@
                },
            },
    {
        if verification_id < 1 || verification_id - 1 >= self.verifications.len() as u64 {
            return Err(Error::VerificationNotFound);
        }
        let i = (verification_id - 1) as usize;
        let allowed = match &self.oracle_config {
            Some(config) => config.is_oracle(caller),
            None => false,
        };
        if !allowed {
            return Err(Error::OracleNotAuthorized);
        }
        let ghost before = self@;
        let ghost request = self.verifications[i as int]@;
        match self.verifications[i].decide(caller, verified, now) {
            Ok(_) => {},
            Err(e) => {
                assert(request_views(self.verifications@) =~= before.verifications);
                return Err(e);
            },
        }
        assert(request_views(self.verifications@) =~= before.verifications.update(
            i as int,
            request.after_decision(caller@, verified, now),
        ));
        emit_verification_completed(&mut self.events, verification_id, verified, caller);
        Ok(())
    }

    /// Records the decision of `caller` on the request whose id `verification_id`
    /// spells as a decimal number, as [`SplitEscrowContract::verify_split`] does.
    /// A text that spells no id names no request.
    pub fn verify_split_by_text(
        &mut self,
        caller: &Address,
        verification_id: &str,
        verified: bool,
        now: u64,
    ) -> (r: Result<(), Error>)
        requires
            old(self)@.wf(),
        ensures
            final(self)@.wf(),
            match r {
                Ok(_) => {
                    &&& old(self)@.verify_split_by_text_error(caller@, verification_id@) is None
                    &&& verification_id_of(verification_id@) matches Some(id)
                    &&& final(self)@ == old(self)@.after_verify_split(caller@, id, verified, now)
                },
                Err(e) => {
                    &&& old(self)@.verify_split_by_text_error(caller@, verification_id@) == Some(e)
                    &&& final(self)@ == old(self)@
                },
            },
    {
        match parse_verification_id(verification_id) {
            Some(id) => self.verify_split(caller, id, verified, now),
            None => Err(Error::VerificationNotFound),
        }
    }

    /// The verification request `verification_id`, if there is one.
    pub fn get_verification_request(&self, verification_id: u64) -> (r: Option<
        &VerificationRequest,
    >)
        ensures
            match r {
                Some(request) => self@.has_verification(verification_id) && request@
                    == self@.verification(verification_id),
                None => !self@.has_verification(verification_id),
            },
    {
        if verification_id >= 1 && verification_id - 1 < self.verifications.len() as u64 {
            Some(&self.verifications[(verification_id - 1) as usize])
        } else {
            None
        }
    }

    /// The verification status of the split that `split_id` names: that of the
    /// request for this text that was decided last, and pending where none was
    /// decided.
    pub fn get_verification_status(&self, split_id: String) -> (r: VerificationStatus)
        ensures
            r == self@.verification_status(split_id@),
    {
        settled_status(&self.verifications, &split_id)
    }

    /// Every split ever created, by id.
    pub fn splits(&self) -> (r: &Vec<Split>)
        ensures
            split_views(r@) == self@.splits,
    {
        &self.splits
    }

    /// The rewards accounts.
    pub fn user_rewards(&self) -> (r: &Vec<UserRewards>)
        ensures
            rewards_views(r@) == self@.rewards,
    {
        &self.rewards
    }

    /// The log of activities, oldest first.
    pub fn activities(&self) -> (r: &Vec<UserActivity>)
        ensures
            activity_views(r@) == self@.activities,
    {
        &self.activities
    }

    /// Every verification request ever submitted, by id.
    pub fn verifications(&self) -> (r: &Vec<VerificationRequest>)
        ensures
            request_views(r@) == self@.verifications,
    {
        &self.verifications
    }

    /// Who may decide verification requests, where anybody was named.
    pub fn oracle_config(&self) -> (r: Option<&OracleConfig>)
        ensures
            match r {
                Some(config) => self@.oracles == Some(config@),
                None => self@.oracles is None,
            },
    {
        self.oracle_config.as_ref()
    }

    /// Puts a contract together from records that were kept elsewhere, with no
    /// event or transfer waiting. The records are taken where they satisfy the
    /// invariant [`ContractView::wf`], and refused with `InvalidState` where
    /// they do not.
    pub fn restore(
        admin: Option<Address>,
        token: Option<Address>,
        splits: Vec<Split>,
        rewards: Vec<UserRewards>,
        activities: Vec<UserActivity>,
        verifications: Vec<VerificationRequest>,
        oracle_config: Option<OracleConfig>,
    ) -> (r: Result<SplitEscrowContract, Error>)
        ensures
            match r {
                Ok(c) => {
                    &&& c@ == restored(
                        admin,
                        token,
                        splits,
                        rewards,
                        activities,
                        verifications,
                        oracle_config,
                    )
                    &&& c@.wf()
                },
                Err(e) => {
                    &&& e == Error::InvalidState
                    &&& !restored(
                        admin,
                        token,
                        splits,
                        rewards,
                        activities,
                        verifications,
                        oracle_config,
                    ).wf()
                },
            },
    {
        if !splits_are_valid(&splits) || !rewards_are_valid(&rewards) || !requests_are_valid(
            &verifications,
        ) {
            return Err(Error::InvalidState);
        }
        let c = SplitEscrowContract {
            admin,
            token,
            splits,
            rewards,
            activities,
            verifications,
            oracle_config,
            events: Vec::new(),
            transfers: Vec::new(),
        };
        assert(c@.events =~= Seq::empty());
        assert(c@.transfers =~= Seq::empty());
        Ok(c)
    }
}

/// The contract that holds the given records and nothing that waits.
pub open spec fn restored(
    admin: Option<Address>,
    token: Option<Address>,
    splits: Vec<Split>,
    rewards: Vec<UserRewards>,
    activities: Vec<UserActivity>,
    verifications: Vec<VerificationRequest>,
    oracle_config: Option<OracleConfig>,
) -> ContractView {
    ContractView {
        admin: optional_address_view(admin),
        token: optional_address_view(token),
        splits: split_views(splits@),
        rewards: rewards_views(rewards@),
        activities: activity_views(activities@),
        verifications: request_views(verifications@),
        oracles: optional_oracles_view(oracle_config),
        events: Seq::empty(),
        transfers: Seq::empty(),
    }
}

/// Every split is well formed and stands where its id says.
pub open spec fn splits_valid(splits: Seq<SplitView>) -> bool {
    forall|i: int| 0 <= i < splits.len() ==> (#[trigger] splits[i]).wf() && splits[i].id == i + 1
}

/// Every account is well formed, and no user has two.
pub open spec fn rewards_valid(rewards: Seq<UserRewardsView>) -> bool {
    &&& forall|i: int| 0 <= i < rewards.len() ==> (#[trigger] rewards[i]).wf()
    &&& forall|i: int, j: int|
        0 <= i < j < rewards.len() ==> (#[trigger] rewards[i]).user != (#[trigger] rewards[j]).user
}

/// Every request stands where its id says, and no two requests for the same
/// split text wait for a decision.
pub open spec fn requests_valid(requests: Seq<VerificationRequestView>) -> bool {
    &&& forall|i: int|
        0 <= i < requests.len() ==> (#[trigger] requests[i]).verification_id == i + 1
    &&& forall|i: int, j: int|
        0 <= i < j < requests.len() && (#[trigger] requests[i]).status
            == VerificationStatus::Pending && (#[trigger] requests[j]).status
            == VerificationStatus::Pending ==> requests[i].split_id != requests[j].split_id
}

/// Whether every split is well formed and stands where its id says.
pub fn splits_are_valid(splits: &Vec<Split>) -> (r: bool)
    ensures
        r == splits_valid(split_views(splits@)),
{
    let ghost views = split_views(splits@);
    let n = splits.len();
    let mut i: usize = 0;
    while i < n
        invariant
            0 <= i <= n,
            n == splits.len(),
            views == split_views(splits@),
            forall|j: int| 0 <= j < i ==> (#[trigger] views[j]).wf() && views[j].id == j + 1,
        decreases n - i,
    {
        let split = &splits[i];
        assert(views[i as int] == split@);
        if !split.is_well_formed() || i as u64 == u64::MAX || split.id != i as u64 + 1 {
            return false;
        }
        i += 1;
    }
    true
}

/// Whether every account is well formed and no user has two.
pub fn rewards_are_valid(rewards: &Vec<UserRewards>) -> (r: bool)
    ensures
        r == rewards_valid(rewards_views(rewards@)),
{
    let ghost views = rewards_views(rewards@);
    let n = rewards.len();
    let mut j: usize = 0;
    while j < n
        invariant
            0 <= j <= n,
            n == rewards.len(),
            views == rewards_views(rewards@),
            forall|k: int| 0 <= k < j ==> (#[trigger] views[k]).wf(),
            forall|a: int, b: int|
                0 <= a < b < j ==> (#[trigger] views[a]).user != (#[trigger] views[b]).user,
        decreases n - j,
    {
        let account = &rewards[j];
        if !account.is_well_formed() {
            return false;
        }
        let mut i: usize = 0;
        while i < j
            invariant
                0 <= i <= j < n,
                n == rewards.len(),
                views == rewards_views(rewards@),
                account@ == views[j as int],
                forall|a: int| 0 <= a < i ==> (#[trigger] views[a]).user != views[j as int].user,
            decreases j - i,
        {
            assert(views[i as int] == rewards[i as int]@);
            if rewards[i].user.same_as(&account.user) {
                return false;
            }
            i += 1;
        }
        j += 1;
    }
    true
}

/// Whether every request stands where its id says and no two requests for the
/// same split text wait for a decision.
pub fn requests_are_valid(requests: &Vec<VerificationRequest>) -> (r: bool)
    ensures
        r == requests_valid(request_views(requests@)),
{
    let ghost views = request_views(requests@);
    let n = requests.len();
    let mut j: usize = 0;
    while j < n
        invariant
            0 <= j <= n,
            n == requests.len(),
            views == request_views(requests@),
            forall|k: int| 0 <= k < j ==> (#[trigger] views[k]).verification_id == k + 1,
            forall|a: int, b: int|
                0 <= a < b < j && (#[trigger] views[a]).status == VerificationStatus::Pending && (
                #[trigger] views[b]).status == VerificationStatus::Pending ==> views[a].split_id
                    != views[b].split_id,
        decreases n - j,
    {
        let request = &requests[j];
        if j as u64 == u64::MAX || request.verification_id != j as u64 + 1 {
            return false;
        }
        let waits = match request.status {
            VerificationStatus::Pending => true,
            _ => false,
        };
        if waits {
            let mut i: usize = 0;
            while i < j
                invariant
                    0 <= i <= j < n,
                    n == requests.len(),
                    views == request_views(requests@),
                    request@ == views[j as int],
                    views[j as int].status == VerificationStatus::Pending,
                    forall|a: int|
                        0 <= a < i && (#[trigger] views[a]).status == VerificationStatus::Pending
                            ==> views[a].split_id != views[j as int].split_id,
                decreases j - i,
            {
                let earlier = &requests[i];
                assert(views[i as int] == earlier@);
                let earlier_waits = match earlier.status {
                    VerificationStatus::Pending => true,
                    _ => false,
                };
                if earlier_waits && earlier.split_id == request.split_id {
                    return false;
                }
                i += 1;
            }
        }
        j += 1;
    }
    true
}

} // verus!
