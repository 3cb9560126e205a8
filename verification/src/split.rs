//! Splits: creation, deposits, releases and cancellation of a single split.

use crate::address::Address;
use crate::error::Error;
use vstd::prelude::*;

verus! {

/// Where a split stands in its life.
#[derive(Debug, Clone, Copy, PartialEq, Eq, Structural)]
pub enum SplitStatus {
    /// Created; nothing has been deposited yet.
    Pending,
    /// At least one deposit was taken; the split is not settled.
    Active,
    /// Everything collected went to the creator. Final.
    Released,
    /// Called off by the creator. Final.
    Cancelled,
}

impl SplitStatus {
    /// Released and cancelled splits are never touched again.
    pub open spec fn is_final(self) -> bool {
        self == SplitStatus::Released || self == SplitStatus::Cancelled
    }
}

/// One party of a split and what it owes and has paid.
#[derive(Debug)]
pub struct Participant {
    pub address: Address,
    pub share_amount: i128,
    pub amount_paid: i128,
    pub has_paid: bool,
}

/// A participant as a mathematical value.
pub struct ParticipantView {
    pub address: Seq<char>,
    pub share_amount: int,
    pub amount_paid: int,
    pub has_paid: bool,
}

impl View for Participant {
    type V = ParticipantView;

    open spec fn view(&self) -> ParticipantView {
        ParticipantView {
            address: self.address@,
            share_amount: self.share_amount as int,
            amount_paid: self.amount_paid as int,
            has_paid: self.has_paid,
        }
    }
}

impl ParticipantView {
    /// What the participant still owes.
    pub open spec fn remaining(self) -> int {
        self.share_amount - self.amount_paid
    }

    /// The participant after paying `amount` more.
    pub open spec fn credit(self, amount: int) -> ParticipantView {
        ParticipantView {
            amount_paid: self.amount_paid + amount,
            has_paid: self.amount_paid + amount >= self.share_amount,
            ..self
        }
    }

    /// The record is consistent: nothing negative was paid, no more was paid
    /// than the share, and `has_paid` says whether the share is covered.
    pub open spec fn wf(self) -> bool {
        &&& 0 <= self.amount_paid <= self.share_amount <= i128::MAX
        &&& self.has_paid == (self.amount_paid >= self.share_amount)
    }

    /// Whether this is an entry of `who` that still owes at least `amount`.
    pub open spec fn owes(self, who: Seq<char>, amount: int) -> bool {
        self.address == who && amount <= self.remaining()
    }
}

/// The views of a list of participants, in order.
pub open spec fn participant_views(ps: Seq<Participant>) -> Seq<ParticipantView> {
    ps.map_values(|p: Participant| p@)
}

/// The sum of the given amounts.
pub open spec fn sum_of(amounts: Seq<int>) -> int
    decreases amounts.len(),
{
    if amounts.len() == 0 {
        0
    } else {
        sum_of(amounts.drop_last()) + amounts.last()
    }
}

/// The shares of the participants, in order.
pub open spec fn shares_of(ps: Seq<ParticipantView>) -> Seq<int> {
    ps.map_values(|p: ParticipantView| p.share_amount)
}

/// What each participant has paid, in order.
pub open spec fn payments_of(ps: Seq<ParticipantView>) -> Seq<int> {
    ps.map_values(|p: ParticipantView| p.amount_paid)
}

/// Whether `who` is among the participants.
pub open spec fn is_registered(ps: Seq<ParticipantView>, who: Seq<char>) -> bool {
    exists|i: int| 0 <= i < ps.len() && (#[trigger] ps[i]).address == who
}

/// Whether `amount` is more than any entry of `who` still owes.
pub open spec fn overpays(ps: Seq<ParticipantView>, who: Seq<char>, amount: int) -> bool {
    forall|i: int| 0 <= i < ps.len() ==> !(#[trigger] ps[i]).owes(who, amount)
}

/// Whether the entry at place `i` takes a payment of `amount` by `who`: it is
/// the first entry of `who` that still owes as much.
pub open spec fn takes_payment(
    ps: Seq<ParticipantView>,
    who: Seq<char>,
    amount: int,
    i: int,
) -> bool {
    &&& 0 <= i < ps.len()
    &&& ps[i].owes(who, amount)
    &&& forall|j: int| 0 <= j < i ==> !(#[trigger] ps[j]).owes(who, amount)
}

/// The place of the entry that takes a payment of `amount` by `who`.
pub open spec fn paying_entry(ps: Seq<ParticipantView>, who: Seq<char>, amount: int) -> int {
    choose|i: int| takes_payment(ps, who, amount, i)
}

/// The participants after `who` paid `amount`: one entry is credited, the
/// first of `who` that still owed as much; the others stay as they are.
pub open spec fn credited(ps: Seq<ParticipantView>, who: Seq<char>, amount: int) -> Seq<
    ParticipantView,
> {
    let i = paying_entry(ps, who, amount);
    ps.update(i, ps[i].credit(amount))
}

/// A bill shared between participants, with what was collected and released.
#[derive(Debug)]
pub struct Split {
    pub id: u64,
    pub creator: Address,
    pub description: String,
    pub total_amount: i128,
    pub amount_collected: i128,
    pub amount_released: i128,
    pub participants: Vec<Participant>,
    pub status: SplitStatus,
    pub created_at: u64,
}

/// A split as a mathematical value.
pub struct SplitView {
    pub id: u64,
    pub creator: Seq<char>,
    pub description: Seq<char>,
    pub total_amount: int,
    pub amount_collected: int,
    pub amount_released: int,
    pub participants: Seq<ParticipantView>,
    pub status: SplitStatus,
    pub created_at: u64,
}

impl View for Split {
    type V = SplitView;

    open spec fn view(&self) -> SplitView {
        SplitView {
            id: self.id,
            creator: self.creator@,
            description: self.description@,
            total_amount: self.total_amount as int,
            amount_collected: self.amount_collected as int,
            amount_released: self.amount_released as int,
            participants: participant_views(self.participants@),
            status: self.status,
            created_at: self.created_at,
        }
    }
}

/// Something that can be asked of a split.
pub enum SplitOp {
    /// `who` pays `amount` towards its share.
    Deposit { who: Seq<char>, amount: int },
    /// Pay out everything that is left and settle the split.
    Release,
    /// Pay out what was collected so far, before the split is fully funded.
    ReleasePartial,
    /// `caller` calls the split off.
    Cancel { caller: Seq<char> },
}

impl SplitView {
    /// The invariant of every split that the library makes or changes: the
    /// shares add up to the total, nobody has paid more than the share, what was
    /// collected is what the participants have paid, and no more was released
    /// than collected, nor more collected than the total.
    pub open spec fn wf(self) -> bool {
        &&& self.participants.len() >= 1
        &&& forall|i: int|
            0 <= i < self.participants.len() ==> (#[trigger] self.participants[i]).wf()
        &&& sum_of(shares_of(self.participants)) == self.total_amount
        &&& sum_of(payments_of(self.participants)) == self.amount_collected
        &&& 0 <= self.amount_released <= self.amount_collected <= self.total_amount <= i128::MAX
        &&& self.status == SplitStatus::Pending ==> self.amount_collected == 0
        &&& self.status == SplitStatus::Active ==> self.amount_collected < self.total_amount
        &&& self.status == SplitStatus::Released ==> self.amount_released == self.amount_collected
    }

    /// Whether as much was collected as the split asks for.
    pub open spec fn is_fully_funded(self) -> bool {
        self.amount_collected >= self.total_amount
    }

    /// What is collected and not yet released.
    pub open spec fn available(self) -> int {
        self.amount_collected - self.amount_released
    }

    /// Why a deposit of `amount` by `who` is refused, if it is.
    pub open spec fn deposit_error(self, who: Seq<char>, amount: int) -> Option<Error> {
        if amount <= 0 {
            Some(Error::InvalidAmount)
        } else if self.status.is_final() {
            Some(Error::SplitNotAcceptingDeposits)
        } else if !is_registered(self.participants, who) {
            Some(Error::ParticipantNotFound)
        } else if overpays(self.participants, who, amount) {
            Some(Error::DepositExceedsShare)
        } else {
            None
        }
    }

    /// The split with the deposit booked, before funding is looked at.
    pub open spec fn with_deposit(self, who: Seq<char>, amount: int) -> SplitView {
        SplitView {
            participants: credited(self.participants, who, amount),
            amount_collected: self.amount_collected + amount,
            status: SplitStatus::Active,
            ..self
        }
    }

    /// The split after an accepted deposit: the deposit is booked, and a split
    /// that is fully funded by it is released at once.
    pub open spec fn after_deposit(self, who: Seq<char>, amount: int) -> SplitView {
        let booked = self.with_deposit(who, amount);
        if booked.is_fully_funded() {
            booked.after_release()
        } else {
            booked
        }
    }

    /// Why a full release is refused, if it is.
    pub open spec fn release_error(self) -> Option<Error> {
        if self.status == SplitStatus::Cancelled {
            Some(Error::SplitCancelled)
        } else if self.status == SplitStatus::Released {
            Some(Error::SplitReleased)
        } else {
            None
        }
    }

    /// The split after a full release.
    pub open spec fn after_release(self) -> SplitView {
        SplitView { amount_released: self.amount_collected, status: SplitStatus::Released, ..self }
    }

    /// Why a partial release is refused, if it is.
    pub open spec fn release_partial_error(self) -> Option<Error> {
        if self.status == SplitStatus::Cancelled {
            Some(Error::SplitCancelled)
        } else if self.status == SplitStatus::Released {
            Some(Error::SplitReleased)
        } else if self.is_fully_funded() {
            Some(Error::SplitFullyFunded)
        } else if self.available() <= 0 {
            Some(Error::NoFundsAvailable)
        } else {
            None
        }
    }

    /// The split after a partial release.
    pub open spec fn after_release_partial(self) -> SplitView {
        SplitView { amount_released: self.amount_collected, ..self }
    }

    /// Why `caller` may not cancel the split, if that is so.
    pub open spec fn cancel_error(self, caller: Seq<char>) -> Option<Error> {
        if caller != self.creator {
            Some(Error::Unauthorized)
        } else if self.status == SplitStatus::Released {
            Some(Error::SplitAlreadyReleased)
        } else {
            None
        }
    }

    /// The split after it was cancelled.
    pub open spec fn after_cancel(self) -> SplitView {
        SplitView { status: SplitStatus::Cancelled, ..self }
    }

    /// Why `op` is refused, if it is.
    pub open spec fn op_error(self, op: SplitOp) -> Option<Error> {
        match op {
            SplitOp::Deposit { who, amount } => self.deposit_error(who, amount),
            SplitOp::Release => self.release_error(),
            SplitOp::ReleasePartial => self.release_partial_error(),
            SplitOp::Cancel { caller } => self.cancel_error(caller),
        }
    }

    /// The split after `op` was asked of it: changed as `op` says where it is
    /// accepted, untouched where it is refused.
    pub open spec fn apply(self, op: SplitOp) -> SplitView {
        if self.op_error(op) is Some {
            self
        } else {
            match op {
                SplitOp::Deposit { who, amount } => self.after_deposit(who, amount),
                SplitOp::Release => self.after_release(),
                SplitOp::ReleasePartial => self.after_release_partial(),
                SplitOp::Cancel { caller } => self.after_cancel(),
            }
        }
    }

    /// The split after the given operations were asked of it, one after another.
    pub open spec fn apply_all(self, ops: Seq<SplitOp>) -> SplitView
        decreases ops.len(),
    {
        if ops.len() == 0 {
            self
        } else {
            self.apply_all(ops.drop_last()).apply(ops.last())
        }
    }
}

/// The amounts as mathematical integers, in order.
pub open spec fn amounts_of(amounts: Seq<i128>) -> Seq<int> {
    amounts.map_values(|a: i128| a as int)
}

/// The views of a list of addresses, in order.
pub open spec fn address_views(addresses: Seq<Address>) -> Seq<Seq<char>> {
    addresses.map_values(|a: Address| a@)
}

/// None of the amounts is negative.
pub open spec fn none_negative(amounts: Seq<int>) -> bool {
    forall|i: int| 0 <= i < amounts.len() ==> 0 <= #[trigger] amounts[i]
}

/// The participants of a new split: nobody has paid anything.
pub open spec fn fresh_participants(addresses: Seq<Seq<char>>, shares: Seq<int>) -> Seq<
    ParticipantView,
> {
    Seq::new(
        addresses.len(),
        |i: int|
            ParticipantView {
                address: addresses[i],
                share_amount: shares[i],
                amount_paid: 0,
                has_paid: 0 >= shares[i],
            },
    )
}

/// Why no split can be made of these participants, if that is so.
pub open spec fn creation_error(addresses: Seq<Seq<char>>, shares: Seq<int>, total: int) -> Option<
    Error,
> {
    if addresses.len() != shares.len() {
        Some(Error::ParticipantCountMismatch)
    } else if addresses.len() == 0 {
        Some(Error::NoParticipants)
    } else if !none_negative(shares) || sum_of(shares) != total {
        Some(Error::InvalidShares)
    } else {
        None
    }
}

impl SplitView {
    /// The new split of the given participants.
    pub open spec fn created(
        id: u64,
        creator: Seq<char>,
        description: Seq<char>,
        total: int,
        addresses: Seq<Seq<char>>,
        shares: Seq<int>,
        created_at: u64,
    ) -> SplitView {
        SplitView {
            id,
            creator,
            description,
            total_amount: total,
            amount_collected: 0,
            amount_released: 0,
            participants: fresh_participants(addresses, shares),
            status: SplitStatus::Pending,
            created_at,
        }
    }
}

/// Putting `v` in place of one amount changes the sum by the difference.
pub proof fn lemma_sum_of_update(amounts: Seq<int>, i: int, v: int)
    requires
        0 <= i < amounts.len(),
    ensures
        sum_of(amounts.update(i, v)) == sum_of(amounts) - amounts[i] + v,
    decreases amounts.len(),
{
    let changed = amounts.update(i, v);
    if i == amounts.len() - 1 {
        assert(changed.drop_last() =~= amounts.drop_last());
    } else {
        lemma_sum_of_update(amounts.drop_last(), i, v);
        assert(changed.drop_last() =~= amounts.drop_last().update(i, v));
    }
}

/// Amounts that are no larger one by one have no larger a sum.
pub proof fn lemma_sum_of_is_monotone(smaller: Seq<int>, larger: Seq<int>)
    requires
        smaller.len() == larger.len(),
        forall|i: int| 0 <= i < smaller.len() ==> smaller[i] <= larger[i],
    ensures
        sum_of(smaller) <= sum_of(larger),
    decreases smaller.len(),
{
    if smaller.len() > 0 {
        lemma_sum_of_is_monotone(smaller.drop_last(), larger.drop_last());
    }
}

/// Amounts that are all zero add up to zero.
pub proof fn lemma_sum_of_zeros(amounts: Seq<int>)
    requires
        forall|i: int| 0 <= i < amounts.len() ==> amounts[i] == 0,
    ensures
        sum_of(amounts) == 0,
    decreases amounts.len(),
{
    if amounts.len() > 0 {
        lemma_sum_of_zeros(amounts.drop_last());
    }
}

/// Of amounts that are not negative, the first few add up to no more than all.
pub proof fn lemma_sum_of_grows(amounts: Seq<int>, k: int)
    requires
        none_negative(amounts),
        0 <= k <= amounts.len(),
    ensures
        0 <= sum_of(amounts.take(k)) <= sum_of(amounts),
    decreases amounts.len(),
{
    if k == amounts.len() {
        assert(amounts.take(k) =~= amounts);
        if k > 0 {
            lemma_sum_of_grows(amounts.drop_last(), k - 1);
        }
    } else {
        lemma_sum_of_grows(amounts.drop_last(), k);
        assert(amounts.drop_last().take(k) =~= amounts.take(k));
    }
}

/// A new split is well formed.
pub proof fn lemma_created_is_wf(
    id: u64,
    creator: Seq<char>,
    description: Seq<char>,
    total: int,
    addresses: Seq<Seq<char>>,
    shares: Seq<int>,
    created_at: u64,
)
    requires
        creation_error(addresses, shares, total) is None,
        total <= i128::MAX,
    ensures
        SplitView::created(id, creator, description, total, addresses, shares, created_at).wf(),
{
    let s = SplitView::created(id, creator, description, total, addresses, shares, created_at);
    assert(shares_of(s.participants) =~= shares);
    lemma_sum_of_zeros(payments_of(s.participants));
    lemma_sum_of_grows(shares, 0);
    assert forall|i: int| 0 <= i < s.participants.len() implies (
    #[trigger] s.participants[i]).wf() by {
        // A share is no more than the total: the other shares, which are not
        // negative, add up to the total less this share.
        lemma_sum_of_update(shares, i, 0);
        lemma_sum_of_grows(shares.update(i, 0), 0);
    }
}

/// Adds up amounts that may not be negative. `None` says that one of the
/// amounts is negative, or that the sum does not fit in an `i128`.
pub fn sum_amounts(amounts: &Vec<i128>) -> (r: Option<i128>)
    ensures
        match r {
            Some(sum) => none_negative(amounts_of(amounts@)) && sum == sum_of(amounts_of(amounts@)),
            None => !none_negative(amounts_of(amounts@)) || sum_of(amounts_of(amounts@))
                > i128::MAX,
        },
{
    let ghost all = amounts_of(amounts@);
    let n = amounts.len();
    let mut i: usize = 0;
    while i < n
        invariant
            0 <= i <= n,
            n == amounts.len(),
            all == amounts_of(amounts@),
            forall|k: int| 0 <= k < i ==> 0 <= #[trigger] all[k],
        decreases n - i,
    {
        if amounts[i] < 0 {
            assert(all[i as int] < 0);
            return None;
        }
        i += 1;
    }
    let mut sum: i128 = 0;
    let mut i: usize = 0;
    while i < n
        invariant
            0 <= i <= n,
            n == amounts.len(),
            all == amounts_of(amounts@),
            none_negative(all),
            sum == sum_of(all.take(i as int)),
        decreases n - i,
    {
        proof {
            assert(all.take(i + 1).drop_last() =~= all.take(i as int));
            lemma_sum_of_grows(all, i + 1);
        }
        match sum.checked_add(amounts[i]) {
            Some(next) => {
                sum = next;
            },
            None => {
                return None;
            },
        }
        i += 1;
    }
    assert(all.take(n as int) =~= all);
    Some(sum)
}

impl Split {
    /// Makes the split `id` of `total_amount` between the given participants.
    ///
    /// There must be as many shares as addresses, and at least one; no share
    /// may be negative, and the shares must add up to `total_amount`. Nobody
    /// has paid anything yet, and the split is pending.
    pub fn new(
        id: u64,
        creator: Address,
        description: String,
        total_amount: i128,
        participant_addresses: &Vec<Address>,
        participant_shares: &Vec<i128>,
        created_at: u64,
    ) -> (r: Result<Split, Error>)
        ensures
            match r {
                Ok(split) => {
                    &&& creation_error(
                        address_views(participant_addresses@),
                        amounts_of(participant_shares@),
                        total_amount as int,
                    ) is None
                    &&& split@ == SplitView::created(
                        id,
                        creator@,
                        description@,
                        total_amount as int,
                        address_views(participant_addresses@),
                        amounts_of(participant_shares@),
                        created_at,
                    )
                    &&& split@.wf()
                },
                Err(e) => creation_error(
                    address_views(participant_addresses@),
                    amounts_of(participant_shares@),
                    total_amount as int,
                ) == Some(e),
            },
    {
        let ghost addresses = address_views(participant_addresses@);
        let ghost shares = amounts_of(participant_shares@);
        let n = participant_addresses.len();
        if n != participant_shares.len() {
            return Err(Error::ParticipantCountMismatch);
        }
        if n == 0 {
            return Err(Error::NoParticipants);
        }
        match sum_amounts(participant_shares) {
            Some(sum) => {
                if sum != total_amount {
                    return Err(Error::InvalidShares);
                }
            },
            None => {
                return Err(Error::InvalidShares);
            },
        }
        let mut participants: Vec<Participant> = Vec::new();
        let mut i: usize = 0;
        while i < n
            invariant
                0 <= i <= n,
                n == participant_addresses.len(),
                n == participant_shares.len(),
                addresses == address_views(participant_addresses@),
                shares == amounts_of(participant_shares@),
                participant_views(participants@) =~= fresh_participants(addresses, shares).take(
                    i as int,
                ),
            decreases n - i,
        {
            let share = participant_shares[i];
            let entry = Participant {
                address: participant_addresses[i].clone(),
                share_amount: share,
                amount_paid: 0,
                has_paid: 0 >= share,
            };
            participants.push(entry);
            proof {
                let fresh = fresh_participants(addresses, shares);
                assert(fresh.take(i + 1) =~= fresh.take(i as int).push(fresh[i as int]));
            }
            i += 1;
        }
        assert(fresh_participants(addresses, shares).take(n as int) =~= fresh_participants(
            addresses,
            shares,
        ));
        let split = Split {
            id,
            creator,
            description,
            total_amount,
            amount_collected: 0,
            amount_released: 0,
            participants,
            status: SplitStatus::Pending,
            created_at,
        };
        proof {
            lemma_created_is_wf(
                id,
                creator@,
                description@,
                total_amount as int,
                addresses,
                shares,
                created_at,
            );
        }
        Ok(split)
    }

    /// Whether as much was collected as the split asks for.
    pub fn is_fully_funded(&self) -> (r: bool)
        ensures
            r == self@.is_fully_funded(),
    {
        self.amount_collected >= self.total_amount
    }
}

/// An accepted deposit leaves the split well formed: one entry has paid
/// `amount` more, and so much more was collected.
pub proof fn lemma_deposit_keeps_wf(s: SplitView, who: Seq<char>, amount: int)
    requires
        s.wf(),
        s.deposit_error(who, amount) is None,
    ensures
        takes_payment(s.participants, who, amount, paying_entry(s.participants, who, amount)),
        s.with_deposit(who, amount).participants.len() == s.participants.len(),
        s.amount_collected + amount <= s.total_amount,
        s.after_deposit(who, amount).wf(),
{
    let ps = s.participants;
    // Some entry owes as much, so a first one does, and that one is credited.
    let w = choose|i: int| 0 <= i < ps.len() && (#[trigger] ps[i]).owes(who, amount);
    lemma_first_owing(ps, who, amount, w);
    let k = paying_entry(ps, who, amount);
    let booked = s.with_deposit(who, amount);
    // The payments grow by `amount` in all and stay within the shares.
    assert(shares_of(booked.participants) =~= shares_of(ps));
    assert(payments_of(booked.participants) =~= payments_of(ps).update(
        k,
        ps[k].amount_paid + amount,
    ));
    lemma_sum_of_update(payments_of(ps), k, ps[k].amount_paid + amount);
    lemma_sum_of_is_monotone(payments_of(booked.participants), shares_of(booked.participants));
}

/// Where some entry up to place `upto` owes as much, a first one does.
pub proof fn lemma_first_owing(ps: Seq<ParticipantView>, who: Seq<char>, amount: int, upto: int)
    requires
        0 <= upto < ps.len(),
        ps[upto].owes(who, amount),
    ensures
        exists|i: int| takes_payment(ps, who, amount, i),
        takes_payment(ps, who, amount, paying_entry(ps, who, amount)),
    decreases upto,
{
    if exists|j: int| 0 <= j < upto && (#[trigger] ps[j]).owes(who, amount) {
        let j = choose|j: int| 0 <= j < upto && (#[trigger] ps[j]).owes(who, amount);
        lemma_first_owing(ps, who, amount, j);
    } else {
        assert(takes_payment(ps, who, amount, upto));
    }
}

impl Participant {
    /// Whether the record is consistent, as [`ParticipantView::wf`] says.
    pub fn is_well_formed(&self) -> (r: bool)
        ensures
            r == self@.wf(),
    {
        0 <= self.amount_paid && self.amount_paid <= self.share_amount && self.has_paid == (
        self.amount_paid >= self.share_amount)
    }

    /// Books a payment of `amount` towards the share.
    fn credit(&mut self, amount: i128)
        requires
            old(self)@.wf(),
            0 < amount <= old(self)@.remaining(),
        ensures
            final(self)@ == old(self)@.credit(amount as int),
    {
        self.amount_paid = self.amount_paid + amount;
        self.has_paid = self.amount_paid >= self.share_amount;
    }
}

impl Split {
    /// Books a deposit of `amount` by `participant`.
    ///
    /// The amount must be positive, the split pending or active, and the
    /// participant one of the split's, with an entry that still owes as much.
    /// An accepted deposit is credited to one entry, the first of the
    /// participant that still owes as much, and to what the split has
    /// collected, and makes the split active. If the split is fully funded by
    /// it, everything not yet released goes to the creator at once and the split
    /// is released: the result is then the amount to pay out, and `None`
    /// otherwise.
    pub fn deposit(&mut self, participant: &Address, amount: i128) -> (r: Result<
        Option<i128>,
        Error,
    >)
        requires
            old(self)@.wf(),
        ensures
            final(self)@.wf(),
            match r {
                Ok(paid_out) => {
                    &&& old(self)@.deposit_error(participant@, amount as int) is None
                    &&& final(self)@ == old(self)@.after_deposit(participant@, amount as int)
                    &&& paid_out == if old(self)@.with_deposit(
                        participant@,
                        amount as int,
                    ).is_fully_funded() {
                        Some(
                            (old(self)@.amount_collected + amount - old(
                                self,
                            )@.amount_released) as i128,
                        )
                    } else {
                        None
                    }
                },
                Err(e) => {
                    &&& old(self)@.deposit_error(participant@, amount as int) == Some(e)
                    &&& *final(self) == *old(self)
                },
            },
    {
        let ghost before = self@;
        let ghost ps = participant_views(self.participants@);
        let ghost who = participant@;
        if amount <= 0 {
            return Err(Error::InvalidAmount);
        }
        match self.status {
            SplitStatus::Pending | SplitStatus::Active => {},
            _ => {
                return Err(Error::SplitNotAcceptingDeposits);
            },
        }
        let n = self.participants.len();
        let mut registered = false;
        let mut entry: Option<usize> = None;
        let mut i: usize = 0;
        while i < n && entry.is_none()
            invariant
                0 <= i <= n,
                n == self.participants.len(),
                *self == *old(self),
                before == self@,
                before.wf(),
                ps == participant_views(self.participants@),
                who == participant@,
                entry is None ==> (registered == exists|j: int|
                    0 <= j < i && (#[trigger] ps[j]).address == who),
                entry is None ==> forall|j: int|
                    0 <= j < i ==> !(#[trigger] ps[j]).owes(who, amount as int),
                entry matches Some(k) ==> takes_payment(ps, who, amount as int, k as int),
            decreases n - i + (if entry is None { 1int } else { 0int }),
        {
            let p = &self.participants[i];
            assert(ps[i as int] == p@);
            if p.address.same_as(participant) {
                registered = true;
                if amount <= p.share_amount - p.amount_paid {
                    entry = Some(i);
                }
            }
            if entry.is_none() {
                i += 1;
            }
        }
        let i = match entry {
            Some(i) => i,
            None => {
                if registered {
                    return Err(Error::DepositExceedsShare);
                } else {
                    return Err(Error::ParticipantNotFound);
                }
            },
        };
        proof {
            lemma_deposit_keeps_wf(before, who, amount as int);
        }
        self.participants[i].credit(amount);
        assert(participant_views(self.participants@) =~= credited(ps, who, amount as int));
        self.amount_collected = self.amount_collected + amount;
        self.status = SplitStatus::Active;
        if self.amount_collected >= self.total_amount {
            let paid_out = self.amount_collected - self.amount_released;
            self.amount_released = self.amount_collected;
            self.status = SplitStatus::Released;
            Ok(Some(paid_out))
        } else {
            Ok(None)
        }
    }

    /// Pays out to the creator everything that was collected and not released
    /// before, and settles the split. A cancelled or released split is refused.
    /// The result is the amount to pay out.
    pub fn release_funds(&mut self) -> (r: Result<i128, Error>)
        requires
            old(self)@.wf(),
        ensures
            final(self)@.wf(),
            match r {
                Ok(paid_out) => {
                    &&& old(self)@.release_error() is None
                    &&& final(self)@ == old(self)@.after_release()
                    &&& paid_out == old(self)@.available()
                },
                Err(e) => {
                    &&& old(self)@.release_error() == Some(e)
                    &&& *final(self) == *old(self)
                },
            },
    {
        match self.status {
            SplitStatus::Cancelled => {
                return Err(Error::SplitCancelled);
            },
            SplitStatus::Released => {
                return Err(Error::SplitReleased);
            },
            _ => {},
        }
        let paid_out = self.amount_collected - self.amount_released;
        self.amount_released = self.amount_collected;
        self.status = SplitStatus::Released;
        Ok(paid_out)
    }

    /// Pays out to the creator what was collected so far, before the split is
    /// fully funded; the split stays as active as it was. A cancelled, released
    /// or fully funded split is refused, and so is one with nothing to pay out.
    /// The result is the amount to pay out.
    pub fn release_partial(&mut self) -> (r: Result<i128, Error>)
        requires
            old(self)@.wf(),
        ensures
            final(self)@.wf(),
            match r {
                Ok(paid_out) => {
                    &&& old(self)@.release_partial_error() is None
                    &&& final(self)@ == old(self)@.after_release_partial()
                    &&& paid_out == old(self)@.available()
                    &&& paid_out > 0
                },
                Err(e) => {
                    &&& old(self)@.release_partial_error() == Some(e)
                    &&& *final(self) == *old(self)
                },
            },
    {
        match self.status {
            SplitStatus::Cancelled => {
                return Err(Error::SplitCancelled);
            },
            SplitStatus::Released => {
                return Err(Error::SplitReleased);
            },
            _ => {},
        }
        if self.is_fully_funded() {
            return Err(Error::SplitFullyFunded);
        }
        let available = self.amount_collected - self.amount_released;
        if available <= 0 {
            return Err(Error::NoFundsAvailable);
        }
        self.amount_released = self.amount_collected;
        Ok(available)
    }

    /// Calls the split off. Only the creator may do so, and not once the split
    /// is released. What was collected stays where it is.
    pub fn cancel(&mut self, caller: &Address) -> (r: Result<(), Error>)
        requires
            old(self)@.wf(),
        ensures
            final(self)@.wf(),
            match r {
                Ok(_) => {
                    &&& old(self)@.cancel_error(caller@) is None
                    &&& final(self)@ == old(self)@.after_cancel()
                },
                Err(e) => {
                    &&& old(self)@.cancel_error(caller@) == Some(e)
                    &&& *final(self) == *old(self)
                },
            },
    {
        if !self.creator.same_as(caller) {
            return Err(Error::Unauthorized);
        }
        match self.status {
            SplitStatus::Released => {
                return Err(Error::SplitAlreadyReleased);
            },
            _ => {},
        }
        self.status = SplitStatus::Cancelled;
        Ok(())
    }

    /// Whether the split satisfies the invariant [`SplitView::wf`]. A split that
    /// the library made does; one that was put together by hand may not.
    pub fn is_well_formed(&self) -> (r: bool)
        ensures
            r == self@.wf(),
    {
        let n = self.participants.len();
        if n == 0 {
            return false;
        }
        let ghost owed = shares_of(self@.participants);
        let ghost paid = payments_of(self@.participants);
        let mut shares: Vec<i128> = Vec::new();
        let mut payments: Vec<i128> = Vec::new();
        let mut i: usize = 0;
        while i < n
            invariant
                0 <= i <= n,
                n == self.participants.len(),
                owed == shares_of(self@.participants),
                paid == payments_of(self@.participants),
                amounts_of(shares@) =~= owed.take(i as int),
                amounts_of(payments@) =~= paid.take(i as int),
                forall|j: int| 0 <= j < i ==> (#[trigger] self@.participants[j]).wf(),
            decreases n - i,
        {
            let p = &self.participants[i];
            assert(self@.participants[i as int] == p@);
            if !p.is_well_formed() {
                return false;
            }
            shares.push(p.share_amount);
            payments.push(p.amount_paid);
            proof {
                assert(owed.take(i + 1) =~= owed.take(i as int).push(owed[i as int]));
                assert(paid.take(i + 1) =~= paid.take(i as int).push(paid[i as int]));
            }
            i += 1;
        }
        assert(owed.take(n as int) =~= owed);
        assert(paid.take(n as int) =~= paid);
        match sum_amounts(&shares) {
            Some(sum) => {
                if sum != self.total_amount {
                    return false;
                }
            },
            None => {
                return false;
            },
        }
        match sum_amounts(&payments) {
            Some(sum) => {
                if sum != self.amount_collected {
                    return false;
                }
            },
            None => {
                return false;
            },
        }
        if !(0 <= self.amount_released && self.amount_released <= self.amount_collected
            && self.amount_collected <= self.total_amount) {
            return false;
        }
        match self.status {
            SplitStatus::Pending => self.amount_collected == 0,
            SplitStatus::Active => self.amount_collected < self.total_amount,
            SplitStatus::Released => self.amount_released == self.amount_collected,
            SplitStatus::Cancelled => true,
        }
    }
}

} // verus!
