//! Rewards: points that users earn by creating splits, taking part in them and
//! transacting, and that they claim.

use crate::address::Address;
use crate::error::Error;
use vstd::prelude::*;

verus! {

/// Whether a user's rewards are open to claims.
#[derive(Debug, Clone, Copy, PartialEq, Eq, Structural)]
pub enum RewardsStatus {
    Active,
    Suspended,
}

/// What a user did to earn rewards.
#[derive(Debug, Clone, Copy, PartialEq, Eq, Structural)]
pub enum ActivityType {
    SplitCreated,
    SplitParticipated,
}

/// Points for each split that a user created.
pub const CREATION_POINTS: i128 = 10;

/// Points for each split that a user took part in.
pub const PARTICIPATION_POINTS: i128 = 5;

/// One point is earned for each this many units transacted.
pub const VOLUME_UNITS_PER_POINT: i128 = 1000;

/// The points earned by a user who created `created` splits, took part in
/// `participated` splits and transacted `transacted` units: ten for each split
/// created, five for each split taken part in, and one for each full thousand
/// transacted.
pub open spec fn rewards_formula(created: int, participated: int, transacted: int) -> int {
    CREATION_POINTS * created + PARTICIPATION_POINTS * participated + transacted
        / VOLUME_UNITS_PER_POINT as int
}

/// The running account of what a user did and earned.
#[derive(Debug)]
pub struct UserRewards {
    pub user: Address,
    pub total_splits_created: u64,
    pub total_splits_participated: u64,
    pub total_amount_transacted: i128,
    pub rewards_earned: i128,
    pub rewards_claimed: i128,
    pub last_activity: u64,
    pub status: RewardsStatus,
}

/// A rewards account as a mathematical value.
pub struct UserRewardsView {
    pub user: Seq<char>,
    pub total_splits_created: int,
    pub total_splits_participated: int,
    pub total_amount_transacted: int,
    pub rewards_earned: int,
    pub rewards_claimed: int,
    pub last_activity: u64,
    pub status: RewardsStatus,
}

impl View for UserRewards {
    type V = UserRewardsView;

    open spec fn view(&self) -> UserRewardsView {
        UserRewardsView {
            user: self.user@,
            total_splits_created: self.total_splits_created as int,
            total_splits_participated: self.total_splits_participated as int,
            total_amount_transacted: self.total_amount_transacted as int,
            rewards_earned: self.rewards_earned as int,
            rewards_claimed: self.rewards_claimed as int,
            last_activity: self.last_activity,
            status: self.status,
        }
    }
}

impl UserRewardsView {
    /// The account of a user who has done nothing yet.
    pub open spec fn fresh(user: Seq<char>, now: u64) -> UserRewardsView {
        UserRewardsView {
            user,
            total_splits_created: 0,
            total_splits_participated: 0,
            total_amount_transacted: 0,
            rewards_earned: 0,
            rewards_claimed: 0,
            last_activity: now,
            status: RewardsStatus::Active,
        }
    }

    /// What the counters are worth in points.
    pub open spec fn worth(self) -> int {
        rewards_formula(
            self.total_splits_created,
            self.total_splits_participated,
            self.total_amount_transacted,
        )
    }

    /// What was earned and not claimed yet.
    pub open spec fn available(self) -> int {
        self.rewards_earned - self.rewards_claimed
    }

    /// The invariant of every account that the library makes or changes: the
    /// counters are not negative, and no more was claimed than was earned, nor
    /// more earned than the counters are worth.
    pub open spec fn wf(self) -> bool {
        &&& 0 <= self.total_splits_created <= u64::MAX
        &&& 0 <= self.total_splits_participated <= u64::MAX
        &&& 0 <= self.total_amount_transacted <= i128::MAX
        &&& 0 <= self.rewards_claimed <= self.rewards_earned <= self.worth()
    }

    /// Why one more participation cannot be counted, if that is so.
    pub open spec fn participation_error(self) -> Option<Error> {
        if self.total_splits_participated >= u64::MAX {
            Some(Error::Overflow)
        } else {
            None
        }
    }

    /// The account with one more participation, at time `now`.
    pub open spec fn after_participation(self, now: u64) -> UserRewardsView {
        UserRewardsView {
            total_splits_participated: self.total_splits_participated + 1,
            last_activity: now,
            ..self
        }
    }

    /// The account with the earned points worked out anew.
    pub open spec fn after_calculation(self) -> UserRewardsView {
        UserRewardsView { rewards_earned: self.worth(), ..self }
    }

    /// Why a claim is refused, if it is.
    pub open spec fn claim_error(self) -> Option<Error> {
        if self.status != RewardsStatus::Active {
            Some(Error::RewardsAlreadyClaimed)
        } else if self.available() <= 0 {
            Some(Error::InsufficientRewards)
        } else {
            None
        }
    }

    /// The account after everything available was claimed at time `now`.
    pub open spec fn after_claim(self, now: u64) -> UserRewardsView {
        UserRewardsView { rewards_claimed: self.rewards_earned, last_activity: now, ..self }
    }
}

/// One thing that a user did, as it is logged.
#[derive(Debug)]
pub struct UserActivity {
    pub user: Address,
    pub activity_type: ActivityType,
    pub split_id: u64,
    pub amount: i128,
    pub timestamp: u64,
}

/// A logged activity as a mathematical value.
pub struct UserActivityView {
    pub user: Seq<char>,
    pub activity_type: ActivityType,
    pub split_id: u64,
    pub amount: int,
    pub timestamp: u64,
}

impl View for UserActivity {
    type V = UserActivityView;

    open spec fn view(&self) -> UserActivityView {
        UserActivityView {
            user: self.user@,
            activity_type: self.activity_type,
            split_id: self.split_id,
            amount: self.amount as int,
            timestamp: self.timestamp,
        }
    }
}

impl UserRewards {
    /// The account of `user`, who has done nothing yet.
    pub fn new(user: Address, now: u64) -> (r: UserRewards)
        ensures
            r@ == UserRewardsView::fresh(user@, now),
            r@.wf(),
    {
        UserRewards {
            user,
            total_splits_created: 0,
            total_splits_participated: 0,
            total_amount_transacted: 0,
            rewards_earned: 0,
            rewards_claimed: 0,
            last_activity: now,
            status: RewardsStatus::Active,
        }
    }

    /// Counts one more split that the user took part in, at time `now`.
    pub fn record_participation(&mut self, now: u64) -> (r: Result<(), Error>)
        requires
            old(self)@.wf(),
        ensures
            final(self)@.wf(),
            match r {
                Ok(_) => {
                    &&& old(self)@.participation_error() is None
                    &&& final(self)@ == old(self)@.after_participation(now)
                },
                Err(e) => {
                    &&& old(self)@.participation_error() == Some(e)
                    &&& *final(self) == *old(self)
                },
            },
    {
        if self.total_splits_participated == u64::MAX {
            return Err(Error::Overflow);
        }
        self.total_splits_participated = self.total_splits_participated + 1;
        self.last_activity = now;
        Ok(())
    }

    /// What was earned and not claimed yet.
    pub fn available(&self) -> (r: i128)
        requires
            self@.wf(),
        ensures
            r == self@.available(),
    {
        self.rewards_earned - self.rewards_claimed
    }

    /// What the counters are worth in points.
    pub fn worth(&self) -> (r: i128)
        requires
            0 <= self@.total_amount_transacted,
        ensures
            r == self@.worth(),
    {
        let creation = self.total_splits_created as i128 * CREATION_POINTS;
        let participation = self.total_splits_participated as i128 * PARTICIPATION_POINTS;
        let volume = self.total_amount_transacted / VOLUME_UNITS_PER_POINT;
        creation + participation + volume
    }

    /// Whether the account satisfies the invariant [`UserRewardsView::wf`]. An
    /// account that the library made does; one that was put together by hand
    /// may not.
    pub fn is_well_formed(&self) -> (r: bool)
        ensures
            r == self@.wf(),
    {
        if self.total_amount_transacted < 0 || self.rewards_claimed < 0 {
            return false;
        }
        self.rewards_claimed <= self.rewards_earned && self.rewards_earned <= self.worth()
    }

    /// Works out anew what the user has earned, books it and returns it.
    pub fn calculate(&mut self) -> (r: i128)
        requires
            old(self)@.wf(),
        ensures
            final(self)@.wf(),
            final(self)@ == old(self)@.after_calculation(),
            r == old(self)@.worth(),
    {
        let total = self.worth();
        self.rewards_earned = total;
        total
    }

    /// Claims everything that is available, at time `now`, and returns it. The
    /// account must be active, and there must be something to claim.
    pub fn claim(&mut self, now: u64) -> (r: Result<i128, Error>)
        requires
            old(self)@.wf(),
        ensures
            final(self)@.wf(),
            match r {
                Ok(claimed) => {
                    &&& old(self)@.claim_error() is None
                    &&& final(self)@ == old(self)@.after_claim(now)
                    &&& claimed == old(self)@.available()
                    &&& claimed > 0
                },
                Err(e) => {
                    &&& old(self)@.claim_error() == Some(e)
                    &&& *final(self) == *old(self)
                },
            },
    {
        match self.status {
            RewardsStatus::Active => {},
            _ => {
                return Err(Error::RewardsAlreadyClaimed);
            },
        }
        let available = self.rewards_earned - self.rewards_claimed;
        if available <= 0 {
            return Err(Error::InsufficientRewards);
        }
        self.rewards_claimed = self.rewards_claimed + available;
        self.last_activity = now;
        Ok(available)
    }
}

} // verus!
