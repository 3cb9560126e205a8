use split_escrow::{
    ActivityType, Address, Error, Event, RewardsStatus, SplitEscrowContract, UserRewards,
};

fn account(created: u64, participated: u64, transacted: i128) -> UserRewards {
    let mut rewards = UserRewards::new(Address::new("GUSER"), 100);
    rewards.total_splits_created = created;
    rewards.total_splits_participated = participated;
    rewards.total_amount_transacted = transacted;
    rewards
}

#[test]
fn new_account_is_empty_and_active() {
    let rewards = UserRewards::new(Address::new("GUSER"), 100);
    assert_eq!(rewards.user, Address::new("GUSER"));
    assert_eq!(rewards.total_splits_created, 0);
    assert_eq!(rewards.total_splits_participated, 0);
    assert_eq!(rewards.total_amount_transacted, 0);
    assert_eq!(rewards.rewards_earned, 0);
    assert_eq!(rewards.rewards_claimed, 0);
    assert_eq!(rewards.last_activity, 100);
    assert_eq!(rewards.status, RewardsStatus::Active);
}

#[test]
fn rewards_are_ten_per_split_created_five_per_participation_and_a_thousandth_of_volume() {
    let mut rewards = account(2, 3, 5000);
    assert_eq!(rewards.calculate(), 40);
    assert_eq!(rewards.rewards_earned, 40);
    assert_eq!(rewards.available(), 40);
}

#[test]
fn volume_rewards_are_truncated() {
    assert_eq!(account(0, 0, 999).calculate(), 0);
    assert_eq!(account(0, 0, 1000).calculate(), 1);
    assert_eq!(account(0, 0, 1999).calculate(), 1);
    assert_eq!(account(1, 0, 0).calculate(), 10);
    assert_eq!(account(0, 1, 0).calculate(), 5);
    assert_eq!(
        account(u64::MAX, u64::MAX, i128::MAX).calculate(),
        15 * (u64::MAX as i128) + i128::MAX / 1000
    );
}

#[test]
fn claim_takes_everything_available_once() {
    let mut rewards = account(2, 3, 5000);
    assert_eq!(rewards.claim(5), Err(Error::InsufficientRewards));
    rewards.calculate();
    assert_eq!(rewards.claim(200), Ok(40));
    assert_eq!(rewards.rewards_claimed, 40);
    assert_eq!(rewards.rewards_earned, 40);
    assert_eq!(rewards.last_activity, 200);
    assert_eq!(rewards.available(), 0);
    assert_eq!(rewards.claim(201), Err(Error::InsufficientRewards));
    assert_eq!(rewards.last_activity, 200);

    rewards.record_participation(300).unwrap();
    assert_eq!(rewards.calculate(), 45);
    assert_eq!(rewards.claim(301), Ok(5));
    assert_eq!(rewards.rewards_claimed, 45);
}

#[test]
fn suspended_account_cannot_claim() {
    let mut rewards = account(1, 0, 0);
    rewards.calculate();
    rewards.status = RewardsStatus::Suspended;
    assert_eq!(rewards.claim(5), Err(Error::RewardsAlreadyClaimed));
    assert_eq!(rewards.rewards_claimed, 0);
}

#[test]
fn participation_counter_does_not_wrap() {
    let mut rewards = account(0, u64::MAX, 0);
    assert_eq!(rewards.record_participation(5), Err(Error::Overflow));
    assert_eq!(rewards.total_splits_participated, u64::MAX);
    assert_eq!(rewards.last_activity, 100);
}

#[test]
fn tracking_creates_the_account_and_counts() {
    let mut contract = SplitEscrowContract::new();
    let user = Address::new("GUSER");
    assert!(contract.get_user_rewards(&user).is_none());

    contract.track_split_usage(user.clone(), 10).unwrap();
    contract.track_split_usage(user.clone(), 20).unwrap();
    contract.track_split_usage(Address::new("GOTHER"), 30).unwrap();

    let rewards = contract.get_user_rewards(&user).unwrap();
    assert_eq!(rewards.total_splits_participated, 2);
    assert_eq!(rewards.last_activity, 20);
    assert_eq!(rewards.rewards_earned, 0);
    assert_eq!(contract.get_user_rewards(&Address::new("GOTHER")).unwrap().last_activity, 30);
    assert_eq!(contract.activities().len(), 3);
    let logged = &contract.activities()[1];
    assert_eq!(logged.user, user);
    assert_eq!(logged.activity_type, ActivityType::SplitParticipated);
    assert_eq!((logged.split_id, logged.amount, logged.timestamp), (0, 0, 20));

    assert_eq!(contract.calculate_rewards(user.clone(), 40), 10);
    assert_eq!(contract.get_user_rewards(&user).unwrap().rewards_earned, 10);
    assert_eq!(contract.calculate_rewards(Address::new("GOTHER"), 40), 5);

    let events = contract.take_events();
    assert_eq!(events.len(), 5);
    match &events[0] {
        Event::ActivityTracked { user: who, activity_type, split_id, amount } => {
            assert_eq!(*who, user);
            assert_eq!(activity_type, "split_participated");
            assert_eq!((*split_id, *amount), (0, 0));
        }
        other => panic!("unexpected event: {:?}", other),
    }
    match &events[3] {
        Event::RewardsCalculated { user: who, total_rewards, available_rewards } => {
            assert_eq!(*who, user);
            assert_eq!((*total_rewards, *available_rewards), (10, 10));
        }
        other => panic!("unexpected event: {:?}", other),
    }
    assert_eq!(events[0].topic(), "activity_tracked");
    assert_eq!(events[3].topic(), "rewards_calculated");
}

#[test]
fn calculating_for_an_unknown_user_opens_an_empty_account() {
    let mut contract = SplitEscrowContract::new();
    let user = Address::new("GUSER");
    assert_eq!(contract.calculate_rewards(user.clone(), 40), 0);
    let rewards = contract.get_user_rewards(&user).unwrap();
    assert_eq!(rewards.last_activity, 40);
    assert_eq!(rewards.total_splits_participated, 0);
}

#[test]
fn claiming_through_the_contract() {
    let mut contract = SplitEscrowContract::new();
    let user = Address::new("GUSER");
    let other = Address::new("GOTHER");

    assert_eq!(contract.claim_rewards(&user, &user, 1), Err(Error::UserNotFound));
    contract.track_split_usage(user.clone(), 10).unwrap();
    assert_eq!(contract.claim_rewards(&other, &user, 11), Err(Error::UserNotFound));
    // Nothing was worked out yet, so nothing is available.
    assert_eq!(contract.claim_rewards(&user, &user, 12), Err(Error::InsufficientRewards));

    assert_eq!(contract.calculate_rewards(user.clone(), 13), 5);
    let events_before = contract.events().len();
    assert_eq!(contract.claim_rewards(&user, &user, 14), Ok(5));
    assert_eq!(contract.events().len(), events_before + 1);
    match contract.events().last().unwrap() {
        Event::RewardsClaimed { user: who, amount_claimed } => {
            assert_eq!(*who, user);
            assert_eq!(*amount_claimed, 5);
        }
        other => panic!("unexpected event: {:?}", other),
    }
    // Claiming again at once fails: nothing is left.
    assert_eq!(contract.claim_rewards(&user, &user, 15), Err(Error::InsufficientRewards));
    let rewards = contract.get_user_rewards(&user).unwrap();
    assert_eq!(rewards.rewards_claimed, 5);
    assert_eq!(rewards.last_activity, 14);
    assert_eq!(contract.events().len(), events_before + 1);
}
