use split_escrow::events::{
    emit_activity_tracked, emit_claim_filed, emit_claim_processed, emit_deposit_received,
    emit_escrow_completed, emit_funds_released, emit_initialized, emit_insurance_purchased,
    emit_payout_made, emit_refund_processed, emit_rewards_calculated, emit_rewards_claimed,
    emit_split_cancelled, emit_split_created, emit_verification_completed,
    emit_verification_status_changed, emit_verification_submitted, record,
};
use split_escrow::{Address, Error, Event, SplitEscrowContract};

#[test]
fn each_emitter_adds_its_event_at_the_end() {
    let a = Address::new("GA");
    let mut log: Vec<Event> = Vec::new();

    emit_initialized(&mut log, &a);
    emit_split_created(&mut log, 1, &a, 100);
    emit_deposit_received(&mut log, 2, &a, 30);
    emit_funds_released(&mut log, 3, &a, 40, 99);
    emit_escrow_completed(&mut log, 4, 100);
    emit_split_cancelled(&mut log, 5);
    emit_refund_processed(&mut log, 6, &a, 7);
    emit_insurance_purchased(&mut log, "ins-1", "1", &a, 5, 500);
    emit_claim_filed(&mut log, "claim-1", "ins-1", &a, 250);
    emit_claim_processed(&mut log, "claim-1", "ins-1", true, 200);
    emit_payout_made(&mut log, "claim-1", &a, 200);
    emit_activity_tracked(&mut log, &a, "split_created", 8, 9);
    emit_rewards_calculated(&mut log, &a, 40, 15);
    emit_rewards_claimed(&mut log, &a, 15);
    emit_verification_submitted(&mut log, 10, "1", &a);
    emit_verification_completed(&mut log, 10, false, &a);
    emit_verification_status_changed(&mut log, 10, "pending", "rejected");

    let topics: Vec<&str> = log.iter().map(|e| e.topic()).collect();
    assert_eq!(
        topics,
        vec![
            "init",
            "created",
            "deposit",
            "released",
            "completed",
            "cancel",
            "refund",
            "ins_purchased",
            "claim_filed",
            "claim_processed",
            "payout_made",
            "activity_tracked",
            "rewards_calculated",
            "rewards_claimed",
            "verification_submitted",
            "verification_completed",
            "verification_status_changed",
        ]
    );

    assert!(matches!(&log[0], Event::Initialized { admin } if *admin == a));
    assert!(matches!(&log[1],
        Event::SplitCreated { split_id: 1, creator, total_amount: 100 } if *creator == a));
    assert!(matches!(&log[2],
        Event::DepositReceived { split_id: 2, participant, amount: 30 } if *participant == a));
    assert!(matches!(&log[3],
        Event::FundsReleased { split_id: 3, recipient, amount: 40, timestamp: 99 }
            if *recipient == a));
    assert!(matches!(&log[4], Event::EscrowCompleted { split_id: 4, total_amount: 100 }));
    assert!(matches!(&log[5], Event::SplitCancelled { split_id: 5 }));
    assert!(matches!(&log[6],
        Event::RefundProcessed { split_id: 6, participant, amount: 7 } if *participant == a));
    assert!(matches!(&log[7],
        Event::InsurancePurchased { insurance_id, split_id, policy_holder, premium: 5,
            coverage_amount: 500 }
            if insurance_id == "ins-1" && split_id == "1" && *policy_holder == a));
    assert!(matches!(&log[8],
        Event::ClaimFiled { claim_id, insurance_id, claimant, claim_amount: 250 }
            if claim_id == "claim-1" && insurance_id == "ins-1" && *claimant == a));
    assert!(matches!(&log[9],
        Event::ClaimProcessed { claim_id, insurance_id, approved: true, payout_amount: 200 }
            if claim_id == "claim-1" && insurance_id == "ins-1"));
    assert!(matches!(&log[10],
        Event::PayoutMade { claim_id, recipient, amount: 200 }
            if claim_id == "claim-1" && *recipient == a));
    assert!(matches!(&log[11],
        Event::ActivityTracked { user, activity_type, split_id: 8, amount: 9 }
            if *user == a && activity_type == "split_created"));
    assert!(matches!(&log[12],
        Event::RewardsCalculated { user, total_rewards: 40, available_rewards: 15 }
            if *user == a));
    assert!(matches!(&log[13],
        Event::RewardsClaimed { user, amount_claimed: 15 } if *user == a));
    assert!(matches!(&log[14],
        Event::VerificationSubmitted { verification_id: 10, split_id, requester }
            if split_id == "1" && *requester == a));
    assert!(matches!(&log[15],
        Event::VerificationCompleted { verification_id: 10, verified: false, verifier }
            if *verifier == a));
    assert!(matches!(&log[16],
        Event::VerificationStatusChanged { verification_id: 10, old_status, new_status }
            if old_status == "pending" && new_status == "rejected"));

    record(&mut log, Event::SplitCancelled { split_id: 11 });
    assert_eq!(log.len(), 18);
    assert!(matches!(log.last(), Some(Event::SplitCancelled { split_id: 11 })));
}

#[test]
fn contract_announces_what_it_does() {
    let mut contract = SplitEscrowContract::new();
    let admin = Address::new("GADMIN");
    let creator = Address::new("GCREATOR");
    let a = Address::new("GA");
    contract.initialize(admin.clone(), Address::new("CTOKEN")).unwrap();
    let id = contract
        .create_split(creator.clone(), "bill".to_string(), 100, vec![a.clone()], vec![100], 5)
        .unwrap();
    contract.deposit(id, a.clone(), 60, 6).unwrap();
    contract.release_partial(id, 7).unwrap();
    contract.cancel_split(id, &creator).unwrap();

    let events = contract.take_events();
    assert!(contract.events().is_empty());
    assert_eq!(events.len(), 5);
    assert!(matches!(&events[0], Event::Initialized { admin: who } if *who == admin));
    assert!(matches!(&events[1],
        Event::SplitCreated { split_id: 1, creator: who, total_amount: 100 } if *who == creator));
    assert!(matches!(&events[2],
        Event::DepositReceived { split_id: 1, participant, amount: 60 } if *participant == a));
    assert!(matches!(&events[3],
        Event::FundsReleased { split_id: 1, recipient, amount: 60, timestamp: 7 }
            if *recipient == creator));
    assert!(matches!(&events[4], Event::SplitCancelled { split_id: 1 }));
}

#[test]
fn explicit_release_announces_completion_and_release() {
    let mut contract = SplitEscrowContract::new();
    let creator = Address::new("GCREATOR");
    let a = Address::new("GA");
    let id = contract
        .create_split(creator.clone(), "bill".to_string(), 100, vec![a.clone()], vec![100], 5)
        .unwrap();
    contract.deposit(id, a.clone(), 60, 6).unwrap();
    contract.take_events();
    contract.take_transfers();
    assert_eq!(contract.release_funds(id, 9), Ok(()));
    let events = contract.take_events();
    assert_eq!(events.len(), 2);
    assert!(matches!(&events[0], Event::EscrowCompleted { split_id: 1, total_amount: 100 }));
    assert!(matches!(&events[1],
        Event::FundsReleased { split_id: 1, recipient, amount: 60, timestamp: 9 }
            if *recipient == creator));
    let split = contract.get_split(id).unwrap();
    assert_eq!((split.amount_collected, split.amount_released), (60, 60));
}

#[test]
fn errors_are_of_two_kinds() {
    let values = [
        Error::SplitNotFound,
        Error::SplitCancelled,
        Error::SplitReleased,
        Error::SplitFullyFunded,
        Error::NoFundsAvailable,
        Error::UserNotFound,
        Error::RewardsAlreadyClaimed,
        Error::InsufficientRewards,
        Error::VerificationAlreadyExists,
        Error::VerificationNotFound,
        Error::OracleNotAuthorized,
        Error::InvalidVerificationStatus,
    ];
    let aborts = [
        (Error::AlreadyInitialized, "Contract already initialized"),
        (Error::NotInitialized, "Contract not initialized"),
        (
            Error::ParticipantCountMismatch,
            "Participant addresses and shares must have the same length",
        ),
        (Error::NoParticipants, "At least one participant is required"),
        (Error::InvalidShares, "Participant shares must sum to total amount"),
        (Error::InvalidAmount, "Deposit amount must be positive"),
        (Error::SplitNotAcceptingDeposits, "Split is not accepting deposits"),
        (Error::ParticipantNotFound, "Participant not found in split"),
        (Error::DepositExceedsShare, "Deposit exceeds remaining amount owed"),
        (Error::SplitAlreadyReleased, "Cannot cancel a released split"),
        (Error::Unauthorized, "Caller is not authorized"),
        (Error::Overflow, "Arithmetic overflow"),
        (Error::InvalidState, "Record is not well formed"),
    ];
    for e in values {
        assert!(!e.is_fatal(), "{:?}", e);
        assert!(!e.message().is_empty());
    }
    for (e, reason) in aborts {
        assert!(e.is_fatal(), "{:?}", e);
        assert_eq!(e.message(), reason);
    }
}

#[test]
fn addresses_are_compared_by_their_key() {
    let a = Address::new("GABC");
    assert_eq!(a.as_str(), "GABC");
    assert!(a.same_as(&Address::new("GABC")));
    assert!(!a.same_as(&Address::new("GABD")));
    assert!(!a.same_as(&Address::new("GAB")));
    assert_eq!(a.clone(), a);
    assert_ne!(a, Address::new("gabc"));
}

#[test]
fn admin_and_token_are_known_after_initialization() {
    let mut contract = SplitEscrowContract::new();
    assert_eq!(contract.get_admin(), Err(Error::NotInitialized));
    assert_eq!(contract.get_token(), Err(Error::NotInitialized));
    contract.initialize(Address::new("GADMIN"), Address::new("CTOKEN")).unwrap();
    assert_eq!(contract.get_admin(), Ok(Address::new("GADMIN")));
    assert_eq!(contract.get_token(), Ok(Address::new("CTOKEN")));
    assert_eq!(
        contract.initialize(Address::new("GOTHER"), Address::new("COTHER")),
        Err(Error::AlreadyInitialized)
    );
    assert_eq!(contract.get_admin(), Ok(Address::new("GADMIN")));
    assert_eq!(contract.events().len(), 1);
}
