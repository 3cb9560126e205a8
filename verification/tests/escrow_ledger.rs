use split_escrow::{Address, Error, Event, SplitEscrowContract, SplitStatus, Transfer};

fn setup_test() -> (SplitEscrowContract, Address, Address) {
    let contract = SplitEscrowContract::new();
    let admin = Address::new("GADMIN");
    let token = Address::new("CTOKEN");
    (contract, admin, token)
}

fn initialize_contract(contract: &mut SplitEscrowContract, admin: &Address, token: &Address) {
    contract.initialize(admin.clone(), token.clone()).unwrap();
}

/// What the transfers asked for so far pay out to `who`, in all.
fn paid_out_to(contract: &SplitEscrowContract, who: &Address) -> i128 {
    let mut sum = 0;
    for transfer in contract.transfers() {
        if let Transfer::PayOut { to, amount } = transfer {
            if to == who {
                sum += *amount;
            }
        }
    }
    sum
}

/// What the transfers asked for so far collect from `who`, in all.
fn collected_from(contract: &SplitEscrowContract, who: &Address) -> i128 {
    let mut sum = 0;
    for transfer in contract.transfers() {
        if let Transfer::Collect { from, amount } = transfer {
            if from == who {
                sum += *amount;
            }
        }
    }
    sum
}

fn one_participant_split(
    contract: &mut SplitEscrowContract,
    creator: &Address,
    participant: &Address,
    description: &str,
) -> u64 {
    contract
        .create_split(
            creator.clone(),
            description.to_string(),
            100_0000000,
            vec![participant.clone()],
            vec![100_0000000i128],
            1_700_000_000,
        )
        .unwrap()
}

#[test]
fn test_initialize() {
    let (mut contract, admin, token) = setup_test();

    initialize_contract(&mut contract, &admin, &token);

    let stored_admin = contract.get_admin().unwrap();
    assert_eq!(stored_admin, admin);
}

#[test]
fn test_double_initialize_fails() {
    let (mut contract, admin, token) = setup_test();

    initialize_contract(&mut contract, &admin, &token);
    // Second initialization should fail
    let second = contract.initialize(admin.clone(), token.clone());
    assert_eq!(second, Err(Error::AlreadyInitialized));
    assert_eq!(Error::AlreadyInitialized.message(), "Contract already initialized");
    assert!(Error::AlreadyInitialized.is_fatal());
}

#[test]
fn test_create_split() {
    let (mut contract, admin, token) = setup_test();
    initialize_contract(&mut contract, &admin, &token);

    let creator = Address::new("GCREATOR");
    let participant1 = Address::new("GPARTICIPANT1");
    let participant2 = Address::new("GPARTICIPANT2");

    let description = "Dinner at Joe's".to_string();
    let total_amount: i128 = 100_0000000; // 100 with 7 decimals

    let addresses = vec![participant1.clone(), participant2.clone()];
    let shares = vec![50_0000000i128, 50_0000000i128];

    let split_id = contract
        .create_split(creator.clone(), description, total_amount, addresses, shares, 1_700_000_000)
        .unwrap();

    assert_eq!(split_id, 1);

    let split = contract.get_split(split_id).unwrap();
    assert_eq!(split.id, 1);
    assert_eq!(split.creator, creator);
    assert_eq!(split.total_amount, total_amount);
    assert_eq!(split.status, SplitStatus::Pending);
    assert_eq!(split.participants.len(), 2);
}

#[test]
fn test_create_split_invalid_shares() {
    let (mut contract, admin, token) = setup_test();
    initialize_contract(&mut contract, &admin, &token);

    let creator = Address::new("GCREATOR");
    let participant = Address::new("GPARTICIPANT");

    let description = "Bad split".to_string();
    let total_amount: i128 = 100_0000000;

    let addresses = vec![participant];

    // Share doesn't match total
    let shares = vec![50_0000000i128];

    let result = contract.create_split(creator, description, total_amount, addresses, shares, 0);
    assert_eq!(result, Err(Error::InvalidShares));
    assert_eq!(Error::InvalidShares.message(), "Participant shares must sum to total amount");
    assert!(contract.get_split(1).is_err());
}

#[test]
fn test_create_split_no_participants() {
    let (mut contract, admin, token) = setup_test();
    initialize_contract(&mut contract, &admin, &token);

    let creator = Address::new("GCREATOR");
    let description = "Empty split".to_string();

    let addresses: Vec<Address> = Vec::new();
    let shares: Vec<i128> = Vec::new();

    let result = contract.create_split(creator, description, 0, addresses, shares, 0);
    assert_eq!(result, Err(Error::NoParticipants));
    assert_eq!(Error::NoParticipants.message(), "At least one participant is required");
}

#[test]
fn test_deposit() {
    let (mut contract, admin, token) = setup_test();
    initialize_contract(&mut contract, &admin, &token);

    let creator = Address::new("GCREATOR");
    let participant = Address::new("GPARTICIPANT");

    let split_id = one_participant_split(&mut contract, &creator, &participant, "Test split");

    // Make a deposit
    contract.deposit(split_id, participant.clone(), 50_0000000, 10).unwrap();

    let split = contract.get_split(split_id).unwrap();
    assert_eq!(split.status, SplitStatus::Active);
    assert_eq!(split.amount_collected, 50_0000000);

    // Complete the deposit
    contract.deposit(split_id, participant.clone(), 50_0000000, 11).unwrap();

    let split = contract.get_split(split_id).unwrap();
    assert_eq!(split.status, SplitStatus::Released);
    assert_eq!(split.amount_collected, 100_0000000);
    assert_eq!(split.amount_released, 100_0000000);

    let creator_balance = paid_out_to(&contract, &creator);
    assert_eq!(creator_balance, 100_0000000);
    assert_eq!(collected_from(&contract, &participant), 100_0000000);
}

#[test]
fn test_deposit_exceeds_share() {
    let (mut contract, admin, token) = setup_test();
    initialize_contract(&mut contract, &admin, &token);

    let creator = Address::new("GCREATOR");
    let participant = Address::new("GPARTICIPANT");

    let split_id = one_participant_split(&mut contract, &creator, &participant, "Test split");

    // Try to overpay
    let result = contract.deposit(split_id, participant.clone(), 150_0000000, 10);
    assert!(result.is_err());
    assert_eq!(result, Err(Error::DepositExceedsShare));

    let split = contract.get_split(split_id).unwrap();
    assert_eq!(split.status, SplitStatus::Pending);
    assert_eq!(split.amount_collected, 0);
    assert_eq!(split.participants[0].amount_paid, 0);
    assert!(contract.transfers().is_empty());
}

#[test]
fn test_cancel_split() {
    let (mut contract, admin, token) = setup_test();
    initialize_contract(&mut contract, &admin, &token);

    let creator = Address::new("GCREATOR");
    let participant = Address::new("GPARTICIPANT");

    let split_id = one_participant_split(&mut contract, &creator, &participant, "Test split");

    contract.cancel_split(split_id, &creator).unwrap();

    let split = contract.get_split(split_id).unwrap();
    assert_eq!(split.status, SplitStatus::Cancelled);
}

#[test]
fn test_release_funds() {
    let (mut contract, admin, token) = setup_test();
    initialize_contract(&mut contract, &admin, &token);

    let creator = Address::new("GCREATOR");
    let participant = Address::new("GPARTICIPANT");

    let split_id = one_participant_split(&mut contract, &creator, &participant, "Test split");

    // Complete the split (auto-release should occur)
    contract.deposit(split_id, participant.clone(), 100_0000000, 10).unwrap();

    let split = contract.get_split(split_id).unwrap();
    assert_eq!(split.status, SplitStatus::Released);

    let creator_balance = paid_out_to(&contract, &creator);
    assert_eq!(creator_balance, 100_0000000);

    // Manual release should be blocked after auto-release
    let result = contract.release_funds(split_id, 11);
    assert!(result.is_err());
    assert_eq!(result, Err(Error::SplitReleased));
    assert_eq!(paid_out_to(&contract, &creator), 100_0000000);
}

#[test]
fn test_is_fully_funded() {
    let (mut contract, admin, token) = setup_test();
    initialize_contract(&mut contract, &admin, &token);

    let creator = Address::new("GCREATOR");
    let participant = Address::new("GPARTICIPANT");

    let split_id = one_participant_split(&mut contract, &creator, &participant, "Funding check");

    contract.deposit(split_id, participant.clone(), 50_0000000, 10).unwrap();

    let funded = contract.is_fully_funded(split_id).unwrap();
    assert!(!funded);

    contract.deposit(split_id, participant.clone(), 50_0000000, 11).unwrap();

    let funded = contract.is_fully_funded(split_id).unwrap();
    assert!(funded);
}

#[test]
fn test_release_partial() {
    let (mut contract, admin, token) = setup_test();
    initialize_contract(&mut contract, &admin, &token);

    let creator = Address::new("GCREATOR");
    let participant = Address::new("GPARTICIPANT");

    let split_id = one_participant_split(&mut contract, &creator, &participant, "Partial release");

    contract.deposit(split_id, participant.clone(), 60_0000000, 10).unwrap();

    let released = contract.release_partial(split_id, 11).unwrap();
    assert_eq!(released, 60_0000000);

    let split = contract.get_split(split_id).unwrap();
    assert_eq!(split.status, SplitStatus::Active);
    assert_eq!(split.amount_released, 60_0000000);

    let creator_balance = paid_out_to(&contract, &creator);
    assert_eq!(creator_balance, 60_0000000);

    contract.deposit(split_id, participant.clone(), 40_0000000, 12).unwrap();

    let split = contract.get_split(split_id).unwrap();
    assert_eq!(split.status, SplitStatus::Released);
    assert_eq!(split.amount_released, 100_0000000);
    assert_eq!(paid_out_to(&contract, &creator), 100_0000000);
}

#[test]
fn test_events_emitted_on_auto_release() {
    let (mut contract, admin, token) = setup_test();
    initialize_contract(&mut contract, &admin, &token);

    let creator = Address::new("GCREATOR");
    let participant = Address::new("GPARTICIPANT");

    let split_id = one_participant_split(&mut contract, &creator, &participant, "Event check");

    contract.deposit(split_id, participant.clone(), 100_0000000, 42).unwrap();

    let events = contract.events();
    let mut has_completed = false;
    let mut has_released = false;

    for i in 0..events.len() {
        let event = &events[i];
        if event.topic() == "completed" {
            match event {
                Event::EscrowCompleted { split_id: id, total_amount } => {
                    assert_eq!(*id, split_id);
                    assert_eq!(*total_amount, 100_0000000);
                }
                other => panic!("unexpected event under this topic: {:?}", other),
            }
            has_completed = true;
        }
        if event.topic() == "released" {
            match event {
                Event::FundsReleased { split_id: id, recipient, amount, timestamp } => {
                    assert_eq!(*id, split_id);
                    assert_eq!(*recipient, creator);
                    assert_eq!(*amount, 100_0000000);
                    assert_eq!(*timestamp, 42);
                }
                other => panic!("unexpected event under this topic: {:?}", other),
            }
            has_released = true;
        }
    }

    assert!(has_completed);
    assert!(has_released);
}
