use split_escrow::verification::{digit_of, find_pending, settled_status};
use split_escrow::{
    parse_split_id, parse_verification_id, Address, Error, Event, OracleConfig,
    SplitEscrowContract, VerificationRequest, VerificationStatus,
};

fn contract_with_split() -> SplitEscrowContract {
    let mut contract = SplitEscrowContract::new();
    contract
        .create_split(
            Address::new("GCREATOR"),
            "bill".to_string(),
            100,
            vec![Address::new("GA")],
            vec![100],
            1,
        )
        .unwrap();
    contract
}

fn with_oracle(contract: &mut SplitEscrowContract) -> Address {
    let oracle = Address::new("GORACLE");
    contract.set_oracle_config(OracleConfig {
        oracle_addresses: vec![Address::new("GOTHERORACLE"), oracle.clone()],
    });
    oracle
}

#[test]
fn split_ids_are_read_digit_by_digit() {
    assert_eq!(parse_split_id(""), Some(0));
    assert_eq!(parse_split_id("0"), Some(0));
    assert_eq!(parse_split_id("1"), Some(1));
    assert_eq!(parse_split_id("42"), Some(42));
    assert_eq!(parse_split_id("007"), Some(7));
    assert_eq!(parse_split_id("1234567890"), Some(1234567890));
    assert_eq!(parse_split_id("18446744073709551615"), Some(u64::MAX));
}

#[test]
fn other_characters_in_split_ids_are_passed_over() {
    assert_eq!(parse_split_id("split-12"), Some(12));
    assert_eq!(parse_split_id("1a2b3"), Some(123));
    assert_eq!(parse_split_id("-5"), Some(5));
    assert_eq!(parse_split_id(" 7 "), Some(7));
    assert_eq!(parse_split_id("abc"), Some(0));
    assert_eq!(parse_split_id("٣1"), Some(1));
    assert_eq!(parse_split_id("é9"), Some(9));
}

#[test]
fn split_ids_that_do_not_fit_name_no_split() {
    assert_eq!(parse_split_id("18446744073709551616"), None);
    assert_eq!(parse_split_id("99999999999999999999"), None);
    assert_eq!(parse_split_id("1844674407370955161x6"), None);
    assert_eq!(parse_split_id("184467440737095516150"), None);
}

#[test]
fn digits_are_the_ten_decimal_ones() {
    for (i, c) in "0123456789".chars().enumerate() {
        assert_eq!(digit_of(c), Some(i as u64));
    }
    for c in ['a', '/', ':', ' ', '٣', 'x'] {
        assert_eq!(digit_of(c), None);
    }
}

#[test]
fn submitting_needs_an_existing_split() {
    let mut contract = contract_with_split();
    let caller = Address::new("GUSER");
    let submit = |c: &mut SplitEscrowContract, text: &str| {
        c.submit_verification(caller.clone(), text.to_string(), "hash".to_string(), 5)
    };
    assert_eq!(submit(&mut contract, "2"), Err(Error::SplitNotFound));
    assert_eq!(submit(&mut contract, "0"), Err(Error::SplitNotFound));
    assert_eq!(submit(&mut contract, ""), Err(Error::SplitNotFound));
    assert_eq!(submit(&mut contract, "99999999999999999999"), Err(Error::SplitNotFound));
    assert!(contract.get_verification_request(1).is_none());
    assert_eq!(submit(&mut contract, "split 1"), Ok(1));
    assert_eq!(submit(&mut contract, "1"), Ok(2));
    assert_eq!(submit(&mut contract, "01"), Ok(3));
}

#[test]
fn a_new_request_is_pending_and_announced() {
    let mut contract = contract_with_split();
    let caller = Address::new("GUSER");
    let id = contract
        .submit_verification(caller.clone(), "1".to_string(), "receipt".to_string(), 77)
        .unwrap();
    assert_eq!(id, 1);
    let request = contract.get_verification_request(id).unwrap();
    assert_eq!(request.verification_id, 1);
    assert_eq!(request.split_id, "1");
    assert_eq!(request.requester, caller);
    assert_eq!(request.receipt_hash, "receipt");
    assert_eq!(request.evidence_url, None);
    assert_eq!(request.submitted_at, 77);
    assert_eq!(request.status, VerificationStatus::Pending);
    assert_eq!(request.verified_by, None);
    assert_eq!(request.verified_at, None);
    assert_eq!(request.rejection_reason, None);
    match contract.events().last().unwrap() {
        Event::VerificationSubmitted { verification_id, split_id, requester } => {
            assert_eq!(*verification_id, 1);
            assert_eq!(split_id, "1");
            assert_eq!(*requester, caller);
        }
        other => panic!("unexpected event: {:?}", other),
    }
    assert_eq!(contract.get_verification_status("1".to_string()), VerificationStatus::Pending);
}

#[test]
fn one_pending_request_per_split_at_a_time() {
    let mut contract = contract_with_split();
    let oracle = with_oracle(&mut contract);
    let caller = Address::new("GUSER");
    let first = contract
        .submit_verification(caller.clone(), "1".to_string(), "a".to_string(), 5)
        .unwrap();
    assert_eq!(
        contract.submit_verification(caller.clone(), "1".to_string(), "b".to_string(), 6),
        Err(Error::VerificationAlreadyExists)
    );
    assert!(contract.get_verification_request(2).is_none());

    contract.verify_split(&oracle, first, true, 7).unwrap();
    let second = contract
        .submit_verification(caller.clone(), "1".to_string(), "b".to_string(), 8)
        .unwrap();
    assert_eq!(second, 2);
    assert_eq!(
        contract.submit_verification(caller.clone(), "1".to_string(), "c".to_string(), 9),
        Err(Error::VerificationAlreadyExists)
    );
    contract.verify_split(&oracle, second, false, 10).unwrap();
    assert_eq!(
        contract.submit_verification(caller.clone(), "1".to_string(), "c".to_string(), 11),
        Ok(3)
    );
    // The decided requests are kept.
    assert_eq!(
        contract.get_verification_request(first).unwrap().status,
        VerificationStatus::Verified
    );
    assert_eq!(
        contract.get_verification_request(second).unwrap().status,
        VerificationStatus::Rejected
    );
}

#[test]
fn only_oracles_decide_and_only_once() {
    let mut contract = contract_with_split();
    let caller = Address::new("GUSER");
    let id = contract
        .submit_verification(caller.clone(), "1".to_string(), "a".to_string(), 5)
        .unwrap();
    let would_be = Address::new("GORACLE");
    // Nobody is an oracle while none is named.
    assert_eq!(contract.verify_split(&would_be, id, true, 6), Err(Error::OracleNotAuthorized));
    let oracle = with_oracle(&mut contract);
    assert_eq!(contract.verify_split(&caller, id, true, 6), Err(Error::OracleNotAuthorized));
    // An unknown request is reported before the caller is looked at.
    assert_eq!(contract.verify_split(&caller, 9, true, 6), Err(Error::VerificationNotFound));
    assert_eq!(contract.verify_split(&oracle, 0, true, 6), Err(Error::VerificationNotFound));
    assert_eq!(
        contract.get_verification_request(id).unwrap().status,
        VerificationStatus::Pending
    );

    let events_before = contract.events().len();
    assert_eq!(contract.verify_split(&oracle, id, false, 7), Ok(()));
    let request = contract.get_verification_request(id).unwrap();
    assert_eq!(request.status, VerificationStatus::Rejected);
    assert_eq!(request.verified_by, Some(oracle.clone()));
    assert_eq!(request.verified_at, Some(7));
    assert_eq!(request.rejection_reason, Some("Evidence insufficient".to_string()));
    assert_eq!(contract.events().len(), events_before + 1);
    match contract.events().last().unwrap() {
        Event::VerificationCompleted { verification_id, verified, verifier } => {
            assert_eq!(*verification_id, id);
            assert!(!*verified);
            assert_eq!(*verifier, oracle);
        }
        other => panic!("unexpected event: {:?}", other),
    }

    assert_eq!(
        contract.verify_split(&oracle, id, true, 8),
        Err(Error::InvalidVerificationStatus)
    );
    let request = contract.get_verification_request(id).unwrap();
    assert_eq!(request.status, VerificationStatus::Rejected);
    assert_eq!(request.verified_at, Some(7));
}

#[test]
fn a_verified_request_carries_no_reason() {
    let mut request = VerificationRequest::new(
        3,
        "1".to_string(),
        Address::new("GUSER"),
        "hash".to_string(),
        10,
    );
    let oracle = Address::new("GORACLE");
    assert_eq!(request.decide(&oracle, true, 20), Ok(()));
    assert_eq!(request.status, VerificationStatus::Verified);
    assert_eq!(request.verified_by, Some(oracle.clone()));
    assert_eq!(request.verified_at, Some(20));
    assert_eq!(request.rejection_reason, None);
    assert_eq!(request.decide(&oracle, false, 30), Err(Error::InvalidVerificationStatus));
    assert_eq!(request.status, VerificationStatus::Verified);
}

fn decided(id: u64, text: &str, verified: bool, at: u64) -> VerificationRequest {
    let mut request = VerificationRequest::new(
        id,
        text.to_string(),
        Address::new("GUSER"),
        "hash".to_string(),
        1,
    );
    request.decide(&Address::new("GORACLE"), verified, at).unwrap();
    request
}

#[test]
fn the_latest_decision_counts() {
    let text = "1".to_string();
    assert_eq!(settled_status(&vec![], &text), VerificationStatus::Pending);
    let pending =
        VerificationRequest::new(1, "1".to_string(), Address::new("GUSER"), "h".to_string(), 1);
    assert_eq!(settled_status(&vec![pending], &text), VerificationStatus::Pending);

    let requests = vec![decided(1, "1", true, 10), decided(2, "1", false, 20)];
    assert_eq!(settled_status(&requests, &text), VerificationStatus::Rejected);
    let requests = vec![decided(1, "1", false, 20), decided(2, "1", true, 10)];
    assert_eq!(settled_status(&requests, &text), VerificationStatus::Rejected);
    // Of two decisions made at the same time the earlier request counts.
    let requests = vec![decided(1, "1", true, 20), decided(2, "1", false, 20)];
    assert_eq!(settled_status(&requests, &text), VerificationStatus::Verified);
    // Requests for another text do not count, even where they name the same split.
    let requests = vec![decided(1, "1", true, 10), decided(2, "01", false, 20)];
    assert_eq!(settled_status(&requests, &text), VerificationStatus::Verified);
    assert_eq!(settled_status(&requests, &"01".to_string()), VerificationStatus::Rejected);
    assert_eq!(settled_status(&requests, &"2".to_string()), VerificationStatus::Pending);
    // A decision counts whatever its time, also the earliest there is.
    let requests = vec![decided(1, "1", true, 0)];
    assert_eq!(settled_status(&requests, &text), VerificationStatus::Verified);
    let requests = vec![decided(1, "1", false, 0), decided(2, "1", true, 0)];
    assert_eq!(settled_status(&requests, &text), VerificationStatus::Rejected);
    let requests = vec![decided(1, "1", false, 0), decided(2, "1", true, 1)];
    assert_eq!(settled_status(&requests, &text), VerificationStatus::Verified);
}

#[test]
fn a_decision_at_time_zero_is_reported_by_the_contract() {
    let mut contract = contract_with_split();
    let oracle = with_oracle(&mut contract);
    let id = contract
        .submit_verification(Address::new("GUSER"), "1".to_string(), "a".to_string(), 0)
        .unwrap();
    contract.verify_split(&oracle, id, true, 0).unwrap();
    assert_eq!(contract.get_verification_status("1".to_string()), VerificationStatus::Verified);
}

#[test]
fn pending_requests_are_found_by_text() {
    let pending =
        VerificationRequest::new(2, "1".to_string(), Address::new("GUSER"), "h".to_string(), 1);
    let requests = vec![decided(1, "1", true, 10), pending, decided(3, "2", false, 10)];
    assert!(find_pending(&requests, &"1".to_string()));
    assert!(!find_pending(&requests, &"2".to_string()));
    assert!(!find_pending(&requests, &"01".to_string()));
    assert!(!find_pending(&vec![], &"1".to_string()));
}

#[test]
fn contract_reports_the_latest_decision() {
    let mut contract = contract_with_split();
    let oracle = with_oracle(&mut contract);
    let caller = Address::new("GUSER");
    let status = |c: &SplitEscrowContract| c.get_verification_status("1".to_string());
    assert_eq!(status(&contract), VerificationStatus::Pending);
    let first =
        contract.submit_verification(caller.clone(), "1".to_string(), "a".to_string(), 5).unwrap();
    contract.verify_split(&oracle, first, false, 10).unwrap();
    assert_eq!(status(&contract), VerificationStatus::Rejected);
    let second =
        contract.submit_verification(caller.clone(), "1".to_string(), "b".to_string(), 11).unwrap();
    assert_eq!(status(&contract), VerificationStatus::Rejected);
    contract.verify_split(&oracle, second, true, 12).unwrap();
    assert_eq!(status(&contract), VerificationStatus::Verified);
    assert_eq!(contract.get_verification_status("2".to_string()), VerificationStatus::Pending);
}

#[test]
fn oracles_are_looked_up_by_address() {
    let config = OracleConfig { oracle_addresses: vec![Address::new("GA"), Address::new("GB")] };
    assert!(config.is_oracle(&Address::new("GA")));
    assert!(config.is_oracle(&Address::new("GB")));
    assert!(!config.is_oracle(&Address::new("GC")));
    assert!(!OracleConfig { oracle_addresses: vec![] }.is_oracle(&Address::new("GA")));
}

#[test]
fn verification_ids_are_decimal_numbers_and_nothing_else() {
    assert_eq!(parse_verification_id("1"), Some(1));
    assert_eq!(parse_verification_id("0"), Some(0));
    assert_eq!(parse_verification_id("007"), Some(7));
    assert_eq!(parse_verification_id("18446744073709551615"), Some(u64::MAX));
    assert_eq!(parse_verification_id("18446744073709551616"), None);
    assert_eq!(parse_verification_id(""), None);
    assert_eq!(parse_verification_id("1a"), None);
    assert_eq!(parse_verification_id("a1"), None);
    assert_eq!(parse_verification_id(" 1"), None);
    assert_eq!(parse_verification_id("-1"), None);
    assert_eq!(parse_verification_id("+1"), None);
    assert_eq!(parse_verification_id("٣"), None);
}

#[test]
fn a_request_is_decided_by_the_text_of_its_id() {
    let mut contract = contract_with_split();
    let oracle = with_oracle(&mut contract);
    let caller = Address::new("GUSER");
    let id = contract
        .submit_verification(caller.clone(), "1".to_string(), "a".to_string(), 5)
        .unwrap();
    let named = id.to_string();
    assert_eq!(
        contract.verify_split_by_text(&oracle, "one", true, 6),
        Err(Error::VerificationNotFound)
    );
    assert_eq!(
        contract.verify_split_by_text(&oracle, "", true, 6),
        Err(Error::VerificationNotFound)
    );
    assert_eq!(
        contract.verify_split_by_text(&oracle, "2", true, 6),
        Err(Error::VerificationNotFound)
    );
    assert_eq!(
        contract.verify_split_by_text(&caller, &named, true, 6),
        Err(Error::OracleNotAuthorized)
    );
    assert_eq!(contract.verify_split_by_text(&oracle, &named, true, 6), Ok(()));
    assert_eq!(
        contract.get_verification_request(id).unwrap().status,
        VerificationStatus::Verified
    );
    assert_eq!(
        contract.verify_split_by_text(&oracle, &named, false, 7),
        Err(Error::InvalidVerificationStatus)
    );
}
