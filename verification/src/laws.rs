//! What holds of the ledger through any sequence of operations.

use crate::contract::ContractView;
use crate::error::Error;
use crate::split::{
    lemma_deposit_keeps_wf, paying_entry, payments_of, shares_of, sum_of, takes_payment,
    ParticipantView, SplitOp, SplitStatus, SplitView,
};
use crate::rewards::UserRewardsView;
use crate::verification::{
    latest_decision, status_of, VerificationRequestView, VerificationStatus,
};
use vstd::prelude::*;

verus! {

/// Whatever is asked of a well-formed split, accepted or refused, it stays well
/// formed, and neither its total nor its shares change.
pub proof fn lemma_operation_keeps_split_well_formed(s: SplitView, op: SplitOp)
    requires
        s.wf(),
    ensures
        s.apply(op).wf(),
        s.apply(op).total_amount == s.total_amount,
        shares_of(s.apply(op).participants) == shares_of(s.participants),
        s.apply(op).id == s.id,
        s.apply(op).creator == s.creator,
{
    if s.op_error(op) is None {
        match op {
            SplitOp::Deposit { who, amount } => {
                lemma_deposit_keeps_wf(s, who, amount);
            },
            _ => {},
        }
    }
}

/// The shares of a split add up to its total when it is created and for ever
/// after: after any operations, accepted or refused, it is still well formed.
pub proof fn lemma_shares_always_sum_to_total(s: SplitView, ops: Seq<SplitOp>)
    requires
        s.wf(),
    ensures
        s.apply_all(ops).wf(),
        s.apply_all(ops).total_amount == s.total_amount,
        sum_of(shares_of(s.apply_all(ops).participants)) == s.total_amount,
        shares_of(s.apply_all(ops).participants) == shares_of(s.participants),
    decreases ops.len(),
{
    if ops.len() > 0 {
        lemma_shares_always_sum_to_total(s, ops.drop_last());
        lemma_operation_keeps_split_well_formed(s.apply_all(ops.drop_last()), ops.last());
    }
}

/// One entry takes a payment and no other: the first entry of the payer that
/// still owes as much.
pub proof fn lemma_one_entry_takes_a_payment(
    ps: Seq<ParticipantView>,
    who: Seq<char>,
    amount: int,
    i: int,
)
    requires
        takes_payment(ps, who, amount, i),
    ensures
        paying_entry(ps, who, amount) == i,
        forall|j: int| takes_payment(ps, who, amount, j) ==> j == i,
{
    assert(takes_payment(ps, who, amount, paying_entry(ps, who, amount)));
}

/// A deposit changes one entry and nothing else among the participants: the
/// entry has paid `amount` more, which is no more than its share, and the split
/// has collected `amount` more.
pub proof fn lemma_deposit_credits_one_entry(s: SplitView, who: Seq<char>, amount: int)
    requires
        s.wf(),
        s.deposit_error(who, amount) is None,
    ensures
        ({
            let k = paying_entry(s.participants, who, amount);
            let after = s.after_deposit(who, amount);
            &&& 0 <= k < s.participants.len()
            &&& s.participants[k].address == who
            &&& after.participants.len() == s.participants.len()
            &&& after.participants[k].amount_paid == s.participants[k].amount_paid + amount
            &&& after.participants[k].amount_paid <= after.participants[k].share_amount
            &&& after.participants[k].has_paid == (after.participants[k].amount_paid
                >= after.participants[k].share_amount)
            &&& after.participants[k].address == who
            &&& after.participants[k].share_amount == s.participants[k].share_amount
            &&& forall|i: int|
                0 <= i < s.participants.len() && i != k ==> after.participants[i]
                    == s.participants[i]
            &&& after.amount_collected == s.amount_collected + amount
            &&& sum_of(payments_of(after.participants)) == sum_of(payments_of(s.participants))
                + amount
        }),
{
    lemma_deposit_keeps_wf(s, who, amount);
}

/// After any deposits and other operations, accepted or refused, what the
/// split has collected is what its participants have paid, nobody has paid more
/// than the share, and no more was collected than the total.
pub proof fn lemma_books_always_balance(s: SplitView, ops: Seq<SplitOp>)
    requires
        s.wf(),
    ensures
        ({
            let after = s.apply_all(ops);
            &&& after.amount_collected == sum_of(payments_of(after.participants))
            &&& forall|i: int|
                0 <= i < after.participants.len() ==> 0 <= (
                #[trigger] after.participants[i]).amount_paid <= after.participants[i].share_amount
            &&& 0 <= after.amount_released <= after.amount_collected <= after.total_amount
        }),
{
    lemma_shares_always_sum_to_total(s, ops);
}

/// A released or cancelled split is never changed again, whatever is asked of it.
pub proof fn lemma_settled_split_stays(s: SplitView, op: SplitOp)
    requires
        s.status.is_final(),
    ensures
        s.apply(op) == s,
{
}

/// The status of a split never leaves `Released` or `Cancelled`: after any
/// operations the split is what it was.
pub proof fn lemma_status_never_regresses(s: SplitView, ops: Seq<SplitOp>)
    requires
        s.status.is_final(),
    ensures
        s.apply_all(ops) == s,
    decreases ops.len(),
{
    if ops.len() > 0 {
        lemma_status_never_regresses(s, ops.drop_last());
    }
}

/// A split goes forward only: no operation makes a split pending again, and
/// only a deposit or a release takes it out of `Pending` or `Active`.
pub proof fn lemma_status_goes_forward(s: SplitView, op: SplitOp)
    ensures
        s.apply(op).status == SplitStatus::Pending ==> s.status == SplitStatus::Pending,
        s.apply(op).status == SplitStatus::Active ==> !s.status.is_final(),
{
}

/// A partial release never succeeds once the split has collected its total.
pub proof fn lemma_no_partial_release_when_funded(s: SplitView)
    requires
        s.amount_collected >= s.total_amount,
    ensures
        s.release_partial_error() is Some,
        s.apply(SplitOp::ReleasePartial) == s,
{
}

/// In the contract too, a partial release of a fully funded split is refused.
pub proof fn lemma_contract_refuses_partial_release_when_funded(c: ContractView, id: u64)
    requires
        c.has_split(id),
        c.split(id).amount_collected >= c.split(id).total_amount,
    ensures
        c.release_partial_error(id) is Some,
{
}

/// A full release is accepted once: after it, another is refused with
/// `SplitReleased`.
pub proof fn lemma_release_happens_once(s: SplitView)
    requires
        s.release_error() is None,
    ensures
        s.after_release().release_error() == Some(Error::SplitReleased),
        s.after_release().release_partial_error() == Some(Error::SplitReleased),
        s.after_release().available() == 0,
{
}

/// In the contract, a second full release of a split is refused, and so is one
/// that follows the deposit which funded the split in full: nothing is paid out
/// twice, since a refused operation asks for no transfer.
pub proof fn lemma_contract_releases_once(
    c: ContractView,
    id: u64,
    who: Seq<char>,
    amount: int,
    now: u64,
)
    requires
        c.wf(),
    ensures
        c.release_funds_error(id) is None ==> c.after_release_funds(id, now).release_funds_error(
            id,
        ) == Some(Error::SplitReleased),
        c.deposit_error(id, who, amount) is None && c.split(id).with_deposit(
            who,
            amount,
        ).is_fully_funded() ==> c.after_deposit(id, who, amount, now).release_funds_error(id)
            == Some(Error::SplitReleased),
{
}

/// What counts as the latest decision for a split: none, where no request for
/// it was decided; else that of a decided request for it which no other was
/// decided later than, and which is the first of those decided at its time.
pub proof fn lemma_latest_decision_is_latest(
    requests: Seq<VerificationRequestView>,
    text: Seq<char>,
)
    ensures
        latest_decision(requests, text) is None <==> forall|j: int|
            0 <= j < requests.len() ==> !(#[trigger] requests[j]).is_decided_for(text),
        latest_decision(requests, text) matches Some(d) ==> exists|i: int|
            {
                &&& 0 <= i < requests.len()
                &&& (#[trigger] requests[i]).is_decided_for(text)
                &&& requests[i].status == d.0
                &&& requests[i].decided_at() == d.1
                &&& forall|j: int|
                    0 <= j < requests.len() && (#[trigger] requests[j]).is_decided_for(text)
                        ==> requests[j].decided_at() <= d.1
                &&& forall|j: int|
                    0 <= j < i && (#[trigger] requests[j]).is_decided_for(text)
                        ==> requests[j].decided_at() < d.1
            },
        status_of(latest_decision(requests, text)) == VerificationStatus::Pending
            <==> latest_decision(requests, text) is None,
    decreases requests.len(),
{
    if requests.len() > 0 {
        let shorter = requests.drop_last();
        lemma_latest_decision_is_latest(shorter, text);
        let so_far = latest_decision(shorter, text);
        let r = requests.last();
        let n = requests.len() - 1;
        if r.is_decided_for(text) && (so_far matches Some(d) ==> r.decided_at() > d.1) {
            let d = (r.status, r.decided_at());
            assert forall|j: int|
                0 <= j < n && (#[trigger] requests[j]).is_decided_for(
                    text,
                ) implies requests[j].decided_at() < d.1 by {
                assert(shorter[j].is_decided_for(text));
            }
        } else if so_far is Some {
            let d = so_far->0;
            let i = choose|i: int|
                {
                    &&& 0 <= i < shorter.len()
                    &&& (#[trigger] shorter[i]).is_decided_for(text)
                    &&& shorter[i].status == d.0
                    &&& shorter[i].decided_at() == d.1
                    &&& forall|j: int|
                        0 <= j < shorter.len() && (#[trigger] shorter[j]).is_decided_for(text)
                            ==> shorter[j].decided_at() <= d.1
                    &&& forall|j: int|
                        0 <= j < i && (#[trigger] shorter[j]).is_decided_for(text)
                            ==> shorter[j].decided_at() < d.1
                };
            assert forall|j: int|
                0 <= j < requests.len() && (#[trigger] requests[j]).is_decided_for(
                    text,
                ) implies requests[j].decided_at() <= d.1 by {
                if j < n {
                    assert(shorter[j].is_decided_for(text));
                }
            }
            assert forall|j: int|
                0 <= j < i && (#[trigger] requests[j]).is_decided_for(
                    text,
                ) implies requests[j].decided_at() < d.1 by {
                assert(shorter[j].is_decided_for(text));
            }
        } else {
            assert forall|j: int| 0 <= j < requests.len() implies !(
            #[trigger] requests[j]).is_decided_for(text) by {
                if j < n {
                    assert(!shorter[j].is_decided_for(text));
                }
            }
        }
    }
}

/// What the contract does to a split is what the operation does to the split
/// by itself; the other splits stay as they are, and so does everything that
/// is not a split, an event or a transfer. The contract stays well formed.
pub proof fn lemma_contract_changes_one_split(c: ContractView, id: u64, op: SplitOp, now: u64)
    requires
        c.wf(),
        c.has_split(id),
    ensures
        ({
            let after = c.after_split_op(id, op, now);
            &&& c.split_op_error(id, op) == c.split(id).op_error(op)
            &&& after.wf()
            &&& after.splits.len() == c.splits.len()
            &&& after.split(id) == c.split(id).apply(op)
            &&& forall|other: u64|
                c.has_split(other) && other != id ==> #[trigger] after.split(other) == c.split(
                    other,
                )
            &&& after.rewards == c.rewards
            &&& after.verifications == c.verifications
            &&& after.admin == c.admin
            &&& after.token == c.token
        }),
{
    lemma_operation_keeps_split_well_formed(c.split(id), op);
}

/// In the contract too, a released or cancelled split is never changed again,
/// and what is asked of it moves no value: no transfer is added.
pub proof fn lemma_contract_leaves_settled_splits(c: ContractView, id: u64, op: SplitOp, now: u64)
    requires
        c.wf(),
        c.has_split(id),
        c.split(id).status.is_final(),
    ensures
        c.after_split_op(id, op, now).splits == c.splits,
        c.after_split_op(id, op, now).transfers == c.transfers,
{
}

/// A rewards account stays well formed through whatever happens to it; its
/// counters and what was claimed never go down, and what was earned does not go
/// down when it is worked out anew.
pub proof fn lemma_rewards_move_forward(account: UserRewardsView, now: u64)
    requires
        account.wf(),
    ensures
        account.participation_error() is None ==> {
            &&& account.after_participation(now).wf()
            &&& account.after_participation(now).total_splits_participated
                == account.total_splits_participated + 1
            &&& account.after_participation(now).worth() == account.worth() + 5
        },
        account.after_calculation().wf(),
        account.after_calculation().rewards_earned >= account.rewards_earned,
        account.after_calculation().rewards_claimed == account.rewards_claimed,
        account.claim_error() is None ==> {
            &&& account.after_claim(now).wf()
            &&& account.after_claim(now).rewards_claimed > account.rewards_claimed
            &&& account.after_claim(now).rewards_earned == account.rewards_earned
        },
{
}

/// A claim takes everything: after an accepted claim nothing is available, and
/// another claim is refused with `InsufficientRewards` until more is earned.
pub proof fn lemma_claim_leaves_nothing(account: UserRewardsView, now: u64)
    requires
        account.claim_error() is None,
    ensures
        account.after_claim(now).available() == 0,
        account.after_claim(now).claim_error() == Some(Error::InsufficientRewards),
{
}

/// A verification request is decided once: after a decision every other is
/// refused, and the request is no longer pending.
pub proof fn lemma_decision_is_final(
    request: VerificationRequestView,
    oracle: Seq<char>,
    verified: bool,
    now: u64,
)
    requires
        request.decision_error() is None,
    ensures
        request.after_decision(oracle, verified, now).decision_error() == Some(
            Error::InvalidVerificationStatus,
        ),
        request.after_decision(oracle, verified, now).status == if verified {
            VerificationStatus::Verified
        } else {
            VerificationStatus::Rejected
        },
        !request.after_decision(oracle, verified, now).is_pending_for(request.split_id),
{
}

/// While a request for a split waits for its decision, no other is taken for
/// the same text; once it is decided, the next one is, as long as ids are left.
pub proof fn lemma_one_pending_request_at_a_time(
    c: ContractView,
    requester: Seq<char>,
    text: Seq<char>,
    receipt_hash: Seq<char>,
    submitted_at: u64,
    oracle: Seq<char>,
    verified: bool,
    decided_at: u64,
)
    requires
        c.wf(),
        c.submit_verification_error(text) is None,
    ensures
        ({
            let submitted = c.after_submit_verification(
                requester,
                text,
                receipt_hash,
                submitted_at,
            );
            let id = c.next_verification_id();
            let decided = submitted.after_verify_split(oracle, id, verified, decided_at);
            &&& submitted.wf()
            &&& submitted.submit_verification_error(text) == Some(Error::VerificationAlreadyExists)
            &&& submitted.is_oracle(oracle) ==> submitted.verify_split_error(oracle, id) is None
            &&& decided.wf()
            &&& decided.verifications.len() < u64::MAX ==> decided.submit_verification_error(text)
                is None
        }),
{
}

/// Creating a split leaves every other split as it is, and the operations on
/// rewards and on verification requests touch no split at all.
pub proof fn lemma_other_operations_leave_splits(
    c: ContractView,
    party: Seq<char>,
    other: Seq<char>,
    text: Seq<char>,
    total: int,
    addresses: Seq<Seq<char>>,
    shares: Seq<int>,
    verification_id: u64,
    verified: bool,
    now: u64,
)
    ensures
        ({
            let created = c.after_create_split(party, text, total, addresses, shares, now);
            &&& created.splits.len() == c.splits.len() + 1
            &&& forall|i: int| 0 <= i < c.splits.len() ==> created.splits[i] == c.splits[i]
        }),
        c.after_initialize(party, other).splits == c.splits,
        c.after_track_split_usage(party, now).splits == c.splits,
        c.after_calculate_rewards(party, now).splits == c.splits,
        c.after_claim_rewards(party, now).splits == c.splits,
        c.after_submit_verification(party, text, other, now).splits == c.splits,
        c.after_verify_split(party, verification_id, verified, now).splits == c.splits,
{
}

} // verus!
