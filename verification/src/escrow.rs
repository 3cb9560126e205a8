//! Escrows with a deadline: a second shape of a shared bill, named by text
//! and open until a point in time.

use crate::address::Address;
use crate::error::Error;
use vstd::prelude::*;

verus! {

/// Where an escrow with a deadline stands.
#[derive(Debug, Clone, Copy, PartialEq, Eq, Structural)]
pub enum EscrowStatus {
    /// Open for payments.
    Active,
    /// Fully funded and paid out.
    Completed,
    /// Called off.
    Cancelled,
    /// The deadline passed before it was funded.
    Expired,
}

/// One party of an escrow, with what it owes and has paid.
#[derive(Debug)]
pub struct EscrowParticipant {
    pub address: Address,
    pub amount_owed: i128,
    pub amount_paid: i128,
    pub paid_at: Option<u64>,
}

/// An escrow participant as a mathematical value.
pub struct EscrowParticipantView {
    pub address: Seq<char>,
    pub amount_owed: int,
    pub amount_paid: int,
    pub paid_at: Option<u64>,
}

impl View for EscrowParticipant {
    type V = EscrowParticipantView;

    open spec fn view(&self) -> EscrowParticipantView {
        EscrowParticipantView {
            address: self.address@,
            amount_owed: self.amount_owed as int,
            amount_paid: self.amount_paid as int,
            paid_at: self.paid_at,
        }
    }
}

impl EscrowParticipantView {
    /// Nothing negative is owed or paid, and no more is paid than owed.
    pub open spec fn is_valid(self) -> bool {
        0 <= self.amount_paid <= self.amount_owed
    }
}

impl EscrowParticipant {
    /// A participant who owes `amount_owed` and has paid nothing.
    pub fn new(address: Address, amount_owed: i128) -> (p: EscrowParticipant)
        ensures
            p@ == (EscrowParticipantView {
                address: address@,
                amount_owed: amount_owed as int,
                amount_paid: 0,
                paid_at: None,
            }),
    {
        EscrowParticipant { address, amount_owed, amount_paid: 0, paid_at: None }
    }

    /// Accepts the record where nothing negative is owed or paid and no more is
    /// paid than owed.
    pub fn validate(&self) -> (r: Result<(), Error>)
        ensures
            match r {
                Ok(_) => self@.is_valid(),
                Err(e) => !self@.is_valid() && e == Error::InvalidState,
            },
    {
        if 0 <= self.amount_paid && self.amount_paid <= self.amount_owed {
            Ok(())
        } else {
            Err(Error::InvalidState)
        }
    }

    /// Whether the participant has paid all that it owes.
    pub fn has_fully_paid(&self) -> (r: bool)
        ensures
            r == (self@.amount_paid >= self@.amount_owed),
    {
        self.amount_paid >= self.amount_owed
    }

    /// What the participant still owes. The difference must fit in an `i128`,
    /// as it does for every valid participant.
    pub fn remaining_owed(&self) -> (r: i128)
        requires
            i128::MIN <= self@.amount_owed - self@.amount_paid <= i128::MAX,
        ensures
            r == self@.amount_owed - self@.amount_paid,
    {
        self.amount_owed - self.amount_paid
    }
}

/// The views of a list of escrow participants, in order.
pub open spec fn escrow_participant_views(ps: Seq<EscrowParticipant>) -> Seq<
    EscrowParticipantView,
> {
    ps.map_values(|p: EscrowParticipant| p@)
}

/// A bill shared between participants that has to be funded by a deadline.
#[derive(Debug)]
pub struct SplitEscrow {
    pub split_id: String,
    pub creator: Address,
    pub description: String,
    pub total_amount: i128,
    pub amount_collected: i128,
    pub participants: Vec<EscrowParticipant>,
    pub status: EscrowStatus,
    pub deadline: u64,
    pub created_at: u64,
}

/// An escrow as a mathematical value.
pub struct SplitEscrowView {
    pub split_id: Seq<char>,
    pub creator: Seq<char>,
    pub description: Seq<char>,
    pub total_amount: int,
    pub amount_collected: int,
    pub participants: Seq<EscrowParticipantView>,
    pub status: EscrowStatus,
    pub deadline: u64,
    pub created_at: u64,
}

impl View for SplitEscrow {
    type V = SplitEscrowView;

    open spec fn view(&self) -> SplitEscrowView {
        SplitEscrowView {
            split_id: self.split_id@,
            creator: self.creator@,
            description: self.description@,
            total_amount: self.total_amount as int,
            amount_collected: self.amount_collected as int,
            participants: escrow_participant_views(self.participants@),
            status: self.status,
            deadline: self.deadline,
            created_at: self.created_at,
        }
    }
}

impl SplitEscrowView {
    /// Nothing negative was collected, no more was collected than the total,
    /// and every participant is valid.
    pub open spec fn is_valid(self) -> bool {
        &&& 0 <= self.amount_collected <= self.total_amount
        &&& forall|i: int|
            0 <= i < self.participants.len() ==> (#[trigger] self.participants[i]).is_valid()
    }

    /// Whether the deadline has passed at time `now`.
    pub open spec fn is_expired(self, now: u64) -> bool {
        now > self.deadline
    }
}

impl SplitEscrow {
    /// Accepts the escrow where nothing negative was collected, no more was
    /// collected than the total, and every participant is valid.
    pub fn validate(&self) -> (r: Result<(), Error>)
        ensures
            match r {
                Ok(_) => self@.is_valid(),
                Err(e) => !self@.is_valid() && e == Error::InvalidState,
            },
    {
        if !(0 <= self.amount_collected && self.amount_collected <= self.total_amount) {
            return Err(Error::InvalidState);
        }
        let n = self.participants.len();
        let mut i: usize = 0;
        while i < n
            invariant
                0 <= i <= n,
                n == self.participants.len(),
                forall|j: int| 0 <= j < i ==> (#[trigger] self@.participants[j]).is_valid(),
            decreases n - i,
        {
            assert(self@.participants[i as int] == self.participants[i as int]@);
            if self.participants[i].validate().is_err() {
                return Err(Error::InvalidState);
            }
            i += 1;
        }
        Ok(())
    }

    /// Whether the deadline has passed at time `now`. At the deadline itself the
    /// escrow is still open.
    pub fn is_expired(&self, now: u64) -> (r: bool)
        ensures
            r == self@.is_expired(now),
    {
        now > self.deadline
    }

    /// Whether as much was collected as the escrow asks for.
    pub fn is_fully_funded(&self) -> (r: bool)
        ensures
            r == (self@.amount_collected >= self@.total_amount),
    {
        self.amount_collected >= self.total_amount
    }

    /// What is still missing to the total. The difference must fit in an
    /// `i128`, as it does for every valid escrow.
    pub fn remaining_amount(&self) -> (r: i128)
        requires
            i128::MIN <= self@.total_amount - self@.amount_collected <= i128::MAX,
        ensures
            r == self@.total_amount - self@.amount_collected,
    {
        self.total_amount - self.amount_collected
    }
}

/// A new escrow, created at time `created_at`: active, with nothing collected.
pub fn create_escrow(
    split_id: String,
    creator: Address,
    description: String,
    total_amount: i128,
    participants: Vec<EscrowParticipant>,
    deadline: u64,
    created_at: u64,
) -> (e: SplitEscrow)
    ensures
        e@ == (SplitEscrowView {
            split_id: split_id@,
            creator: creator@,
            description: description@,
            total_amount: total_amount as int,
            amount_collected: 0,
            participants: escrow_participant_views(participants@),
            status: EscrowStatus::Active,
            deadline,
            created_at,
        }),
{
    SplitEscrow {
        split_id,
        creator,
        description,
        total_amount,
        amount_collected: 0,
        participants,
        status: EscrowStatus::Active,
        deadline,
        created_at,
    }
}

} // verus!
