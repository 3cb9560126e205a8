//! Verification: evidence that is submitted for a split and decided by an
//! oracle, and the reading of split ids out of text.

use crate::address::Address;
use crate::error::Error;
use vstd::prelude::*;
use vstd::string::StringExecFns;

verus! {

/// Where a verification request stands.
#[derive(Debug, Clone, Copy, PartialEq, Eq, Structural)]
pub enum VerificationStatus {
    /// Waiting for an oracle.
    Pending,
    /// An oracle accepted the evidence. Final.
    Verified,
    /// An oracle turned the evidence down. Final.
    Rejected,
}

/// The reason that is attached to every rejected request.
pub open spec fn rejection_reason() -> Seq<char> {
    "Evidence insufficient"@
}

/// The value of a decimal digit; `None` for any other character.
pub open spec fn digit_value(c: char) -> Option<nat> {
    if c == '0' {
        Some(0)
    } else if c == '1' {
        Some(1)
    } else if c == '2' {
        Some(2)
    } else if c == '3' {
        Some(3)
    } else if c == '4' {
        Some(4)
    } else if c == '5' {
        Some(5)
    } else if c == '6' {
        Some(6)
    } else if c == '7' {
        Some(7)
    } else if c == '8' {
        Some(8)
    } else if c == '9' {
        Some(9)
    } else {
        None
    }
}

/// The number that the decimal digits of `text` spell when every other
/// character is left out; 0 where there is no digit.
pub open spec fn digits_value(text: Seq<char>) -> nat
    decreases text.len(),
{
    if text.len() == 0 {
        0
    } else {
        let rest = digits_value(text.drop_last());
        match digit_value(text.last()) {
            Some(d) => rest * 10 + d,
            None => rest,
        }
    }
}

/// The split id that `text` names, if it is one: the number spelled by its
/// digits, where that fits in a `u64`.
pub open spec fn split_id_of(text: Seq<char>) -> Option<u64> {
    if digits_value(text) <= u64::MAX {
        Some(digits_value(text) as u64)
    } else {
        None
    }
}

/// The digits of a longer text spell no smaller a number.
pub proof fn lemma_digits_value_grows(text: Seq<char>, k: int)
    requires
        0 <= k <= text.len(),
    ensures
        digits_value(text.take(k)) <= digits_value(text),
    decreases text.len(),
{
    if k == text.len() {
        assert(text.take(k) =~= text);
    } else {
        lemma_digits_value_grows(text.drop_last(), k);
        assert(text.drop_last().take(k) =~= text.take(k));
    }
}

/// The value of a decimal digit; `None` for any other character.
pub fn digit_of(c: char) -> (r: Option<u64>)
    ensures
        match r {
            Some(d) => digit_value(c) == Some(d as nat),
            None => digit_value(c) is None,
        },
{
    match c {
        '0' => Some(0),
        '1' => Some(1),
        '2' => Some(2),
        '3' => Some(3),
        '4' => Some(4),
        '5' => Some(5),
        '6' => Some(6),
        '7' => Some(7),
        '8' => Some(8),
        '9' => Some(9),
        _ => None,
    }
}

/// Reads a split id out of `text`: the digits are taken in order as a decimal
/// number, and every other character is passed over. `None` says that the number
/// does not fit in a `u64`, so that it is the id of no split.
pub fn parse_split_id(text: &str) -> (r: Option<u64>)
    ensures
        r == split_id_of(text@),
{
    let n = text.unicode_len();
    let mut value: u64 = 0;
    let mut i: usize = 0;
    while i < n
        invariant
            0 <= i <= n,
            n == text@.len(),
            value == digits_value(text@.take(i as int)),
        decreases n - i,
    {
        let c = text.get_char(i);
        proof {
            assert(text@.take(i + 1).drop_last() =~= text@.take(i as int));
            lemma_digits_value_grows(text@, i + 1);
        }
        match digit_of(c) {
            Some(d) => {
                let next = match value.checked_mul(10) {
                    Some(shifted) => shifted.checked_add(d),
                    None => None,
                };
                match next {
                    Some(next) => {
                        value = next;
                    },
                    None => {
                        return None;
                    },
                }
            },
            None => {},
        }
        i += 1;
    }
    assert(text@.take(n as int) =~= text@);
    Some(value)
}

/// Whether `text` is a decimal number: digits, one at least, and nothing else.
pub open spec fn is_decimal(text: Seq<char>) -> bool {
    text.len() > 0 && forall|i: int| 0 <= i < text.len() ==> digit_value(#[trigger] text[i]) is Some
}

/// The verification id that `text` names, if it names one: `text` is a decimal
/// number that fits in a `u64`.
pub open spec fn verification_id_of(text: Seq<char>) -> Option<u64> {
    if is_decimal(text) && digits_value(text) <= u64::MAX {
        Some(digits_value(text) as u64)
    } else {
        None
    }
}

/// Reads a verification id out of `text`, which must be a decimal number and
/// nothing else. `None` says that `text` names no id.
pub fn parse_verification_id(text: &str) -> (r: Option<u64>)
    ensures
        r == verification_id_of(text@),
{
    let n = text.unicode_len();
    if n == 0 {
        return None;
    }
    let mut value: u64 = 0;
    let mut i: usize = 0;
    while i < n
        invariant
            0 <= i <= n,
            n == text@.len(),
            value == digits_value(text@.take(i as int)),
            forall|j: int| 0 <= j < i ==> digit_value(#[trigger] text@[j]) is Some,
        decreases n - i,
    {
        let c = text.get_char(i);
        proof {
            assert(text@.take(i + 1).drop_last() =~= text@.take(i as int));
            lemma_digits_value_grows(text@, i + 1);
        }
        let digit = match digit_of(c) {
            Some(digit) => digit,
            None => {
                return None;
            },
        };
        let next = match value.checked_mul(10) {
            Some(shifted) => shifted.checked_add(digit),
            None => None,
        };
        match next {
            Some(next) => {
                value = next;
            },
            None => {
                return None;
            },
        }
        i += 1;
    }
    assert(text@.take(n as int) =~= text@);
    Some(value)
}

/// Evidence submitted for a split, and what an oracle made of it.
#[derive(Debug)]
pub struct VerificationRequest {
    pub verification_id: u64,
    pub split_id: String,
    pub requester: Address,
    pub receipt_hash: String,
    pub evidence_url: Option<String>,
    pub submitted_at: u64,
    pub status: VerificationStatus,
    pub verified_by: Option<Address>,
    pub verified_at: Option<u64>,
    pub rejection_reason: Option<String>,
}

/// A verification request as a mathematical value.
pub struct VerificationRequestView {
    pub verification_id: u64,
    pub split_id: Seq<char>,
    pub requester: Seq<char>,
    pub receipt_hash: Seq<char>,
    pub evidence_url: Option<Seq<char>>,
    pub submitted_at: u64,
    pub status: VerificationStatus,
    pub verified_by: Option<Seq<char>>,
    pub verified_at: Option<u64>,
    pub rejection_reason: Option<Seq<char>>,
}

impl View for VerificationRequest {
    type V = VerificationRequestView;

    open spec fn view(&self) -> VerificationRequestView {
        VerificationRequestView {
            verification_id: self.verification_id,
            split_id: self.split_id@,
            requester: self.requester@,
            receipt_hash: self.receipt_hash@,
            evidence_url: match self.evidence_url {
                Some(url) => Some(url@),
                None => None,
            },
            submitted_at: self.submitted_at,
            status: self.status,
            verified_by: match self.verified_by {
                Some(oracle) => Some(oracle@),
                None => None,
            },
            verified_at: self.verified_at,
            rejection_reason: match self.rejection_reason {
                Some(reason) => Some(reason@),
                None => None,
            },
        }
    }
}

impl VerificationRequestView {
    /// The request as it is when it has just been submitted.
    pub open spec fn submitted(
        verification_id: u64,
        split_id: Seq<char>,
        requester: Seq<char>,
        receipt_hash: Seq<char>,
        submitted_at: u64,
    ) -> VerificationRequestView {
        VerificationRequestView {
            verification_id,
            split_id,
            requester,
            receipt_hash,
            evidence_url: None,
            submitted_at,
            status: VerificationStatus::Pending,
            verified_by: None,
            verified_at: None,
            rejection_reason: None,
        }
    }

    /// Whether the request is for the split named `text` and waits for a decision.
    pub open spec fn is_pending_for(self, text: Seq<char>) -> bool {
        self.split_id == text && self.status == VerificationStatus::Pending
    }

    /// When the request was decided; 0 where no time is recorded.
    pub open spec fn decided_at(self) -> u64 {
        match self.verified_at {
            Some(at) => at,
            None => 0,
        }
    }

    /// Whether the request is for the split named `text` and has been decided.
    pub open spec fn is_decided_for(self, text: Seq<char>) -> bool {
        self.split_id == text && self.status != VerificationStatus::Pending
    }

    /// Why the request cannot be decided, if that is so: a decision is made once.
    pub open spec fn decision_error(self) -> Option<Error> {
        if self.status != VerificationStatus::Pending {
            Some(Error::InvalidVerificationStatus)
        } else {
            None
        }
    }

    /// The request after `oracle` decided it at time `now`.
    pub open spec fn after_decision(
        self,
        oracle: Seq<char>,
        verified: bool,
        now: u64,
    ) -> VerificationRequestView {
        VerificationRequestView {
            status: if verified {
                VerificationStatus::Verified
            } else {
                VerificationStatus::Rejected
            },
            verified_by: Some(oracle),
            verified_at: Some(now),
            rejection_reason: if verified {
                self.rejection_reason
            } else {
                Some(rejection_reason())
            },
            ..self
        }
    }
}

/// The views of a list of requests, in order.
pub open spec fn request_views(requests: Seq<VerificationRequest>) -> Seq<VerificationRequestView> {
    requests.map_values(|r: VerificationRequest| r@)
}

/// The decision that counts among `requests` for the split named `text`, with
/// its time; `None` where no request for that split has been decided. The
/// requests are gone through in order: the first decided request for the split
/// counts, until one that was decided at a later time takes over.
pub open spec fn latest_decision(requests: Seq<VerificationRequestView>, text: Seq<char>) -> Option<
    (VerificationStatus, u64),
>
    decreases requests.len(),
{
    if requests.len() == 0 {
        None
    } else {
        let so_far = latest_decision(requests.drop_last(), text);
        let r = requests.last();
        if r.is_decided_for(text) && (so_far matches Some(d) ==> r.decided_at() > d.1) {
            Some((r.status, r.decided_at()))
        } else {
            so_far
        }
    }
}

/// The status that a decision stands for: its own, and pending where there is none.
pub open spec fn status_of(decision: Option<(VerificationStatus, u64)>) -> VerificationStatus {
    match decision {
        Some(d) => d.0,
        None => VerificationStatus::Pending,
    }
}

/// Whether a request among `requests` waits for a decision on the split named `text`.
pub open spec fn has_pending_for(requests: Seq<VerificationRequestView>, text: Seq<char>) -> bool {
    exists|i: int| 0 <= i < requests.len() && (#[trigger] requests[i]).is_pending_for(text)
}

impl VerificationRequest {
    /// The request `verification_id` that `requester` submits at time
    /// `submitted_at` for the split named `split_id`.
    pub fn new(
        verification_id: u64,
        split_id: String,
        requester: Address,
        receipt_hash: String,
        submitted_at: u64,
    ) -> (r: VerificationRequest)
        ensures
            r@ == VerificationRequestView::submitted(
                verification_id,
                split_id@,
                requester@,
                receipt_hash@,
                submitted_at,
            ),
    {
        VerificationRequest {
            verification_id,
            split_id,
            requester,
            receipt_hash,
            evidence_url: None,
            submitted_at,
            status: VerificationStatus::Pending,
            verified_by: None,
            verified_at: None,
            rejection_reason: None,
        }
    }

    /// Records the decision of `oracle` at time `now`. Only a pending request can
    /// be decided. A rejection carries the one reason that the library knows.
    pub fn decide(&mut self, oracle: &Address, verified: bool, now: u64) -> (r: Result<(), Error>)
        ensures
            match r {
                Ok(_) => {
                    &&& old(self)@.decision_error() is None
                    &&& final(self)@ == old(self)@.after_decision(oracle@, verified, now)
                },
                Err(e) => {
                    &&& old(self)@.decision_error() == Some(e)
                    &&& *final(self) == *old(self)
                },
            },
    {
        match self.status {
            VerificationStatus::Pending => {},
            _ => {
                return Err(Error::InvalidVerificationStatus);
            },
        }
        self.status = if verified {
            VerificationStatus::Verified
        } else {
            VerificationStatus::Rejected
        };
        self.verified_by = Some(oracle.clone());
        self.verified_at = Some(now);
        if !verified {
            self.rejection_reason = Some(String::from_str("Evidence insufficient"));
        }
        Ok(())
    }
}

/// Whether a request among `requests` waits for a decision on the split named
/// `split_id`.
pub fn find_pending(requests: &Vec<VerificationRequest>, split_id: &String) -> (r: bool)
    ensures
        r == has_pending_for(request_views(requests@), split_id@),
{
    let ghost views = request_views(requests@);
    let n = requests.len();
    let mut i: usize = 0;
    while i < n
        invariant
            0 <= i <= n,
            n == requests.len(),
            views == request_views(requests@),
            forall|j: int| 0 <= j < i ==> !(#[trigger] views[j]).is_pending_for(split_id@),
        decreases n - i,
    {
        let r = &requests[i];
        assert(views[i as int] == r@);
        let pending = match r.status {
            VerificationStatus::Pending => true,
            _ => false,
        };
        if pending && r.split_id == *split_id {
            return true;
        }
        i += 1;
    }
    false
}

/// The verification status of the split named `split_id`: that of the request
/// for it that was decided last, and pending where none was decided. Of
/// requests decided at the same time the one submitted first counts.
pub fn settled_status(requests: &Vec<VerificationRequest>, split_id: &String) -> (r:
    VerificationStatus)
    ensures
        r == status_of(latest_decision(request_views(requests@), split_id@)),
{
    let ghost views = request_views(requests@);
    let n = requests.len();
    let mut latest: Option<(VerificationStatus, u64)> = None;
    let mut i: usize = 0;
    while i < n
        invariant
            0 <= i <= n,
            n == requests.len(),
            views == request_views(requests@),
            latest == latest_decision(views.take(i as int), split_id@),
        decreases n - i,
    {
        let r = &requests[i];
        proof {
            assert(views.take(i + 1).drop_last() =~= views.take(i as int));
        }
        let decided = match r.status {
            VerificationStatus::Pending => false,
            _ => true,
        };
        if decided && r.split_id == *split_id {
            let at = match r.verified_at {
                Some(at) => at,
                None => 0,
            };
            let takes_over = match latest {
                Some(d) => at > d.1,
                None => true,
            };
            if takes_over {
                latest = Some((r.status, at));
            }
        }
        i += 1;
    }
    assert(views.take(n as int) =~= views);
    match latest {
        Some(d) => d.0,
        None => VerificationStatus::Pending,
    }
}

/// Who may decide verification requests.
#[derive(Debug)]
pub struct OracleConfig {
    pub oracle_addresses: Vec<Address>,
}

impl View for OracleConfig {
    type V = Seq<Seq<char>>;

    open spec fn view(&self) -> Seq<Seq<char>> {
        self.oracle_addresses@.map_values(|a: Address| a@)
    }
}

impl OracleConfig {
    /// Whether `who` is one of the oracles.
    pub fn is_oracle(&self, who: &Address) -> (r: bool)
        ensures
            r == self@.contains(who@),
    {
        let n = self.oracle_addresses.len();
        let mut i: usize = 0;
        while i < n
            invariant
                0 <= i <= n,
                n == self.oracle_addresses.len(),
                forall|j: int| 0 <= j < i ==> self@[j] != who@,
            decreases n - i,
        {
            if self.oracle_addresses[i].same_as(who) {
                assert(self@[i as int] == who@);
                return true;
            }
            i += 1;
        }
        false
    }
}

} // verus!
