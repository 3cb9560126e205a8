//! The parties of the ledger.

use vstd::prelude::*;

verus! {

/// An account or contract on the ledger, identified by its textual key.
///
/// Two addresses denote the same party exactly when their keys hold the same
/// characters; the view of an address is that sequence of characters.
#[derive(Debug)]
pub struct Address {
    pub strkey: String,
}

impl View for Address {
    type V = Seq<char>;

    open spec fn view(&self) -> Seq<char> {
        self.strkey@
    }
}

impl Address {
    /// The address with the given textual key.
    pub fn new(strkey: &str) -> (a: Address)
        ensures
            a@ == strkey@,
    {
        Address { strkey: String::from_str(strkey) }
    }

    /// The textual key of this address.
    pub fn as_str(&self) -> (s: &str)
        ensures
            s@ == self@,
    {
        self.strkey.as_str()
    }

    /// Whether both addresses denote the same party.
    pub fn same_as(&self, other: &Address) -> (r: bool)
        ensures
            r == (self@ == other@),
    {
        self.strkey == other.strkey
    }
}

impl Clone for Address {
    fn clone(&self) -> (a: Address)
        ensures
            a == *self,
    {
        Address { strkey: self.strkey.clone() }
    }
}

impl PartialEq for Address {
    fn eq(&self, other: &Address) -> (r: bool) {
        self.strkey == other.strkey
    }
}

impl vstd::std_specs::cmp::PartialEqSpecImpl for Address {
    open spec fn obeys_eq_spec() -> bool {
        true
    }

    open spec fn eq_spec(&self, other: &Address) -> bool {
        self@ == other@
    }
}

impl Eq for Address {}

} // verus!
