//! Token amounts.
use vstd::prelude::*;
use crate::bytes::{bytes_eq, copy_bytes};

verus! {

/// Name of a token denomination. The native denomination has the empty name.
#[derive(Debug, PartialEq, Eq)]
pub struct Denomination(pub Vec<u8>);

impl View for Denomination {
    type V = Seq<u8>;

    open spec fn view(&self) -> Seq<u8> {
        self.0@
    }
}

impl Denomination {
    /// The native denomination.
    pub fn native() -> (denomination: Denomination)
        ensures
            denomination@ == Seq::<u8>::empty(),
    {
        Denomination(Vec::new())
    }

    /// The denomination with the given name.
    pub fn from_bytes(name: &[u8]) -> (denomination: Denomination)
        ensures
            denomination@ == name@,
    {
        Denomination(copy_bytes(name))
    }

    /// Whether this is the native denomination.
    pub fn is_native(&self) -> (native: bool)
        ensures
            native == (self@.len() == 0),
    {
        self.0.len() == 0
    }

    /// Whether two denominations have the same name.
    pub fn same(&self, other: &Denomination) -> (equal: bool)
        ensures
            equal == (self@ == other@),
    {
        bytes_eq(self.0.as_slice(), other.0.as_slice())
    }

    /// A denomination with the same name.
    pub fn duplicate(&self) -> (copy: Denomination)
        ensures
            copy@ == self@,
    {
        Denomination(copy_bytes(self.0.as_slice()))
    }
}

/// An amount of tokens of one denomination.
#[derive(Debug, PartialEq, Eq)]
pub struct BaseUnits(pub u128, pub Denomination);

impl View for BaseUnits {
    type V = (u128, Seq<u8>);

    open spec fn view(&self) -> (u128, Seq<u8>) {
        (self.0, self.1@)
    }
}

/// What a list of amounts holds.
pub open spec fn tokens_view(tokens: Seq<BaseUnits>) -> Seq<(u128, Seq<u8>)> {
    Seq::new(tokens.len(), |i: int| tokens[i]@)
}

impl BaseUnits {
    /// An amount of the given denomination.
    pub fn new(amount: u128, denomination: Denomination) -> (units: BaseUnits)
        ensures
            units.0 == amount,
            units.1 == denomination,
    {
        BaseUnits(amount, denomination)
    }

    /// The amount.
    pub fn amount(&self) -> (amount: u128)
        ensures
            amount == self.0,
    {
        self.0
    }

    /// The denomination.
    pub fn denomination(&self) -> (denomination: &Denomination)
        ensures
            denomination == self.1,
    {
        &self.1
    }

    /// The same amount of the same denomination.
    pub fn duplicate(&self) -> (copy: BaseUnits)
        ensures
            copy.0 == self.0,
            copy.1@ == self.1@,
    {
        BaseUnits(self.0, self.1.duplicate())
    }
}

} // verus!
