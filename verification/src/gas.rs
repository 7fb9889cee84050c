//! Gas metering of one transaction.
use vstd::prelude::*;
use crate::CoreError;

verus! {

/// `a * b`, or the largest value where the product does not fit.
pub open spec fn spec_saturating_mul(a: u64, b: u64) -> u64 {
    if a * b > u64::MAX {
        u64::MAX
    } else {
        (a * b) as u64
    }
}

/// `a * b`, or the largest value where the product does not fit.
pub fn saturating_mul(a: u64, b: u64) -> (product: u64)
    ensures
        product == spec_saturating_mul(a, b),
{
    match a.checked_mul(b) {
        Some(product) => product,
        None => u64::MAX,
    }
}

/// The gas counter of a transaction: a limit and what was used of it.
#[derive(Clone, Copy, Debug, PartialEq, Eq)]
pub struct GasMeter {
    limit: u64,
    used: u64,
}

impl GasMeter {
    #[verifier::type_invariant]
    spec fn well_formed(self) -> bool {
        self.used <= self.limit
    }

    /// The most gas that the transaction may use.
    pub closed spec fn limit(self) -> u64 {
        self.limit
    }

    /// The gas used so far.
    pub closed spec fn used(self) -> u64 {
        self.used
    }

    /// The gas that is left.
    pub open spec fn remaining(self) -> int {
        if self.used() <= self.limit() {
            self.limit() - self.used()
        } else {
            0
        }
    }

    /// A meter with nothing used.
    pub fn new(limit: u64) -> (meter: GasMeter)
        ensures
            meter.limit() == limit,
            meter.used() == 0,
    {
        GasMeter { limit, used: 0 }
    }

    /// The most gas that the transaction may use.
    pub fn gas_limit(&self) -> (limit: u64)
        ensures
            limit == self.limit(),
    {
        self.limit
    }

    /// The gas used so far.
    pub fn gas_used(&self) -> (used: u64)
        ensures
            used == self.used(),
            used <= self.limit(),
    {
        proof {
            use_type_invariant(self);
        }
        self.used
    }

    /// The gas that is left.
    pub fn remaining_gas(&self) -> (left: u64)
        ensures
            left == self.remaining(),
    {
        proof {
            use_type_invariant(self);
        }
        self.limit - self.used
    }

    /// Charges `amount`. Where more is asked than is left, nothing is
    /// charged and the transaction is out of gas.
    pub fn use_gas(&mut self, amount: u64) -> (result: Result<(), CoreError>)
        ensures
            final(self).limit() == old(self).limit(),
            amount <= old(self).remaining() ==> result is Ok && final(self).used() == old(
                self,
            ).used() + amount,
            amount > old(self).remaining() ==> result == Err::<(), CoreError>(CoreError::OutOfGas)
                && final(self).used() == old(self).used(),
            final(self).used() <= final(self).limit(),
    {
        proof {
            use_type_invariant(&*self);
        }
        if amount > self.limit - self.used {
            return Err(CoreError::OutOfGas);
        }
        self.used = self.used + amount;
        Ok(())
    }
}

/// The sum of the given amounts.
pub open spec fn total_charged(amounts: Seq<u64>) -> int
    decreases amounts.len(),
{
    if amounts.len() == 0 {
        0
    } else {
        total_charged(amounts.drop_last()) + amounts.last()
    }
}

/// The gas used after the given amounts have been charged one after the
/// other to a meter with the given use and limit, or `None` where one of the
/// charges asks for more than is left.
pub open spec fn used_after(used: int, limit: int, amounts: Seq<u64>) -> Option<int>
    decreases amounts.len(),
{
    if amounts.len() == 0 {
        Some(used)
    } else {
        match used_after(used, limit, amounts.drop_last()) {
            None => None,
            Some(so_far) => if amounts.last() <= limit - so_far {
                Some(so_far + amounts.last())
            } else {
                None
            },
        }
    }
}

/// Gas is charged once: a run of charges succeeds exactly where the sum of
/// the amounts is left, and then uses up exactly that sum.
pub proof fn lemma_charges_add_up(used: int, limit: int, amounts: Seq<u64>)
    requires
        0 <= used <= limit,
    ensures
        used + total_charged(amounts) <= limit <==> used_after(used, limit, amounts) is Some,
        used_after(used, limit, amounts) matches Some(after) ==> after == used + total_charged(
            amounts,
        ),
        total_charged(amounts) >= 0,
    decreases amounts.len(),
{
    if amounts.len() > 0 {
        lemma_charges_add_up(used, limit, amounts.drop_last());
    }
}

} // verus!
