//! Token balances of accounts.
use vstd::prelude::*;
use crate::address::Address;
use crate::bytes::{
    append_bytes, be_bytes_wide, be_value_wide, from_be_bytes_wide, lemma_be_bytes_wide_value,
    lemma_be_value_wide_bounds, to_be_bytes_wide,
};
use crate::context::Context;
use crate::module::same_but_gas_and_state;
use crate::store::Store;
use crate::token::{BaseUnits, Denomination};

verus! {

/// Errors of the accounts ledger.
#[derive(Clone, Copy, Debug, PartialEq, Eq, Structural)]
pub enum Error {
    /// An amount does not fit with what the account holds already.
    InvalidArgument,
    /// The account holds less than is asked of it.
    InsufficientBalance,
}

/// The key under which the balance of an account in a denomination is kept:
/// the address, then the denomination's name.
pub open spec fn balance_key(address: Seq<u8>, denomination: Seq<u8>) -> Seq<u8> {
    address + denomination
}

/// Different accounts or denominations have different keys, as long as all
/// addresses have one length.
pub proof fn lemma_balance_key_injective(a1: Seq<u8>, d1: Seq<u8>, a2: Seq<u8>, d2: Seq<u8>)
    requires
        a1.len() == a2.len(),
        balance_key(a1, d1) == balance_key(a2, d2),
    ensures
        a1 == a2,
        d1 == d2,
{
    let k1 = balance_key(a1, d1);
    let k2 = balance_key(a2, d2);
    assert(a1 =~= k1.take(a1.len() as int));
    assert(a2 =~= k2.take(a1.len() as int));
    assert(d1 =~= k1.skip(a1.len() as int));
    assert(d2 =~= k2.skip(a1.len() as int));
}

/// What a [`Ledger`] holds.
pub struct LedgerView {
    /// Balances by [`balance_key`], each written as sixteen bytes.
    pub balances: Map<Seq<u8>, Seq<u8>>,
    /// Total supplies by denomination, each written as sixteen bytes.
    pub total_supplies: Map<Seq<u8>, Seq<u8>>,
}

impl LedgerView {
    /// What `address` holds of `denomination`; nothing where no balance is
    /// kept.
    pub open spec fn balance(self, address: Seq<u8>, denomination: Seq<u8>) -> int {
        let key = balance_key(address, denomination);
        if self.balances.contains_key(key) {
            be_value_wide(self.balances[key])
        } else {
            0
        }
    }

    /// A balance fits in 128 bits.
    pub proof fn lemma_balance_bounds(self, address: Seq<u8>, denomination: Seq<u8>)
        ensures
            0 <= self.balance(address, denomination) <= u128::MAX,
    {
        let key = balance_key(address, denomination);
        if self.balances.contains_key(key) {
            lemma_be_value_wide_bounds(self.balances[key]);
        }
    }

    /// Whether a balance of `address` in `denomination` is kept.
    pub open spec fn keeps(self, address: Seq<u8>, denomination: Seq<u8>) -> bool {
        self.balances.contains_key(balance_key(address, denomination))
    }

    /// The total supply of `denomination`; nothing where none is kept.
    pub open spec fn total_supply(self, denomination: Seq<u8>) -> int {
        if self.total_supplies.contains_key(denomination) {
            be_value_wide(self.total_supplies[denomination])
        } else {
            0
        }
    }

    /// The ledger in which `address` holds `amount` of `denomination` and
    /// nothing else is changed.
    pub open spec fn with_balance(self, address: Seq<u8>, denomination: Seq<u8>, amount: u128)
        -> LedgerView {
        LedgerView {
            balances: self.balances.insert(
                balance_key(address, denomination),
                be_bytes_wide(amount),
            ),
            total_supplies: self.total_supplies,
        }
    }

    /// The ledger in which the total supply of `denomination` is `amount`.
    pub open spec fn with_total_supply(self, denomination: Seq<u8>, amount: u128) -> LedgerView {
        LedgerView {
            balances: self.balances,
            total_supplies: self.total_supplies.insert(denomination, be_bytes_wide(amount)),
        }
    }

    /// Whether `from` holds enough to give `amount` of `denomination`.
    pub open spec fn can_give(self, from: Seq<u8>, denomination: Seq<u8>, amount: u128) -> bool {
        self.balance(from, denomination) >= amount
    }

    /// The ledger after `amount` has been taken from `from`.
    pub open spec fn after_taking(self, from: Seq<u8>, denomination: Seq<u8>, amount: u128)
        -> LedgerView
        recommends
            self.can_give(from, denomination, amount),
    {
        self.with_balance(
            from,
            denomination,
            (self.balance(from, denomination) - amount) as u128,
        )
    }

    /// Whether `to` can take `amount` of `denomination` on top of what it
    /// holds.
    pub open spec fn can_take(self, to: Seq<u8>, denomination: Seq<u8>, amount: u128) -> bool {
        self.balance(to, denomination) + amount <= u128::MAX
    }

    /// The ledger after `amount` has been given to `to`.
    pub open spec fn after_giving(self, to: Seq<u8>, denomination: Seq<u8>, amount: u128)
        -> LedgerView
        recommends
            self.can_take(to, denomination, amount),
    {
        self.with_balance(to, denomination, (self.balance(to, denomination) + amount) as u128)
    }

    /// How a transfer ends: it fails where `from` holds too little, and
    /// where `to` cannot hold the amount on top of its balance.
    pub open spec fn transfer_result(
        self,
        from: Seq<u8>,
        to: Seq<u8>,
        denomination: Seq<u8>,
        amount: u128,
    ) -> Result<(), Error> {
        if !self.can_give(from, denomination, amount) {
            Err(Error::InsufficientBalance)
        } else if !self.after_taking(from, denomination, amount).can_take(
            to,
            denomination,
            amount,
        ) {
            Err(Error::InvalidArgument)
        } else {
            Ok(())
        }
    }

    /// The ledger that a transfer leaves: unchanged where `from` holds too
    /// little, with the amount taken where `to` cannot hold it, and with the
    /// amount moved otherwise.
    pub open spec fn after_transfer(
        self,
        from: Seq<u8>,
        to: Seq<u8>,
        denomination: Seq<u8>,
        amount: u128,
    ) -> LedgerView {
        if !self.can_give(from, denomination, amount) {
            self
        } else {
            let taken = self.after_taking(from, denomination, amount);
            if !taken.can_take(to, denomination, amount) {
                taken
            } else {
                taken.after_giving(to, denomination, amount)
            }
        }
    }
}

/// Setting one balance changes that balance and no other.
pub proof fn lemma_with_balance(
    ledger: LedgerView,
    address: Seq<u8>,
    denomination: Seq<u8>,
    amount: u128,
    other: Seq<u8>,
    other_denomination: Seq<u8>,
)
    requires
        address.len() == other.len(),
    ensures
        ledger.with_balance(address, denomination, amount).balance(address, denomination)
            == amount,
        (other != address || other_denomination != denomination) ==> ledger.with_balance(
            address,
            denomination,
            amount,
        ).balance(other, other_denomination) == ledger.balance(other, other_denomination),
{
    lemma_be_bytes_wide_value(amount);
    if other != address || other_denomination != denomination {
        if balance_key(other, other_denomination) == balance_key(address, denomination) {
            lemma_balance_key_injective(other, other_denomination, address, denomination);
        }
    }
}

/// A transfer between two different accounts that succeeds moves exactly
/// the amount: what the two hold together stays the same.
pub proof fn lemma_transfer_conserves(
    ledger: LedgerView,
    from: Seq<u8>,
    to: Seq<u8>,
    denomination: Seq<u8>,
    amount: u128,
)
    requires
        ledger.transfer_result(from, to, denomination, amount) is Ok,
        from.len() == to.len(),
        from != to,
    ensures
        ledger.after_transfer(from, to, denomination, amount).balance(from, denomination)
            == ledger.balance(from, denomination) - amount,
        ledger.after_transfer(from, to, denomination, amount).balance(to, denomination)
            == ledger.balance(to, denomination) + amount,
{
    ledger.lemma_balance_bounds(from, denomination);
    let taken = ledger.after_taking(from, denomination, amount);
    let taken_amount = (ledger.balance(from, denomination) - amount) as u128;
    lemma_with_balance(ledger, from, denomination, taken_amount, to, denomination);
    taken.lemma_balance_bounds(to, denomination);
    assert(taken.balance(to, denomination) == ledger.balance(to, denomination));
    assert(taken.can_take(to, denomination, amount));
    let given_amount = (taken.balance(to, denomination) + amount) as u128;
    lemma_with_balance(taken, to, denomination, given_amount, from, denomination);
}

/// The balances of one account.
#[derive(Debug, PartialEq, Eq)]
pub struct AccountBalances {
    pub balances: Vec<BaseUnits>,
}

/// Whether an amount of the denomination is in the list.
pub open spec fn lists(balances: Seq<BaseUnits>, denomination: Seq<u8>) -> bool {
    exists|k: int| 0 <= k < balances.len() && (#[trigger] balances[k]).1@ == denomination
}

/// Whether an amount of the denomination is in the list.
fn is_listed(balances: &Vec<BaseUnits>, denomination: &Denomination) -> (listed: bool)
    ensures
        listed == lists(balances@, denomination@),
{
    let mut i: usize = 0;
    while i < balances.len()
        invariant
            i <= balances.len(),
            forall|k: int| 0 <= k < i ==> (#[trigger] balances@[k]).1@ != denomination@,
        decreases balances.len() - i,
    {
        if balances[i].1.same(denomination) {
            return true;
        }
        i += 1;
    }
    false
}

impl AccountBalances {
    /// The amount of the denomination in the list, nothing where there is
    /// none.
    pub fn amount_of(&self, denomination: &Denomination) -> (amount: u128)
        ensures
            !lists(self.balances@, denomination@) ==> amount == 0,
            forall|k: int|
                0 <= k < self.balances@.len() && (#[trigger] self.balances@[k]).1@
                    == denomination@ && (forall|l: int|
                    0 <= l < k ==> (#[trigger] self.balances@[l]).1@ != denomination@)
                    ==> amount == self.balances@[k].0,
    {
        let mut i: usize = 0;
        while i < self.balances.len()
            invariant
                i <= self.balances.len(),
                forall|k: int| 0 <= k < i ==> (#[trigger] self.balances@[k]).1@ != denomination@,
            decreases self.balances.len() - i,
        {
            if self.balances[i].1.same(denomination) {
                return self.balances[i].0;
            }
            i += 1;
        }
        0
    }

    /// The number of denominations in the list.
    pub fn len(&self) -> (n: usize)
        ensures
            n == self.balances@.len(),
    {
        self.balances.len()
    }
}

/// The balances of all accounts and the total supply of each denomination.
pub struct Ledger {
    balances: Store,
    total_supplies: Store,
}

impl View for Ledger {
    type V = LedgerView;

    closed spec fn view(&self) -> LedgerView {
        LedgerView { balances: self.balances@, total_supplies: self.total_supplies@ }
    }
}

/// One balance of the genesis state.
#[derive(Debug, PartialEq, Eq)]
pub struct GenesisBalance {
    pub address: Address,
    pub amount: BaseUnits,
}

/// Genesis state of the ledger.
#[derive(Debug, PartialEq, Eq)]
pub struct Genesis {
    pub balances: Vec<GenesisBalance>,
    pub total_supplies: Vec<BaseUnits>,
}

/// The ledger after the given balances have been set, one after the other.
pub open spec fn with_balances(ledger: LedgerView, balances: Seq<GenesisBalance>) -> LedgerView
    decreases balances.len(),
{
    if balances.len() == 0 {
        ledger
    } else {
        with_balances(ledger, balances.drop_last()).with_balance(
            balances.last().address@,
            balances.last().amount.1@,
            balances.last().amount.0,
        )
    }
}

/// The ledger after the given total supplies have been set, one after the
/// other.
pub open spec fn with_total_supplies(ledger: LedgerView, supplies: Seq<BaseUnits>) -> LedgerView
    decreases supplies.len(),
{
    if supplies.len() == 0 {
        ledger
    } else {
        with_total_supplies(ledger, supplies.drop_last()).with_total_supply(
            supplies.last().1@,
            supplies.last().0,
        )
    }
}

fn make_balance_key(address: &Address, denomination: &Denomination) -> (key: Vec<u8>)
    ensures
        key@ == balance_key(address@, denomination@),
{
    let mut key = address.to_vec();
    append_bytes(&mut key, denomination.0.as_slice());
    key
}

impl Ledger {
    /// A ledger in which nobody holds anything.
    pub fn new() -> (ledger: Ledger)
        ensures
            ledger@.balances == Map::<Seq<u8>, Seq<u8>>::empty(),
            ledger@.total_supplies == Map::<Seq<u8>, Seq<u8>>::empty(),
    {
        Ledger { balances: Store::new(), total_supplies: Store::new() }
    }

    /// Sets the balances and total supplies of the genesis state.
    pub fn init(&mut self, genesis: &Genesis)
        ensures
            final(self)@ == with_total_supplies(
                with_balances(old(self)@, genesis.balances@),
                genesis.total_supplies@,
            ),
    {
        let mut i: usize = 0;
        while i < genesis.balances.len()
            invariant
                i <= genesis.balances.len(),
                self@ == with_balances(old(self)@, genesis.balances@.take(i as int)),
            decreases genesis.balances.len() - i,
        {
            let entry = &genesis.balances[i];
            proof {
                assert(genesis.balances@.take(i + 1).drop_last() =~= genesis.balances@.take(
                    i as int,
                ));
            }
            self.set_balance(&entry.address, &entry.amount.1, entry.amount.0);
            i += 1;
        }
        proof {
            assert(genesis.balances@.take(i as int) =~= genesis.balances@);
        }
        let ghost installed = self@;
        let mut j: usize = 0;
        while j < genesis.total_supplies.len()
            invariant
                j <= genesis.total_supplies.len(),
                self@ == with_total_supplies(installed, genesis.total_supplies@.take(j as int)),
            decreases genesis.total_supplies.len() - j,
        {
            let supply = &genesis.total_supplies[j];
            proof {
                assert(genesis.total_supplies@.take(j + 1).drop_last()
                    =~= genesis.total_supplies@.take(j as int));
            }
            self.set_total_supply(&supply.1, supply.0);
            j += 1;
        }
        proof {
            assert(genesis.total_supplies@.take(j as int) =~= genesis.total_supplies@);
        }
    }

    /// What `address` holds of `denomination`.
    pub fn get_balance(&self, address: &Address, denomination: &Denomination) -> (amount: u128)
        ensures
            amount == self@.balance(address@, denomination@),
    {
        let key = make_balance_key(address, denomination);
        match self.balances.get(key.as_slice()) {
            Some(bytes) => from_be_bytes_wide(bytes.as_slice()),
            None => 0,
        }
    }

    /// Sets what `address` holds of `denomination`.
    pub fn set_balance(&mut self, address: &Address, denomination: &Denomination, amount: u128)
        ensures
            final(self)@ == old(self)@.with_balance(address@, denomination@, amount),
    {
        let key = make_balance_key(address, denomination);
        let value = to_be_bytes_wide(amount);
        self.balances.insert(key.as_slice(), value.as_slice());
    }

    /// The total supply of `denomination`.
    pub fn get_total_supply(&self, denomination: &Denomination) -> (amount: u128)
        ensures
            amount == self@.total_supply(denomination@),
    {
        match self.total_supplies.get(denomination.0.as_slice()) {
            Some(bytes) => from_be_bytes_wide(bytes.as_slice()),
            None => 0,
        }
    }

    /// Sets the total supply of `denomination`.
    pub fn set_total_supply(&mut self, denomination: &Denomination, amount: u128)
        ensures
            final(self)@ == old(self)@.with_total_supply(denomination@, amount),
    {
        let value = to_be_bytes_wide(amount);
        self.total_supplies.insert(denomination.0.as_slice(), value.as_slice());
    }

    /// Gives `amount` to `to`; fails, with nothing changed, where the
    /// balance would not fit.
    pub fn add_amount(&mut self, to: &Address, amount: &BaseUnits) -> (result: Result<(), Error>)
        ensures
            old(self)@.can_take(to@, amount.1@, amount.0) ==> result is Ok && final(self)@ == old(
                self,
            )@.after_giving(to@, amount.1@, amount.0),
            !old(self)@.can_take(to@, amount.1@, amount.0) ==> result == Err::<(), Error>(
                Error::InvalidArgument,
            ) && final(self)@ == old(self)@,
    {
        let balance = self.get_balance(to, &amount.1);
        match balance.checked_add(amount.0) {
            Some(sum) => {
                self.set_balance(to, &amount.1, sum);
                Ok(())
            },
            None => Err(Error::InvalidArgument),
        }
    }

    /// Takes `amount` from `from`; fails, with nothing changed, where the
    /// account holds less.
    pub fn sub_amount(&mut self, from: &Address, amount: &BaseUnits) -> (result: Result<
        (),
        Error,
    >)
        ensures
            old(self)@.can_give(from@, amount.1@, amount.0) ==> result is Ok && final(self)@
                == old(self)@.after_taking(from@, amount.1@, amount.0),
            !old(self)@.can_give(from@, amount.1@, amount.0) ==> result == Err::<(), Error>(
                Error::InsufficientBalance,
            ) && final(self)@ == old(self)@,
    {
        let balance = self.get_balance(from, &amount.1);
        match balance.checked_sub(amount.0) {
            Some(rest) => {
                self.set_balance(from, &amount.1, rest);
                Ok(())
            },
            None => Err(Error::InsufficientBalance),
        }
    }

    /// Moves `amount` from `from` to `to`.
    pub fn transfer(&mut self, from: &Address, to: &Address, amount: &BaseUnits) -> (result:
        Result<(), Error>)
        ensures
            result == old(self)@.transfer_result(from@, to@, amount.1@, amount.0),
            final(self)@ == old(self)@.after_transfer(from@, to@, amount.1@, amount.0),
    {
        match self.sub_amount(from, amount) {
            Err(e) => {
                return Err(e);
            },
            Ok(()) => {},
        }
        match self.add_amount(to, amount) {
            Err(e) => Err(e),
            Ok(()) => Ok(()),
        }
    }

    /// What `address` holds, one amount for each denomination that a balance
    /// is kept of.
    pub fn get_balances(&self, address: &Address) -> (held: AccountBalances)
        ensures
            forall|k: int|
                0 <= k < held.balances@.len() ==> {
                    let units = #[trigger] held.balances@[k];
                    &&& self@.keeps(address@, units.1@)
                    &&& units.0 == self@.balance(address@, units.1@)
                },
            forall|denomination: Seq<u8>| #[trigger]
                self@.keeps(address@, denomination) ==> lists(held.balances@, denomination),
            forall|k: int, l: int|
                0 <= k < l < held.balances@.len() ==> (#[trigger] held.balances@[k]).1@ != (
                #[trigger] held.balances@[l]).1@,
    {
        let prefix = address.to_vec();
        let entries = self.balances.entries();
        let mut held: Vec<BaseUnits> = Vec::new();
        let mut i: usize = 0;
        while i < entries.len()
            invariant
                i <= entries.len(),
                prefix@ == address@,
                prefix@.len() == 21,
                crate::store::entries_map(entries@) == self@.balances,
                forall|k: int|
                    0 <= k < held@.len() ==> {
                        let units = #[trigger] held@[k];
                        &&& self@.keeps(address@, units.1@)
                        &&& units.0 == self@.balance(address@, units.1@)
                    },
                forall|k: int, l: int|
                    0 <= k < l < held@.len() ==> (#[trigger] held@[k]).1@ != (
                    #[trigger] held@[l]).1@,
                forall|j: int|
                    0 <= j < i && crate::bytes::begins_with(
                        (#[trigger] entries@[j]).key@,
                        address@,
                    ) && self@.balances.contains_key(entries@[j].key@) ==> lists(
                        held@,
                        entries@[j].key@.skip(21),
                    ),
            decreases entries.len() - i,
        {
            let ghost before = held@;
            let key = &entries[i].key;
            if crate::bytes::has_prefix(key.as_slice(), prefix.as_slice()) {
                let denomination = Denomination(crate::bytes::bytes_after(key.as_slice(), 21));
                proof {
                    assert(key@ =~= balance_key(address@, denomination@));
                }
                match self.balances.get(key.as_slice()) {
                    Some(bytes) => {
                        if !is_listed(&held, &denomination) {
                            let amount = from_be_bytes_wide(bytes.as_slice());
                            held.push(BaseUnits(amount, denomination));
                            proof {
                                let last = held@.len() - 1;
                                assert(held@[last].1@ == key@.skip(21));
                            }
                        }
                    },
                    None => {},
                }
            }
            proof {
                assert forall|j: int|
                    0 <= j < i + 1 && crate::bytes::begins_with(
                        (#[trigger] entries@[j]).key@,
                        address@,
                    ) && self@.balances.contains_key(entries@[j].key@) implies lists(
                    held@,
                    entries@[j].key@.skip(21),
                ) by {
                    if j < i {
                        let k = choose|k: int|
                            0 <= k < before.len() && (#[trigger] before[k]).1@
                                == entries@[j].key@.skip(21);
                        assert(held@[k] == before[k]);
                    }
                }
            }
            i += 1;
        }
        proof {
            assert forall|denomination: Seq<u8>| #[trigger]
                self@.keeps(address@, denomination) implies lists(held@, denomination) by {
                let key = balance_key(address@, denomination);
                crate::store::lemma_entries_map_key(entries@, key);
                let j = choose|j: int|
                    0 <= j < entries@.len() && (#[trigger] entries@[j]).key@ == key;
                assert(key.take(21) =~= address@);
                assert(key.skip(21) =~= denomination);
            }
        }
        AccountBalances { balances: held }
    }

    /// A ledger with the same contents.
    pub fn duplicate(&self) -> (copy: Ledger)
        ensures
            copy@ == self@,
    {
        Ledger {
            balances: self.balances.duplicate(),
            total_supplies: self.total_supplies.duplicate(),
        }
    }
}

/// Number of base units that the first account holds in the state set up by
/// [`init_accounts`].
pub const INITIAL_BALANCE: u128 = 1_000_000;

/// Initialises the ledger of the context from a genesis state.
pub fn init(ctx: &mut Context, genesis: &Genesis)
    ensures
        same_but_gas_and_state(*old(ctx), *final(ctx)),
        final(ctx).gas == old(ctx).gas,
        final(ctx).state@ == old(ctx).state@.with_ledger(
            with_total_supplies(
                with_balances(old(ctx).state@.ledger, genesis.balances@),
                genesis.total_supplies@,
            ),
        ),
{
    ctx.state.init_ledger(genesis);
}

/// Sets up a ledger with one funded account: `alice` holds one million base
/// units of the native denomination, which is also the total supply.
pub fn init_accounts(ctx: &mut Context, alice: &Address)
    ensures
        same_but_gas_and_state(*old(ctx), *final(ctx)),
        final(ctx).gas == old(ctx).gas,
        final(ctx).state@ == old(ctx).state@.with_ledger(
            old(ctx).state@.ledger.with_balance(
                alice@,
                Seq::<u8>::empty(),
                INITIAL_BALANCE,
            ).with_total_supply(Seq::<u8>::empty(), INITIAL_BALANCE),
        ),
{
    let mut balances: Vec<GenesisBalance> = Vec::new();
    balances.push(
        GenesisBalance {
            address: *alice,
            amount: BaseUnits::new(INITIAL_BALANCE, Denomination::native()),
        },
    );
    let mut total_supplies: Vec<BaseUnits> = Vec::new();
    total_supplies.push(BaseUnits::new(INITIAL_BALANCE, Denomination::native()));
    let genesis = Genesis { balances, total_supplies };
    proof {
        let ledger = old(ctx).state@.ledger;
        assert(genesis.balances@.drop_last() =~= Seq::<GenesisBalance>::empty());
        assert(genesis.total_supplies@.drop_last() =~= Seq::<BaseUnits>::empty());
        reveal_with_fuel(with_balances, 2);
        reveal_with_fuel(with_total_supplies, 2);
        assert(with_balances(ledger, genesis.balances@) == ledger.with_balance(
            alice@,
            Seq::<u8>::empty(),
            INITIAL_BALANCE,
        ));
    }
    init(ctx, &genesis);
}

} // verus!
