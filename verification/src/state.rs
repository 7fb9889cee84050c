//! The state that the contracts module keeps.
use vstd::prelude::*;
use vstd::string::StringSliceAdditionalSpecFns;
use crate::accounts::{Ledger, LedgerView};
use crate::address::Address;
use crate::bytes::{append_bytes, be_bytes, to_be_bytes};
use crate::store::Store;
use crate::token::BaseUnits;
use crate::types::{Code, CodeId, Instance, InstanceId};
use crate::{Error, Parameters, MODULE_NAME};

verus! {

/// Namespace of the next code identifier.
pub const NEXT_CODE_IDENTIFIER: u8 = 0x01;

/// Namespace of the next instance identifier.
pub const NEXT_INSTANCE_IDENTIFIER: u8 = 0x02;

/// Namespace of the information about uploaded code.
pub const CODE_INFO: u8 = 0x03;

/// Namespace of the information about deployed contract instances.
pub const INSTANCE_INFO: u8 = 0x04;

/// Namespace of the per-instance key/value stores.
pub const INSTANCE_STATE: u8 = 0x05;

/// Namespace of the uploaded code.
pub const CODE: u8 = 0xFF;

/// The logical sub-stores of an instance.
#[derive(Clone, Copy, Debug, PartialEq, Eq, Structural)]
pub enum StoreKind {
    Public,
    Confidential,
    Internal,
}

impl StoreKind {
    /// The tag by which the host ABI tells the sub-stores apart.
    pub open spec fn spec_tag(self) -> u8 {
        match self {
            StoreKind::Public => 0,
            StoreKind::Confidential => 1,
            StoreKind::Internal => 2,
        }
    }

    /// The tag by which the host ABI tells the sub-stores apart.
    pub fn tag(self) -> (tag: u8)
        ensures
            tag == self.spec_tag(),
    {
        match self {
            StoreKind::Public => 0,
            StoreKind::Confidential => 1,
            StoreKind::Internal => 2,
        }
    }

    /// The sub-store with the given tag.
    pub fn from_tag(tag: u32) -> (kind: Option<StoreKind>)
        ensures
            kind matches Some(k) ==> k.spec_tag() == tag,
            kind is None <==> tag > 2,
    {
        if tag == 0 {
            Some(StoreKind::Public)
        } else if tag == 1 {
            Some(StoreKind::Confidential)
        } else if tag == 2 {
            Some(StoreKind::Internal)
        } else {
            None
        }
    }
}

/// What every key of the module begins with: the bytes of the module's
/// name.
pub open spec fn key_prefix() -> Seq<u8> {
    MODULE_NAME.spec_bytes()
}

/// The key of a value that is kept once: the module's name, then the
/// namespace.
pub open spec fn single_key(namespace: u8) -> Seq<u8> {
    key_prefix() + seq![namespace]
}

/// The key of a record that is kept by identifier: the module's name, the
/// namespace, then the identifier's eight bytes, most significant first.
pub open spec fn record_key(namespace: u8, id: u64) -> Seq<u8> {
    key_prefix() + seq![namespace] + be_bytes(id)
}

/// The key of the next code identifier.
pub open spec fn next_code_id_key() -> Seq<u8> {
    single_key(NEXT_CODE_IDENTIFIER)
}

/// The key of the next instance identifier.
pub open spec fn next_instance_id_key() -> Seq<u8> {
    single_key(NEXT_INSTANCE_IDENTIFIER)
}

/// The key of the information about uploaded code.
pub open spec fn code_info_key(id: CodeId) -> Seq<u8> {
    record_key(CODE_INFO, id.0)
}

/// The key of the information about an instance.
pub open spec fn instance_info_key(id: InstanceId) -> Seq<u8> {
    record_key(INSTANCE_INFO, id.0)
}

/// The key of uploaded code.
pub open spec fn code_key(id: CodeId) -> Seq<u8> {
    record_key(CODE, id.0)
}

/// The key of an entry of an instance's store: the module's name, the
/// namespace, the instance's identifier, the sub-store's tag, then the
/// contract's own key.
pub open spec fn instance_state_key(id: InstanceId, kind: StoreKind, key: Seq<u8>) -> Seq<u8> {
    record_key(INSTANCE_STATE, id.0) + seq![kind.spec_tag()] + key
}

/// The namespace of a key of the module: the byte after the module's name.
pub open spec fn namespace_of(key: Seq<u8>) -> u8
    recommends
        key.len() > key_prefix().len(),
{
    key[key_prefix().len() as int]
}

/// The identifier in the key of a record: what the eight bytes after the
/// namespace read as.
pub open spec fn record_id(key: Seq<u8>) -> u64
    recommends
        key.len() == key_prefix().len() + 9,
{
    crate::bytes::be_value(key.skip(key_prefix().len() as int + 1)) as u64
}

/// The key of a record holds the identifier of the record.
pub proof fn lemma_record_id(namespace: u8, id: u64)
    ensures
        record_id(record_key(namespace, id)) == id,
{
    let p = key_prefix().len() as int;
    assert(record_key(namespace, id).skip(p + 1) =~= be_bytes(id));
    crate::bytes::lemma_be_bytes_value(id);
}

/// Every key lies in the namespace that it was made for, so that keys of
/// different namespaces are different keys.
pub proof fn lemma_namespaces(
    code_id: CodeId,
    instance_id: InstanceId,
    kind: StoreKind,
    key: Seq<u8>,
)
    ensures
        namespace_of(next_code_id_key()) == NEXT_CODE_IDENTIFIER,
        namespace_of(next_instance_id_key()) == NEXT_INSTANCE_IDENTIFIER,
        namespace_of(code_info_key(code_id)) == CODE_INFO,
        namespace_of(instance_info_key(instance_id)) == INSTANCE_INFO,
        namespace_of(instance_state_key(instance_id, kind, key)) == INSTANCE_STATE,
        namespace_of(code_key(code_id)) == CODE,
{
}

/// No entry of an instance's store is kept under the key of uploaded code.
pub proof fn lemma_instance_state_apart_from_code(
    id: InstanceId,
    kind: StoreKind,
    key: Seq<u8>,
    code_id: CodeId,
)
    ensures
        instance_state_key(id, kind, key) != code_key(code_id),
{
    lemma_namespaces(code_id, id, kind, key);
}

/// Two entries of instance stores share a key only where they are the same
/// entry: same instance, same sub-store, same contract key.
pub proof fn lemma_instance_state_key_injective(
    id1: InstanceId,
    kind1: StoreKind,
    key1: Seq<u8>,
    id2: InstanceId,
    kind2: StoreKind,
    key2: Seq<u8>,
)
    requires
        instance_state_key(id1, kind1, key1) == instance_state_key(id2, kind2, key2),
    ensures
        id1 == id2,
        kind1 == kind2,
        key1 == key2,
{
    let k1 = instance_state_key(id1, kind1, key1);
    let k2 = instance_state_key(id2, kind2, key2);
    let p = key_prefix().len() as int;
    assert(be_bytes(id1.0) =~= k1.subrange(p + 1, p + 9));
    assert(be_bytes(id2.0) =~= k2.subrange(p + 1, p + 9));
    crate::bytes::lemma_be_bytes_injective(id1.0, id2.0);
    assert(k1[p + 9] == kind1.spec_tag());
    assert(k2[p + 9] == kind2.spec_tag());
    assert(key1 =~= k1.skip(p + 10));
    assert(key2 =~= k2.skip(p + 10));
}

/// Two records of one namespace share a key only where they have the same
/// identifier.
pub proof fn lemma_record_key_injective(namespace: u8, id1: u64, id2: u64)
    requires
        record_key(namespace, id1) == record_key(namespace, id2),
    ensures
        id1 == id2,
{
    let p = key_prefix().len() as int;
    assert(be_bytes(id1) =~= record_key(namespace, id1).skip(p + 1));
    assert(be_bytes(id2) =~= record_key(namespace, id2).skip(p + 1));
    crate::bytes::lemma_be_bytes_injective(id1, id2);
}

/// Two pieces of uploaded code share a key only where they have the same
/// identifier.
pub proof fn lemma_code_key_injective(id1: CodeId, id2: CodeId)
    requires
        code_key(id1) == code_key(id2),
    ensures
        id1 == id2,
{
    lemma_record_key_injective(CODE, id1.0, id2.0);
}

/// Builds the key of a value that is kept once.
pub fn make_single_key(namespace: u8) -> (key: Vec<u8>)
    ensures
        key@ == single_key(namespace),
{
    let mut key: Vec<u8> = Vec::new();
    append_bytes(&mut key, MODULE_NAME.as_bytes());
    key.push(namespace);
    assert(key@ =~= single_key(namespace));
    key
}

/// Builds the key of a record that is kept by identifier.
pub fn make_record_key(namespace: u8, id: u64) -> (key: Vec<u8>)
    ensures
        key@ == record_key(namespace, id),
{
    let mut key = make_single_key(namespace);
    let id_bytes = to_be_bytes(id);
    append_bytes(&mut key, id_bytes.as_slice());
    assert(key@ =~= record_key(namespace, id));
    key
}

/// Builds the key of an entry of an instance's store.
pub fn make_instance_state_key(id: InstanceId, kind: StoreKind, key: &[u8]) -> (full: Vec<u8>)
    ensures
        full@ == instance_state_key(id, kind, key@),
{
    let mut full = make_record_key(INSTANCE_STATE, id.as_u64());
    full.push(kind.tag());
    append_bytes(&mut full, key);
    assert(full@ =~= instance_state_key(id, kind, key@));
    full
}

/// The mapping that a list of records stands for: a record overrides every
/// record before it that has the same identifier.
pub open spec fn records_map<T>(records: Seq<(u64, T)>) -> Map<u64, T>
    decreases records.len(),
{
    if records.len() == 0 {
        Map::empty()
    } else {
        records_map(records.drop_last()).insert(records.last().0, records.last().1)
    }
}

/// Records kept by identifier.
pub struct Table<T: Copy> {
    records: Vec<(u64, T)>,
}

impl<T: Copy> View for Table<T> {
    type V = Map<u64, T>;

    closed spec fn view(&self) -> Map<u64, T> {
        records_map(self.records@)
    }
}

impl<T: Copy> Table<T> {
    /// A table without records.
    pub fn new() -> (table: Table<T>)
        ensures
            table@ == Map::<u64, T>::empty(),
    {
        Table { records: Vec::new() }
    }

    /// The record kept under `id`.
    pub fn get(&self, id: u64) -> (record: Option<T>)
        ensures
            record is Some <==> self@.contains_key(id),
            record matches Some(r) ==> r == self@[id],
    {
        let mut i: usize = self.records.len();
        proof {
            assert(self.records@.take(i as int) =~= self.records@);
        }
        while i > 0
            invariant
                i <= self.records.len(),
                records_map(self.records@).contains_key(id) <==> records_map(
                    self.records@.take(i as int),
                ).contains_key(id),
                records_map(self.records@).contains_key(id) ==> records_map(self.records@)[id]
                    == records_map(self.records@.take(i as int))[id],
            decreases i,
        {
            proof {
                assert(self.records@.take(i as int).drop_last() =~= self.records@.take(i - 1));
            }
            i -= 1;
            if self.records[i].0 == id {
                return Some(self.records[i].1);
            }
        }
        proof {
            assert(self.records@.take(0) =~= Seq::<(u64, T)>::empty());
        }
        None
    }

    /// Keeps `record` under `id`, in place of what was kept there.
    pub fn insert(&mut self, id: u64, record: T)
        ensures
            final(self)@ == old(self)@.insert(id, record),
    {
        proof {
            assert(self.records@.push((id, record)).drop_last() =~= self.records@);
        }
        self.records.push((id, record));
    }

    /// The records of the table with their identifiers, in an order in
    /// which keeping them one after the other gives the table.
    pub fn records(&self) -> (records: Vec<(u64, T)>)
        ensures
            records_map(records@) == self@,
    {
        self.duplicate().records
    }

    /// A table with the same records.
    pub fn duplicate(&self) -> (copy: Table<T>)
        ensures
            copy@ == self@,
    {
        let mut records: Vec<(u64, T)> = Vec::new();
        let mut i: usize = 0;
        while i < self.records.len()
            invariant
                i <= self.records.len(),
                records@ == self.records@.take(i as int),
            decreases self.records.len() - i,
        {
            records.push((self.records[i].0, self.records[i].1));
            i += 1;
            assert(records@ =~= self.records@.take(i as int));
        }
        assert(self.records@.take(i as int) =~= self.records@);
        Table { records }
    }
}

/// What a [`State`] holds.
pub struct StateView {
    /// The parameters of the module.
    pub parameters: Parameters,
    /// The identifier that the next uploaded code gets.
    pub next_code_id: u64,
    /// The identifier that the next instance gets.
    pub next_instance_id: u64,
    /// Information about uploaded code, by code identifier.
    pub code_info: Map<u64, Code>,
    /// Information about instances, by instance identifier.
    pub instance_info: Map<u64, Instance>,
    /// Uploaded code under [`code_key`] and the entries of the instances'
    /// stores under [`instance_state_key`].
    pub raw: Map<Seq<u8>, Seq<u8>>,
    /// Token balances.
    pub ledger: LedgerView,
}

impl StateView {
    /// The entry of an instance's store, if there is one.
    pub open spec fn instance_entry(self, id: InstanceId, kind: StoreKind, key: Seq<u8>) -> Option<
        Seq<u8>,
    > {
        let full = instance_state_key(id, kind, key);
        if self.raw.contains_key(full) {
            Some(self.raw[full])
        } else {
            None
        }
    }

    /// The state with one entry of an instance's store set.
    pub open spec fn with_instance_entry(
        self,
        id: InstanceId,
        kind: StoreKind,
        key: Seq<u8>,
        value: Seq<u8>,
    ) -> StateView {
        StateView { raw: self.raw.insert(instance_state_key(id, kind, key), value), ..self }
    }

    /// The state with one entry of an instance's store removed.
    pub open spec fn without_instance_entry(self, id: InstanceId, kind: StoreKind, key: Seq<u8>)
        -> StateView {
        StateView { raw: self.raw.remove(instance_state_key(id, kind, key)), ..self }
    }

    /// The state with other token balances.
    pub open spec fn with_ledger(self, ledger: LedgerView) -> StateView {
        StateView { ledger, ..self }
    }

    /// The state after code has been stored under the next code identifier.
    pub open spec fn with_code(self, info: Code, code: Seq<u8>) -> StateView {
        StateView {
            next_code_id: (self.next_code_id + 1) as u64,
            code_info: self.code_info.insert(info.id.0, info),
            raw: self.raw.insert(code_key(info.id), code),
            ..self
        }
    }

    /// The state after an instance has been stored under the next instance
    /// identifier.
    pub open spec fn with_instance(self, info: Instance) -> StateView {
        StateView {
            next_instance_id: (self.next_instance_id + 1) as u64,
            instance_info: self.instance_info.insert(info.id.0, info),
            ..self
        }
    }
}

/// The state of the contracts module, with the token balances that its
/// transactions move.
pub struct State {
    parameters: Parameters,
    next_code_id: u64,
    next_instance_id: u64,
    code_info: Table<Code>,
    instance_info: Table<Instance>,
    raw: Store,
    ledger: Ledger,
}

impl View for State {
    type V = StateView;

    closed spec fn view(&self) -> StateView {
        StateView {
            parameters: self.parameters,
            next_code_id: self.next_code_id,
            next_instance_id: self.next_instance_id,
            code_info: self.code_info@,
            instance_info: self.instance_info@,
            raw: self.raw@,
            ledger: self.ledger@,
        }
    }
}

impl State {
    /// The state before anything was uploaded, under the given parameters.
    pub fn new(parameters: Parameters) -> (state: State)
        ensures
            state@.parameters == parameters,
            state@.next_code_id == 0,
            state@.next_instance_id == 0,
            state@.code_info == Map::<u64, Code>::empty(),
            state@.instance_info == Map::<u64, Instance>::empty(),
            state@.raw == Map::<Seq<u8>, Seq<u8>>::empty(),
            state@.ledger.balances == Map::<Seq<u8>, Seq<u8>>::empty(),
            state@.ledger.total_supplies == Map::<Seq<u8>, Seq<u8>>::empty(),
    {
        State {
            parameters,
            next_code_id: 0,
            next_instance_id: 0,
            code_info: Table::new(),
            instance_info: Table::new(),
            raw: Store::new(),
            ledger: Ledger::new(),
        }
    }

    /// The token balances.
    pub fn ledger(&self) -> (ledger: &Ledger)
        ensures
            ledger@ == self@.ledger,
    {
        &self.ledger
    }

    /// Puts other token balances in place of the present ones.
    pub(crate) fn put_ledger(&mut self, ledger: Ledger)
        ensures
            final(self)@ == old(self)@.with_ledger(ledger@),
    {
        self.ledger = ledger;
    }

    /// Sets the identifier that the next uploaded code gets.
    pub(crate) fn put_next_code_id(&mut self, id: u64)
        ensures
            final(self)@ == (StateView { next_code_id: id, ..old(self)@ }),
    {
        self.next_code_id = id;
    }

    /// Sets the identifier that the next instance gets.
    pub(crate) fn put_next_instance_id(&mut self, id: u64)
        ensures
            final(self)@ == (StateView { next_instance_id: id, ..old(self)@ }),
    {
        self.next_instance_id = id;
    }

    /// Keeps bytes under a key of uploaded code or of an instance's store.
    pub(crate) fn put_raw(&mut self, key: &[u8], value: &[u8])
        ensures
            final(self)@ == (StateView { raw: old(self)@.raw.insert(key@, value@), ..old(self)@ }),
    {
        self.raw.insert(key, value);
    }

    /// Sets the balances and total supplies of a genesis state of the
    /// ledger.
    pub fn init_ledger(&mut self, genesis: &crate::accounts::Genesis)
        ensures
            final(self)@ == old(self)@.with_ledger(
                crate::accounts::with_total_supplies(
                    crate::accounts::with_balances(old(self)@.ledger, genesis.balances@),
                    genesis.total_supplies@,
                ),
            ),
    {
        self.ledger.init(genesis);
    }

    /// Moves `amount` from `from` to `to`.
    pub fn transfer(&mut self, from: &Address, to: &Address, amount: &BaseUnits) -> (result:
        Result<(), crate::accounts::Error>)
        ensures
            result == old(self)@.ledger.transfer_result(from@, to@, amount.1@, amount.0),
            final(self)@ == old(self)@.with_ledger(
                old(self)@.ledger.after_transfer(from@, to@, amount.1@, amount.0),
            ),
    {
        self.ledger.transfer(from, to, amount)
    }

    /// A state with the same contents.
    pub fn duplicate(&self) -> (copy: State)
        ensures
            copy@ == self@,
    {
        State {
            parameters: self.parameters,
            next_code_id: self.next_code_id,
            next_instance_id: self.next_instance_id,
            code_info: self.code_info.duplicate(),
            instance_info: self.instance_info.duplicate(),
            raw: self.raw.duplicate(),
            ledger: self.ledger.duplicate(),
        }
    }

    /// The parameters of the module.
    pub fn params(&self) -> (parameters: Parameters)
        ensures
            parameters == self@.parameters,
    {
        self.parameters
    }

    /// Sets the parameters of the module.
    pub fn set_params(&mut self, parameters: Parameters)
        ensures
            final(self)@ == (StateView { parameters, ..old(self)@ }),
    {
        self.parameters = parameters;
    }

    /// The identifier that the next uploaded code gets.
    pub fn next_code_id(&self) -> (id: CodeId)
        ensures
            id.0 == self@.next_code_id,
    {
        CodeId(self.next_code_id)
    }

    /// The identifier that the next instance gets.
    pub fn next_instance_id(&self) -> (id: InstanceId)
        ensures
            id.0 == self@.next_instance_id,
    {
        InstanceId(self.next_instance_id)
    }

    /// The information about uploaded code, in an order in which keeping
    /// the records one after the other gives the table of the state.
    pub fn code_info_records(&self) -> (records: Vec<(u64, Code)>)
        ensures
            records_map(records@) == self@.code_info,
    {
        self.code_info.records()
    }

    /// The information about instances, in an order in which keeping the
    /// records one after the other gives the table of the state.
    pub fn instance_info_records(&self) -> (records: Vec<(u64, Instance)>)
        ensures
            records_map(records@) == self@.instance_info,
    {
        self.instance_info.records()
    }

    /// The uploaded code and the entries of the instances' stores, in an
    /// order in which setting them one after the other gives what the state
    /// holds of them.
    pub fn raw_entries(&self) -> (entries: Vec<crate::store::Entry>)
        ensures
            crate::store::entries_map(entries@) == self@.raw,
    {
        self.raw.entries()
    }

    /// Loads code information for the specified code identifier.
    pub fn load_code_info(&self, code_id: CodeId) -> (result: Result<Code, Error>)
        ensures
            self@.code_info.contains_key(code_id.0) ==> result == Ok::<Code, Error>(
                self@.code_info[code_id.0],
            ),
            !self@.code_info.contains_key(code_id.0) ==> result == Err::<Code, Error>(
                Error::CodeNotFound,
            ),
    {
        match self.code_info.get(code_id.as_u64()) {
            Some(info) => Ok(info),
            None => Err(Error::CodeNotFound),
        }
    }

    /// Loads code with the specified code identifier.
    pub fn load_code(&self, code_id: CodeId) -> (result: Result<Vec<u8>, Error>)
        ensures
            self@.raw.contains_key(code_key(code_id)) ==> (result matches Ok(code) && code@
                == self@.raw[code_key(code_id)]),
            !self@.raw.contains_key(code_key(code_id)) ==> result == Err::<Vec<u8>, Error>(
                Error::CodeNotFound,
            ),
    {
        let key = make_record_key(CODE, code_id.as_u64());
        match self.raw.get(key.as_slice()) {
            Some(code) => Ok(code),
            None => Err(Error::CodeNotFound),
        }
    }

    /// Loads specified instance information.
    pub fn load_instance_info(&self, instance_id: InstanceId) -> (result: Result<Instance, Error>)
        ensures
            self@.instance_info.contains_key(instance_id.0) ==> result == Ok::<Instance, Error>(
                self@.instance_info[instance_id.0],
            ),
            !self@.instance_info.contains_key(instance_id.0) ==> result == Err::<Instance, Error>(
                Error::InstanceNotFound,
            ),
    {
        match self.instance_info.get(instance_id.as_u64()) {
            Some(info) => Ok(info),
            None => Err(Error::InstanceNotFound),
        }
    }

    /// Assigns the next code identifier: it is returned, and the one after
    /// it becomes the next.
    pub fn assign_code_id(&mut self) -> (id: CodeId)
        requires
            old(self)@.next_code_id < u64::MAX,
        ensures
            id.0 == old(self)@.next_code_id,
            final(self)@ == (StateView {
                next_code_id: (old(self)@.next_code_id + 1) as u64,
                ..old(self)@
            }),
    {
        let id = CodeId(self.next_code_id);
        self.next_code_id = id.increment().as_u64();
        id
    }

    /// Assigns the next instance identifier: it is returned, and the one
    /// after it becomes the next.
    pub fn assign_instance_id(&mut self) -> (id: InstanceId)
        requires
            old(self)@.next_instance_id < u64::MAX,
        ensures
            id.0 == old(self)@.next_instance_id,
            final(self)@ == (StateView {
                next_instance_id: (old(self)@.next_instance_id + 1) as u64,
                ..old(self)@
            }),
    {
        let id = InstanceId(self.next_instance_id);
        self.next_instance_id = id.increment().as_u64();
        id
    }

    /// Stores specified code information.
    pub fn store_code_info(&mut self, code_info: Code)
        ensures
            final(self)@ == (StateView {
                code_info: old(self)@.code_info.insert(code_info.id.0, code_info),
                ..old(self)@
            }),
    {
        self.code_info.insert(code_info.id.as_u64(), code_info);
    }

    /// Stores code with the specified code identifier.
    pub fn store_code(&mut self, code_id: CodeId, code: &[u8])
        ensures
            final(self)@ == (StateView {
                raw: old(self)@.raw.insert(code_key(code_id), code@),
                ..old(self)@
            }),
    {
        let key = make_record_key(CODE, code_id.as_u64());
        self.raw.insert(key.as_slice(), code);
    }

    /// Stores specified instance information.
    pub fn store_instance_info(&mut self, instance_info: Instance)
        ensures
            final(self)@ == (StateView {
                instance_info: old(self)@.instance_info.insert(
                    instance_info.id.0,
                    instance_info,
                ),
                ..old(self)@
            }),
    {
        self.instance_info.insert(instance_info.id.as_u64(), instance_info);
    }

    /// Fetches an entry of an instance's store.
    pub fn instance_get(&self, id: InstanceId, kind: StoreKind, key: &[u8]) -> (value: Option<
        Vec<u8>,
    >)
        ensures
            value is Some <==> self@.instance_entry(id, kind, key@) is Some,
            value matches Some(v) ==> self@.instance_entry(id, kind, key@) == Some(v@),
    {
        let full = make_instance_state_key(id, kind, key);
        self.raw.get(full.as_slice())
    }

    /// Sets an entry of an instance's store.
    pub fn instance_insert(&mut self, id: InstanceId, kind: StoreKind, key: &[u8], value: &[u8])
        ensures
            final(self)@ == old(self)@.with_instance_entry(id, kind, key@, value@),
    {
        let full = make_instance_state_key(id, kind, key);
        self.raw.insert(full.as_slice(), value);
    }

    /// Removes an entry of an instance's store.
    pub fn instance_remove(&mut self, id: InstanceId, kind: StoreKind, key: &[u8])
        ensures
            final(self)@ == old(self)@.without_instance_entry(id, kind, key@),
    {
        let full = make_instance_state_key(id, kind, key);
        self.raw.remove(full.as_slice());
    }
}

} // verus!
