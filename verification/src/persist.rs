//! The layout of the module's state as it is persisted: what is kept under
//! which key.
use vstd::prelude::*;
use vstd::string::StringSliceAdditionalSpecFns;
use crate::accounts::Ledger;
use crate::bytes::{begins_with, bytes_after, from_be_bytes, has_prefix};
use crate::state::{
    code_info_key, instance_info_key, key_prefix, make_record_key, make_single_key,
    next_code_id_key, next_instance_id_key, record_id, records_map, State, StateView, CODE,
    CODE_INFO, INSTANCE_INFO, INSTANCE_STATE, NEXT_CODE_IDENTIFIER, NEXT_INSTANCE_IDENTIFIER,
};
use crate::{Parameters, MODULE_NAME};
use crate::store::{entries_map, Entry};
use crate::types::{Code, CodeId, Instance, InstanceId};
use crate::value::{Value, ValueView};

verus! {

/// What is kept under a key.
#[derive(Debug, PartialEq, Eq)]
pub enum Stored {
    /// A value of the wire format.
    Record(Value),
    /// Bytes as they are.
    Bytes(Vec<u8>),
}

/// What a [`Stored`] holds.
pub enum StoredView {
    Record(ValueView),
    Bytes(Seq<u8>),
}

impl View for Stored {
    type V = StoredView;

    open spec fn view(&self) -> StoredView {
        match self {
            Stored::Record(value) => StoredView::Record(value@),
            Stored::Bytes(bytes) => StoredView::Bytes(bytes@),
        }
    }
}

/// A key with what is kept under it.
#[derive(Debug, PartialEq, Eq)]
pub struct Persisted {
    pub key: Vec<u8>,
    pub value: Stored,
}

/// The mapping that a list stands for: an item overrides every item before
/// it that has the same key.
pub open spec fn persisted_map(items: Seq<Persisted>) -> Map<Seq<u8>, StoredView>
    decreases items.len(),
{
    if items.len() == 0 {
        Map::empty()
    } else {
        persisted_map(items.drop_last()).insert(items.last().key@, items.last().value@)
    }
}

/// Where the two identifiers are kept that will be assigned next.
pub open spec fn next_ids_layout(next_code_id: u64, next_instance_id: u64) -> Map<
    Seq<u8>,
    StoredView,
> {
    Map::<Seq<u8>, StoredView>::empty().insert(
        next_code_id_key(),
        StoredView::Record(ValueView::Unsigned(next_code_id)),
    ).insert(next_instance_id_key(), StoredView::Record(ValueView::Unsigned(next_instance_id)))
}

/// Where the information about uploaded code is kept: each record under the
/// key of its identifier, as it is written on the wire.
pub open spec fn code_info_layout(table: Map<u64, Code>) -> Map<Seq<u8>, StoredView> {
    Map::new(
        |key: Seq<u8>|
            table.contains_key(record_id(key)) && key == code_info_key(CodeId(record_id(key))),
        |key: Seq<u8>| StoredView::Record(Code::spec_encode(table[record_id(key)]@)),
    )
}

/// Where the information about instances is kept: each record under the key
/// of its identifier, as it is written on the wire.
pub open spec fn instance_info_layout(table: Map<u64, Instance>) -> Map<Seq<u8>, StoredView> {
    Map::new(
        |key: Seq<u8>|
            table.contains_key(record_id(key)) && key == instance_info_key(
                InstanceId(record_id(key)),
            ),
        |key: Seq<u8>| StoredView::Record(Instance::spec_encode(table[record_id(key)]@)),
    )
}

/// Where uploaded code and the entries of the instances' stores are kept:
/// under their keys, as the bytes that they are.
pub open spec fn raw_layout(raw: Map<Seq<u8>, Seq<u8>>) -> Map<Seq<u8>, StoredView> {
    Map::new(|key: Seq<u8>| raw.contains_key(key), |key: Seq<u8>| StoredView::Bytes(raw[key]))
}

/// The layout of the state: the next identifiers, the information about
/// code and about instances, and the code and the stores of the instances,
/// each under its key.
pub open spec fn layout(state: StateView) -> Map<Seq<u8>, StoredView> {
    next_ids_layout(state.next_code_id, state.next_instance_id).union_prefer_right(
        code_info_layout(state.code_info),
    ).union_prefer_right(instance_info_layout(state.instance_info)).union_prefer_right(
        raw_layout(state.raw),
    )
}

proof fn lemma_code_info_layout_insert(table: Map<u64, Code>, id: u64, info: Code)
    ensures
        code_info_layout(table.insert(id, info)) == code_info_layout(table).insert(
            code_info_key(CodeId(id)),
            StoredView::Record(Code::spec_encode(info@)),
        ),
{
    crate::state::lemma_record_id(CODE_INFO, id);
    assert(code_info_layout(table.insert(id, info)) =~= code_info_layout(table).insert(
        code_info_key(CodeId(id)),
        StoredView::Record(Code::spec_encode(info@)),
    ));
}

proof fn lemma_instance_info_layout_insert(table: Map<u64, Instance>, id: u64, info: Instance)
    ensures
        instance_info_layout(table.insert(id, info)) == instance_info_layout(table).insert(
            instance_info_key(InstanceId(id)),
            StoredView::Record(Instance::spec_encode(info@)),
        ),
{
    crate::state::lemma_record_id(INSTANCE_INFO, id);
    assert(instance_info_layout(table.insert(id, info)) =~= instance_info_layout(table).insert(
        instance_info_key(InstanceId(id)),
        StoredView::Record(Instance::spec_encode(info@)),
    ));
}

proof fn lemma_raw_layout_insert(raw: Map<Seq<u8>, Seq<u8>>, key: Seq<u8>, value: Seq<u8>)
    ensures
        raw_layout(raw.insert(key, value)) == raw_layout(raw).insert(
            key,
            StoredView::Bytes(value),
        ),
{
    assert(raw_layout(raw.insert(key, value)) =~= raw_layout(raw).insert(
        key,
        StoredView::Bytes(value),
    ));
}

/// Appends an item to the list.
fn persist(items: &mut Vec<Persisted>, key: Vec<u8>, value: Stored)
    ensures
        persisted_map(final(items)@) == persisted_map(old(items)@).insert(key@, value@),
{
    proof {
        assert(items@.push(Persisted { key, value }).drop_last() =~= items@);
    }
    items.push(Persisted { key, value });
}

impl State {
    /// Lists what the state holds as it is persisted: every key of the
    /// layout with what is kept under it. The token balances and the
    /// parameters are not part of the layout.
    pub fn export(&self) -> (items: Vec<Persisted>)
        ensures
            persisted_map(items@) == layout(self@),
    {
        let mut items: Vec<Persisted> = Vec::new();
        persist(
            &mut items,
            make_single_key(NEXT_CODE_IDENTIFIER),
            Stored::Record(self.next_code_id().into_cbor_value()),
        );
        persist(
            &mut items,
            make_single_key(NEXT_INSTANCE_IDENTIFIER),
            Stored::Record(self.next_instance_id().into_cbor_value()),
        );
        let ghost ids = next_ids_layout(self@.next_code_id, self@.next_instance_id);
        assert(persisted_map(items@) == ids);

        let codes = self.code_info_records();
        let mut i: usize = 0;
        proof {
            assert(codes@.take(0) =~= Seq::<(u64, Code)>::empty());
            assert(ids.union_prefer_right(code_info_layout(Map::<u64, Code>::empty())) =~= ids);
        }
        while i < codes.len()
            invariant
                i <= codes.len(),
                persisted_map(items@) == ids.union_prefer_right(
                    code_info_layout(records_map(codes@.take(i as int))),
                ),
            decreases codes.len() - i,
        {
            let (id, info) = codes[i];
            proof {
                let so_far = records_map(codes@.take(i as int));
                assert(codes@.take(i + 1).drop_last() =~= codes@.take(i as int));
                lemma_code_info_layout_insert(so_far, id, info);
                let key = code_info_key(CodeId(id));
                let value = StoredView::Record(Code::spec_encode(info@));
                assert(ids.union_prefer_right(code_info_layout(so_far)).insert(key, value)
                    =~= ids.union_prefer_right(code_info_layout(so_far).insert(key, value)));
            }
            persist(
                &mut items,
                make_record_key(CODE_INFO, id),
                Stored::Record(info.into_cbor_value()),
            );
            i += 1;
        }
        proof {
            assert(codes@.take(i as int) =~= codes@);
        }
        let ghost with_codes = ids.union_prefer_right(code_info_layout(self@.code_info));

        let instances = self.instance_info_records();
        let mut j: usize = 0;
        proof {
            assert(instances@.take(0) =~= Seq::<(u64, Instance)>::empty());
            assert(with_codes.union_prefer_right(
                instance_info_layout(Map::<u64, Instance>::empty()),
            ) =~= with_codes);
        }
        while j < instances.len()
            invariant
                j <= instances.len(),
                persisted_map(items@) == with_codes.union_prefer_right(
                    instance_info_layout(records_map(instances@.take(j as int))),
                ),
            decreases instances.len() - j,
        {
            let (id, info) = instances[j];
            proof {
                let so_far = records_map(instances@.take(j as int));
                assert(instances@.take(j + 1).drop_last() =~= instances@.take(j as int));
                lemma_instance_info_layout_insert(so_far, id, info);
                let key = instance_info_key(InstanceId(id));
                let value = StoredView::Record(Instance::spec_encode(info@));
                assert(with_codes.union_prefer_right(instance_info_layout(so_far)).insert(
                    key,
                    value,
                ) =~= with_codes.union_prefer_right(
                    instance_info_layout(so_far).insert(key, value),
                ));
            }
            persist(
                &mut items,
                make_record_key(INSTANCE_INFO, id),
                Stored::Record(info.into_cbor_value()),
            );
            j += 1;
        }
        proof {
            assert(instances@.take(j as int) =~= instances@);
        }
        let ghost with_instances = with_codes.union_prefer_right(
            instance_info_layout(self@.instance_info),
        );

        let mut raw = self.raw_entries();
        let ghost all = raw@;
        let n: usize = raw.len();
        // The entries are moved out from the back; they are put in their order again below.
        let mut reversed: Vec<Entry> = Vec::new();
        let mut k: usize = 0;
        while k < n
            invariant
                k <= n,
                n == all.len(),
                raw@ == all.take(n - k),
                reversed@ == all.reverse().take(k as int),
            decreases n - k,
        {
            let entry = raw.pop().unwrap();
            reversed.push(entry);
            k += 1;
            proof {
                assert(raw@ =~= all.take(n - k));
                assert(reversed@ =~= all.reverse().take(k as int));
            }
        }
        proof {
            assert(reversed@ =~= all.reverse());
            assert(all.take(0) =~= Seq::<Entry>::empty());
            assert(with_instances.union_prefer_right(
                raw_layout(Map::<Seq<u8>, Seq<u8>>::empty()),
            ) =~= with_instances);
        }
        let mut m: usize = 0;
        while m < n
            invariant
                m <= n,
                n == all.len(),
                reversed@ == all.reverse().take(n - m),
                persisted_map(items@) == with_instances.union_prefer_right(
                    raw_layout(entries_map(all.take(m as int))),
                ),
            decreases n - m,
        {
            let entry = reversed.pop().unwrap();
            proof {
                assert(entry == all[m as int]);
                let so_far = entries_map(all.take(m as int));
                assert(all.take(m + 1).drop_last() =~= all.take(m as int));
                lemma_raw_layout_insert(so_far, entry.key@, entry.value@);
                assert(with_instances.union_prefer_right(raw_layout(so_far)).insert(
                    entry.key@,
                    StoredView::Bytes(entry.value@),
                ) =~= with_instances.union_prefer_right(
                    raw_layout(so_far).insert(entry.key@, StoredView::Bytes(entry.value@)),
                ));
            }
            let Entry { key, value } = entry;
            persist(&mut items, key, Stored::Bytes(value));
            m += 1;
            proof {
                assert(reversed@ =~= all.reverse().take(n - m));
            }
        }
        proof {
            assert(all.take(m as int) =~= all);
        }
        items
    }
}

/// Whether something can be kept under the key in the layout: the key
/// begins with the module's name and a namespace, and in the namespace of
/// a next identifier a number is kept under the key of the namespace alone,
/// in the namespaces of code and instance information a record that can be
/// read and has the identifier of its key, and in the namespaces of code and
/// of the instances' stores bytes.
pub open spec fn acceptable(key: Seq<u8>, value: StoredView) -> bool {
    let p = key_prefix().len() as int;
    &&& begins_with(key, key_prefix())
    &&& key.len() > p
    &&& if key[p] == NEXT_CODE_IDENTIFIER || key[p] == NEXT_INSTANCE_IDENTIFIER {
        key.len() == p + 1 && value matches StoredView::Record(ValueView::Unsigned(_))
    } else if key[p] == CODE_INFO {
        &&& key.len() == p + 9
        &&& value matches StoredView::Record(record)
        &&& Code::spec_decode(record) matches Ok(info)
        &&& info.id.0 == record_id(key)
    } else if key[p] == INSTANCE_INFO {
        &&& key.len() == p + 9
        &&& value matches StoredView::Record(record)
        &&& Instance::spec_decode(record) matches Ok(info)
        &&& info.id.0 == record_id(key)
    } else {
        (key[p] == INSTANCE_STATE || key[p] == CODE) && value is Bytes
    }
}

/// Whether a state can be built from the list: everything in it can be
/// kept under its key, and both next identifiers are there.
pub open spec fn restorable(items: Seq<Persisted>) -> bool {
    &&& forall|i: int|
        0 <= i < items.len() ==> acceptable((#[trigger] items[i]).key@, items[i].value@)
    &&& persisted_map(items).contains_key(next_code_id_key())
    &&& persisted_map(items).contains_key(next_instance_id_key())
}

/// Whether every key of code and of the instances' stores lies in its
/// namespace.
pub open spec fn raw_in_namespace(raw: Map<Seq<u8>, Seq<u8>>) -> bool {
    forall|key: Seq<u8>| #[trigger]
        raw.contains_key(key) ==> {
            let p = key_prefix().len() as int;
            key.len() > p && (key[p] == INSTANCE_STATE || key[p] == CODE)
        }
}

proof fn lemma_layout_next_code_id(state: StateView, id: u64)
    requires
        raw_in_namespace(state.raw),
    ensures
        layout(StateView { next_code_id: id, ..state }) == layout(state).insert(
            next_code_id_key(),
            StoredView::Record(ValueView::Unsigned(id)),
        ),
{
    let key = next_code_id_key();
    let p = key_prefix().len() as int;
    assert(key[p] == NEXT_CODE_IDENTIFIER);
    assert(next_instance_id_key()[p] == NEXT_INSTANCE_IDENTIFIER);
    assert(!code_info_layout(state.code_info).contains_key(key));
    assert(!instance_info_layout(state.instance_info).contains_key(key));
    assert(!raw_layout(state.raw).contains_key(key));
    assert(layout(StateView { next_code_id: id, ..state }) =~= layout(state).insert(
        key,
        StoredView::Record(ValueView::Unsigned(id)),
    ));
}

proof fn lemma_layout_next_instance_id(state: StateView, id: u64)
    requires
        raw_in_namespace(state.raw),
    ensures
        layout(StateView { next_instance_id: id, ..state }) == layout(state).insert(
            next_instance_id_key(),
            StoredView::Record(ValueView::Unsigned(id)),
        ),
{
    let key = next_instance_id_key();
    let p = key_prefix().len() as int;
    assert(key[p] == NEXT_INSTANCE_IDENTIFIER);
    assert(next_code_id_key()[p] == NEXT_CODE_IDENTIFIER);
    assert(!code_info_layout(state.code_info).contains_key(key));
    assert(!instance_info_layout(state.instance_info).contains_key(key));
    assert(!raw_layout(state.raw).contains_key(key));
    assert(layout(StateView { next_instance_id: id, ..state }) =~= layout(state).insert(
        key,
        StoredView::Record(ValueView::Unsigned(id)),
    ));
}

proof fn lemma_layout_code_info(state: StateView, info: Code)
    requires
        raw_in_namespace(state.raw),
    ensures
        layout(
            StateView { code_info: state.code_info.insert(info.id.0, info), ..state },
        ) == layout(state).insert(
            code_info_key(info.id),
            StoredView::Record(Code::spec_encode(info@)),
        ),
{
    let key = code_info_key(info.id);
    let p = key_prefix().len() as int;
    lemma_code_info_layout_insert(state.code_info, info.id.0, info);
    assert(key[p] == CODE_INFO);
    assert(!instance_info_layout(state.instance_info).contains_key(key)) by {
        assert(instance_info_key(InstanceId(record_id(key)))[p] == INSTANCE_INFO);
    }
    assert(!raw_layout(state.raw).contains_key(key));
    assert(layout(StateView { code_info: state.code_info.insert(info.id.0, info), ..state })
        =~= layout(state).insert(key, StoredView::Record(Code::spec_encode(info@))));
}

proof fn lemma_layout_instance_info(state: StateView, info: Instance)
    requires
        raw_in_namespace(state.raw),
    ensures
        layout(
            StateView { instance_info: state.instance_info.insert(info.id.0, info), ..state },
        ) == layout(state).insert(
            instance_info_key(info.id),
            StoredView::Record(Instance::spec_encode(info@)),
        ),
{
    let key = instance_info_key(info.id);
    let p = key_prefix().len() as int;
    lemma_instance_info_layout_insert(state.instance_info, info.id.0, info);
    assert(key[p] == INSTANCE_INFO);
    assert(!raw_layout(state.raw).contains_key(key));
    assert(layout(
        StateView { instance_info: state.instance_info.insert(info.id.0, info), ..state },
    ) =~= layout(state).insert(key, StoredView::Record(Instance::spec_encode(info@))));
}

proof fn lemma_layout_raw(state: StateView, key: Seq<u8>, value: Seq<u8>)
    ensures
        layout(StateView { raw: state.raw.insert(key, value), ..state }) == layout(state).insert(
            key,
            StoredView::Bytes(value),
        ),
{
    lemma_raw_layout_insert(state.raw, key, value);
    assert(layout(StateView { raw: state.raw.insert(key, value), ..state }) =~= layout(
        state,
    ).insert(key, StoredView::Bytes(value)));
}

impl State {
    /// Builds the state from what was persisted of it, with the given
    /// parameters and token balances, which are not part of the layout. There
    /// is no such state where something in the list cannot be kept under its
    /// key, or a next identifier is missing.
    pub fn restore(parameters: Parameters, ledger: Ledger, items: Vec<Persisted>) -> (restored:
        Option<State>)
        ensures
            restored is Some <==> restorable(items@),
            restored matches Some(state) ==> {
                &&& layout(state@) == persisted_map(items@)
                &&& state@.parameters == parameters
                &&& state@.ledger == ledger@
            },
    {
        let mut state = State::new(parameters);
        state.put_ledger(ledger);
        let prefix = MODULE_NAME.as_bytes();
        let p: usize = prefix.len();
        let ghost all = items@;
        let ghost defaults = layout(state@);
        // The items are moved out from the back of the list in its opposite order.
        let mut rest = items;
        let n: usize = rest.len();
        let mut stack: Vec<Persisted> = Vec::new();
        let mut k: usize = 0;
        while k < n
            invariant
                k <= n,
                n == all.len(),
                rest@ == all.take(n - k),
                stack@ == all.reverse().take(k as int),
            decreases n - k,
        {
            let item = rest.pop().unwrap();
            stack.push(item);
            k += 1;
            proof {
                assert(rest@ =~= all.take(n - k));
                assert(stack@ =~= all.reverse().take(k as int));
            }
        }
        let mut seen_code_id = false;
        let mut seen_instance_id = false;
        let mut i: usize = 0;
        proof {
            assert(stack@ =~= all.reverse());
            assert(all.take(0) =~= Seq::<Persisted>::empty());
            assert(defaults.union_prefer_right(persisted_map(all.take(0))) =~= defaults);
            assert(state@.raw =~= Map::<Seq<u8>, Seq<u8>>::empty());
        }
        while i < n
            invariant
                i <= n,
                n == all.len(),
                all == items@,
                prefix@ == key_prefix(),
                p == prefix@.len(),
                stack@ == all.reverse().take(n - i),
                state@.parameters == parameters,
                state@.ledger == ledger@,
                raw_in_namespace(state@.raw),
                layout(state@) == defaults.union_prefer_right(persisted_map(all.take(i as int))),
                forall|j: int| 0 <= j < i ==> acceptable((#[trigger] all[j]).key@, all[j].value@),
                seen_code_id == persisted_map(all.take(i as int)).contains_key(
                    next_code_id_key(),
                ),
                seen_instance_id == persisted_map(all.take(i as int)).contains_key(
                    next_instance_id_key(),
                ),
            decreases n - i,
        {
            let item = stack.pop().unwrap();
            let ghost so_far = persisted_map(all.take(i as int));
            let ghost before = state@;
            proof {
                assert(item == all[i as int]);
                assert(all.take(i + 1).drop_last() =~= all.take(i as int));
                assert(persisted_map(all.take(i + 1)) == so_far.insert(item.key@, item.value@));
                assert(defaults.union_prefer_right(so_far).insert(item.key@, item.value@)
                    =~= defaults.union_prefer_right(so_far.insert(item.key@, item.value@)));
                assert(next_code_id_key()[p as int] == NEXT_CODE_IDENTIFIER);
                assert(next_instance_id_key()[p as int] == NEXT_INSTANCE_IDENTIFIER);
            }
            let Persisted { key, value } = item;
            if !has_prefix(key.as_slice(), prefix) || key.len() <= p {
                return None;
            }
            let namespace = key[p];
            if namespace == NEXT_CODE_IDENTIFIER || namespace == NEXT_INSTANCE_IDENTIFIER {
                if key.len() != p + 1 {
                    return None;
                }
                let id = match value {
                    Stored::Record(Value::Unsigned(id)) => id,
                    _ => {
                        return None;
                    },
                };
                proof {
                    assert(key@ =~= crate::state::single_key(namespace));
                }
                if namespace == NEXT_CODE_IDENTIFIER {
                    proof {
                        lemma_layout_next_code_id(before, id);
                    }
                    state.put_next_code_id(id);
                    seen_code_id = true;
                } else {
                    proof {
                        lemma_layout_next_instance_id(before, id);
                    }
                    state.put_next_instance_id(id);
                    seen_instance_id = true;
                }
            } else if namespace == CODE_INFO {
                if key.len() - p != 9 {
                    return None;
                }
                let record = match value {
                    Stored::Record(record) => record,
                    Stored::Bytes(_) => {
                        return None;
                    },
                };
                let ghost written = record@;
                let info = match Code::try_from_cbor_value(record) {
                    Err(_) => {
                        return None;
                    },
                    Ok(info) => info,
                };
                let id_bytes = bytes_after(key.as_slice(), p + 1);
                let id = from_be_bytes(id_bytes.as_slice());
                if info.id.as_u64() != id {
                    return None;
                }
                proof {
                    assert(key@ =~= code_info_key(info.id));
                    crate::wire::lemma_code_written_back(written);
                    lemma_layout_code_info(before, info);
                }
                state.store_code_info(info);
            } else if namespace == INSTANCE_INFO {
                if key.len() - p != 9 {
                    return None;
                }
                let record = match value {
                    Stored::Record(record) => record,
                    Stored::Bytes(_) => {
                        return None;
                    },
                };
                let ghost written = record@;
                let info = match Instance::try_from_cbor_value(record) {
                    Err(_) => {
                        return None;
                    },
                    Ok(info) => info,
                };
                let id_bytes = bytes_after(key.as_slice(), p + 1);
                let id = from_be_bytes(id_bytes.as_slice());
                if info.id.as_u64() != id {
                    return None;
                }
                proof {
                    assert(key@ =~= instance_info_key(info.id));
                    crate::wire::lemma_instance_written_back(written);
                    lemma_layout_instance_info(before, info);
                }
                state.store_instance_info(info);
            } else if namespace == INSTANCE_STATE || namespace == CODE {
                let bytes = match value {
                    Stored::Bytes(bytes) => bytes,
                    Stored::Record(_) => {
                        return None;
                    },
                };
                proof {
                    lemma_layout_raw(before, key@, bytes@);
                }
                state.put_raw(key.as_slice(), bytes.as_slice());
            } else {
                return None;
            }
            i += 1;
            proof {
                assert(stack@ =~= all.reverse().take(n - i));
            }
        }
        proof {
            assert(all.take(n as int) =~= all);
        }
        if !seen_code_id || !seen_instance_id {
            return None;
        }
        proof {
            let kept = persisted_map(all);
            assert(defaults =~= next_ids_layout(0, 0)) by {
                assert(code_info_layout(Map::<u64, Code>::empty()) =~= Map::<
                    Seq<u8>,
                    StoredView,
                >::empty());
                assert(instance_info_layout(Map::<u64, Instance>::empty()) =~= Map::<
                    Seq<u8>,
                    StoredView,
                >::empty());
                assert(raw_layout(Map::<Seq<u8>, Seq<u8>>::empty()) =~= Map::<
                    Seq<u8>,
                    StoredView,
                >::empty());
            }
            assert(defaults.union_prefer_right(kept) =~= kept);
        }
        Some(state)
    }
}

} // verus!
