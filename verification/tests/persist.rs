use contracts::address::Address;
use contracts::persist::{Persisted, Stored};
use contracts::state::{State, StoreKind};
use contracts::types::{Code, CodeId, Instance, InstanceId, Policy, ABI};
use contracts::value::Value;
use contracts::Parameters;

fn item(key: &[u8], value: Stored) -> Persisted {
    Persisted {
        key: key.to_vec(),
        value,
    }
}

#[test]
fn empty_state_persists_its_next_identifiers() {
    let state = State::new(Parameters::default());
    assert_eq!(
        state.export(),
        vec![
            item(b"contracts\x01", Stored::Record(Value::Unsigned(0))),
            item(b"contracts\x02", Stored::Record(Value::Unsigned(0))),
        ]
    );
}

#[test]
fn state_persists_every_record_under_its_key() {
    let mut state = State::new(Parameters::default());
    let id = state.assign_code_id();
    assert_eq!(id, CodeId(0));
    let code = Code {
        id,
        hash: contracts::crypto::Hash::digest_bytes(b"code"),
        abi: ABI::OasisV1,
        instantiate_policy: Policy::Everyone,
    };
    state.store_code_info(code);
    state.store_code(id, b"code");
    let instance = Instance {
        id: state.assign_instance_id(),
        code_id: id,
        creator: Address::default(),
        upgrades_policy: Policy::Nobody,
    };
    state.store_instance_info(instance);
    state.instance_insert(InstanceId(0), StoreKind::Public, b"key", b"value");
    assert_eq!(
        state.export(),
        vec![
            item(b"contracts\x01", Stored::Record(Value::Unsigned(1))),
            item(b"contracts\x02", Stored::Record(Value::Unsigned(1))),
            item(
                b"contracts\x03\x00\x00\x00\x00\x00\x00\x00\x00",
                Stored::Record(code.into_cbor_value())
            ),
            item(
                b"contracts\x04\x00\x00\x00\x00\x00\x00\x00\x00",
                Stored::Record(instance.into_cbor_value())
            ),
            item(
                b"contracts\xff\x00\x00\x00\x00\x00\x00\x00\x00",
                Stored::Bytes(b"code".to_vec())
            ),
            item(
                b"contracts\x05\x00\x00\x00\x00\x00\x00\x00\x00\x00key",
                Stored::Bytes(b"value".to_vec())
            ),
        ]
    );
}

#[test]
fn removed_entries_are_not_persisted() {
    let mut state = State::new(Parameters::default());
    state.instance_insert(InstanceId(1), StoreKind::Public, b"a", b"1");
    state.instance_insert(InstanceId(1), StoreKind::Public, b"b", b"2");
    state.instance_insert(InstanceId(1), StoreKind::Public, b"a", b"3");
    state.instance_remove(InstanceId(1), StoreKind::Public, b"b");
    let items = state.export();
    assert_eq!(items.len(), 3);
    assert_eq!(
        items[2],
        item(
            b"contracts\x05\x00\x00\x00\x00\x00\x00\x00\x01\x00a",
            Stored::Bytes(b"3".to_vec())
        )
    );
}

fn populated_state() -> State {
    let mut state = State::new(Parameters::default());
    let id = state.assign_code_id();
    state.store_code_info(Code {
        id,
        hash: contracts::crypto::Hash::digest_bytes(b"code"),
        abi: ABI::OasisV1,
        instantiate_policy: Policy::Address(Address::from_module_raw("keys", b"alice")),
    });
    state.store_code(id, b"code");
    let instance = state.assign_instance_id();
    state.store_instance_info(Instance {
        id: instance,
        code_id: id,
        creator: Address::default(),
        upgrades_policy: Policy::Nobody,
    });
    state.instance_insert(instance, StoreKind::Public, b"key", b"value");
    state.instance_insert(instance, StoreKind::Public, b"", b"");
    state
}

fn restored_from(items: Vec<Persisted>) -> Option<State> {
    State::restore(Parameters::default(), contracts::accounts::Ledger::new(), items)
}

#[test]
fn persisted_state_is_read_back() {
    let state = populated_state();
    let restored = restored_from(state.export()).expect("what was persisted can be read back");
    assert_eq!(restored.export(), state.export());
    assert_eq!(restored.next_code_id(), CodeId(1));
    assert_eq!(restored.next_instance_id(), InstanceId(1));
    assert_eq!(restored.load_code_info(CodeId(0)), state.load_code_info(CodeId(0)));
    assert_eq!(restored.load_code(CodeId(0)), Ok(b"code".to_vec()));
    assert_eq!(
        restored.load_instance_info(InstanceId(0)),
        state.load_instance_info(InstanceId(0))
    );
    assert_eq!(
        restored.instance_get(InstanceId(0), StoreKind::Public, b"key"),
        Some(b"value".to_vec())
    );
    assert_eq!(
        restored.instance_get(InstanceId(0), StoreKind::Public, b""),
        Some(vec![])
    );
}

#[test]
fn later_items_override_earlier_ones() {
    let mut items = populated_state().export();
    items.push(item(b"contracts\x01", Stored::Record(Value::Unsigned(7))));
    items.push(item(
        b"contracts\xff\x00\x00\x00\x00\x00\x00\x00\x00",
        Stored::Bytes(b"other".to_vec()),
    ));
    let restored = restored_from(items).unwrap();
    assert_eq!(restored.next_code_id(), CodeId(7));
    assert_eq!(restored.load_code(CodeId(0)), Ok(b"other".to_vec()));
}

#[test]
fn state_that_lacks_a_next_identifier_is_not_read_back() {
    for missing in 0..2 {
        let mut items = populated_state().export();
        items.remove(missing);
        assert!(restored_from(items).is_none());
    }
    assert!(restored_from(vec![]).is_none());
}

#[test]
fn items_that_do_not_fit_the_layout_are_not_read_back() {
    let bad: Vec<Persisted> = vec![
        // A key of another module.
        item(b"accounts\x01", Stored::Record(Value::Unsigned(0))),
        // No namespace.
        item(b"contracts", Stored::Record(Value::Unsigned(0))),
        // A namespace that there is none of.
        item(b"contracts\x06", Stored::Bytes(vec![])),
        // A next identifier that is no number, or has more to its key.
        item(b"contracts\x01", Stored::Bytes(vec![0])),
        item(b"contracts\x02", Stored::Record(Value::TextString("1".to_string()))),
        item(b"contracts\x01\x00", Stored::Record(Value::Unsigned(0))),
        // Code information that cannot be read, or under a key that is too short.
        item(
            b"contracts\x03\x00\x00\x00\x00\x00\x00\x00\x00",
            Stored::Record(Value::Unsigned(0)),
        ),
        item(b"contracts\x03\x00", Stored::Record(Value::Unsigned(0))),
        // An entry of an instance's store that is no bytes.
        item(b"contracts\x05\x00", Stored::Record(Value::Unsigned(0))),
    ];
    for wrong in bad {
        let mut items = populated_state().export();
        items.push(wrong);
        assert!(restored_from(items).is_none());
    }
}

#[test]
fn record_under_the_key_of_another_identifier_is_not_read_back() {
    let state = populated_state();
    let mut items = state.export();
    let code = state.load_code_info(CodeId(0)).unwrap();
    items.push(item(
        b"contracts\x03\x00\x00\x00\x00\x00\x00\x00\x01",
        Stored::Record(code.into_cbor_value()),
    ));
    assert!(restored_from(items).is_none());
    let mut items = state.export();
    let instance = state.load_instance_info(InstanceId(0)).unwrap();
    items.push(item(
        b"contracts\x04\x00\x00\x00\x00\x00\x00\x00\x00",
        Stored::Record(instance.into_cbor_value()),
    ));
    assert!(restored_from(items).is_some());
}
