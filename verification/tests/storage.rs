use contracts::address::Address;
use contracts::context::Context;
use contracts::memory::HostRegion;
use contracts::state::{
    make_instance_state_key, make_record_key, make_single_key, State, StoreKind, CODE, CODE_INFO,
    INSTANCE_INFO, INSTANCE_STATE, NEXT_CODE_IDENTIFIER, NEXT_INSTANCE_IDENTIFIER,
};
use contracts::storage;
use contracts::store::Store;
use contracts::types::{CodeId, InstanceId};
use contracts::{CoreError, Error, GasCosts, Parameters};

fn storage_context(gas_limit: u64) -> Context {
    let params = Parameters {
        gas_costs: GasCosts {
            wasm_storage_get_base: 3,
            wasm_storage_insert_base: 5,
            wasm_storage_remove_base: 7,
            ..GasCosts::default()
        },
        ..Parameters::default()
    };
    Context::new(Address::default(), gas_limit, State::new(params))
}

#[test]
fn get_of_an_absent_key_gives_none_and_the_sentinel_region() {
    let mut ctx = storage_context(100);
    let value = storage::get(&mut ctx, InstanceId(1), 0, b"absent").unwrap();
    assert_eq!(value, None);
    let region = HostRegion::for_value(None);
    assert_eq!(region, HostRegion { offset: 0, length: 0 });
    assert!(region.is_absent());
    assert_eq!(region.to_packed(), 0);
    assert_eq!(HostRegion::absent(), region);
}

#[test]
fn get_of_a_present_key_gives_its_value() {
    let mut ctx = storage_context(100);
    storage::insert(&mut ctx, InstanceId(1), 0, b"key", b"value").unwrap();
    assert_eq!(
        storage::get(&mut ctx, InstanceId(1), 0, b"key"),
        Ok(Some(b"value".to_vec()))
    );
    let placed = HostRegion {
        offset: 64,
        length: 5,
    };
    assert_eq!(HostRegion::for_value(Some(placed)), placed);
    assert!(!placed.is_absent());
}

#[test]
fn insert_replaces_and_remove_removes() {
    let mut ctx = storage_context(100);
    storage::insert(&mut ctx, InstanceId(1), 0, b"key", b"one").unwrap();
    storage::insert(&mut ctx, InstanceId(1), 0, b"key", b"two").unwrap();
    assert_eq!(
        storage::get(&mut ctx, InstanceId(1), 0, b"key"),
        Ok(Some(b"two".to_vec()))
    );
    storage::remove(&mut ctx, InstanceId(1), 0, b"key").unwrap();
    assert_eq!(storage::get(&mut ctx, InstanceId(1), 0, b"key"), Ok(None));
    storage::remove(&mut ctx, InstanceId(1), 0, b"key").unwrap();
    assert_eq!(storage::get(&mut ctx, InstanceId(1), 0, b"key"), Ok(None));
}

#[test]
fn each_storage_request_charges_its_base_cost() {
    let mut ctx = storage_context(100);
    storage::get(&mut ctx, InstanceId(1), 0, b"key").unwrap();
    assert_eq!(ctx.gas.gas_used(), 3);
    storage::insert(&mut ctx, InstanceId(1), 0, b"key", b"value").unwrap();
    assert_eq!(ctx.gas.gas_used(), 8);
    storage::remove(&mut ctx, InstanceId(1), 0, b"key").unwrap();
    assert_eq!(ctx.gas.gas_used(), 15);
}

#[test]
fn storage_requests_run_out_of_gas_before_they_touch_the_store() {
    let mut ctx = storage_context(4);
    assert_eq!(
        storage::insert(&mut ctx, InstanceId(1), 0, b"key", b"value"),
        Err(Error::Core(CoreError::OutOfGas))
    );
    assert_eq!(ctx.gas.gas_used(), 0);
    assert_eq!(storage::get(&mut ctx, InstanceId(1), 0, b"key"), Ok(None));
    assert_eq!(ctx.gas.gas_used(), 3);
    assert_eq!(
        storage::get(&mut ctx, InstanceId(1), 0, b"key"),
        Err(Error::Core(CoreError::OutOfGas))
    );
    assert_eq!(
        storage::remove(&mut ctx, InstanceId(1), 0, b"key"),
        Err(Error::Core(CoreError::OutOfGas))
    );
}

#[test]
fn only_the_public_store_is_backed() {
    let mut ctx = storage_context(100);
    for store in [1u32, 2] {
        assert_eq!(
            storage::get(&mut ctx, InstanceId(1), store, b"key"),
            Err(Error::Unsupported)
        );
        assert_eq!(
            storage::insert(&mut ctx, InstanceId(1), store, b"key", b"v"),
            Err(Error::Unsupported)
        );
        assert_eq!(
            storage::remove(&mut ctx, InstanceId(1), store, b"key"),
            Err(Error::Unsupported)
        );
    }
    assert_eq!(
        storage::get(&mut ctx, InstanceId(1), 3, b"key"),
        Err(Error::InvalidArgument)
    );
    assert_eq!(
        storage::insert(&mut ctx, InstanceId(1), u32::MAX, b"key", b"v"),
        Err(Error::InvalidArgument)
    );
}

#[test]
fn store_kinds_have_their_tags() {
    assert_eq!(StoreKind::Public.tag(), 0);
    assert_eq!(StoreKind::Confidential.tag(), 1);
    assert_eq!(StoreKind::Internal.tag(), 2);
    assert_eq!(StoreKind::from_tag(0), Some(StoreKind::Public));
    assert_eq!(StoreKind::from_tag(1), Some(StoreKind::Confidential));
    assert_eq!(StoreKind::from_tag(2), Some(StoreKind::Internal));
    assert_eq!(StoreKind::from_tag(3), None);
}

#[test]
fn instances_do_not_see_each_other() {
    let mut ctx = storage_context(1_000);
    storage::insert(&mut ctx, InstanceId(1), 0, b"key", b"of one").unwrap();
    storage::insert(&mut ctx, InstanceId(2), 0, b"key", b"of two").unwrap();
    assert_eq!(
        storage::get(&mut ctx, InstanceId(1), 0, b"key"),
        Ok(Some(b"of one".to_vec()))
    );
    assert_eq!(
        storage::get(&mut ctx, InstanceId(2), 0, b"key"),
        Ok(Some(b"of two".to_vec()))
    );
    storage::remove(&mut ctx, InstanceId(1), 0, b"key").unwrap();
    assert_eq!(storage::get(&mut ctx, InstanceId(1), 0, b"key"), Ok(None));
    assert_eq!(
        storage::get(&mut ctx, InstanceId(2), 0, b"key"),
        Ok(Some(b"of two".to_vec()))
    );
    // A key of one instance that begins like the identifier of another is still its own.
    storage::insert(&mut ctx, InstanceId(0), 0, &[0, 0, 0, 0, 0, 0, 0, 1, 0, 9], b"x").unwrap();
    assert_eq!(storage::get(&mut ctx, InstanceId(1), 0, &[9]), Ok(None));
}

#[test]
fn storage_of_instances_does_not_touch_stored_code() {
    let mut ctx = storage_context(1_000);
    ctx.state.store_code(CodeId(5), b"code");
    // The code is kept under the namespace 0xFF, the stores of instances under 0x05.
    let mut key = b"contracts".to_vec();
    key.push(0xff);
    key.extend_from_slice(&5u64.to_be_bytes());
    storage::insert(&mut ctx, InstanceId(5), 0, &key, b"overwritten?").unwrap();
    storage::remove(&mut ctx, InstanceId(5), 0, &[]).unwrap();
    assert_eq!(ctx.state.load_code(CodeId(5)), Ok(b"code".to_vec()));
}

#[test]
fn regions_are_packed_into_one_value() {
    let region = HostRegion {
        offset: 0x0102_0304,
        length: 0x0a0b_0c0d,
    };
    assert_eq!(region.to_packed(), 0x0a0b_0c0d_0102_0304);
    assert_eq!(HostRegion::from_packed(0x0a0b_0c0d_0102_0304), region);
    assert_eq!(
        HostRegion::from_packed(u64::MAX),
        HostRegion {
            offset: u32::MAX,
            length: u32::MAX
        }
    );
    assert_eq!(HostRegion::from_packed(0), HostRegion::absent());
    assert!(!HostRegion { offset: 0, length: 1 }.is_absent());
    assert!(!HostRegion { offset: 1, length: 0 }.is_absent());
}

#[test]
fn store_keeps_the_last_value_of_a_key() {
    let mut store = Store::new();
    assert_eq!(store.get(b"a"), None);
    store.insert(b"a", b"1");
    store.insert(b"b", b"2");
    store.insert(b"a", b"3");
    assert_eq!(store.get(b"a"), Some(b"3".to_vec()));
    assert_eq!(store.get(b"b"), Some(b"2".to_vec()));
    let copy = store.duplicate();
    store.remove(b"a");
    assert_eq!(store.get(b"a"), None);
    assert_eq!(store.get(b"b"), Some(b"2".to_vec()));
    assert_eq!(copy.get(b"a"), Some(b"3".to_vec()));
    store.insert(b"", b"empty key");
    assert_eq!(store.get(b""), Some(b"empty key".to_vec()));
}

#[test]
fn keys_follow_the_layout_of_the_state() {
    assert_eq!(
        [
            NEXT_CODE_IDENTIFIER,
            NEXT_INSTANCE_IDENTIFIER,
            CODE_INFO,
            INSTANCE_INFO,
            INSTANCE_STATE,
            CODE
        ],
        [0x01, 0x02, 0x03, 0x04, 0x05, 0xff]
    );
    assert_eq!(make_single_key(NEXT_CODE_IDENTIFIER), b"contracts\x01".to_vec());
    assert_eq!(make_single_key(NEXT_INSTANCE_IDENTIFIER), b"contracts\x02".to_vec());
    assert_eq!(
        make_record_key(CODE_INFO, 1),
        b"contracts\x03\x00\x00\x00\x00\x00\x00\x00\x01".to_vec()
    );
    assert_eq!(
        make_record_key(INSTANCE_INFO, 0x0102),
        b"contracts\x04\x00\x00\x00\x00\x00\x00\x01\x02".to_vec()
    );
    assert_eq!(
        make_record_key(CODE, u64::MAX),
        b"contracts\xff\xff\xff\xff\xff\xff\xff\xff\xff".to_vec()
    );
    assert_eq!(
        make_instance_state_key(InstanceId(2), StoreKind::Public, b"key"),
        b"contracts\x05\x00\x00\x00\x00\x00\x00\x00\x02\x00key".to_vec()
    );
}

#[test]
fn regions_are_read_and_written_within_the_memory() {
    let mut memory: Vec<u8> = (0..16).collect();
    let region = HostRegion {
        offset: 4,
        length: 3,
    };
    assert_eq!(region.read(&memory), Some(vec![4, 5, 6]));
    assert!(region.write(&mut memory, &[9, 9, 9]));
    assert_eq!(memory, vec![0, 1, 2, 3, 9, 9, 9, 7, 8, 9, 10, 11, 12, 13, 14, 15]);
    // Data of another length is not written.
    assert!(!region.write(&mut memory, &[1, 2]));
    // A region that ends where the memory ends is within it, one byte more is not.
    let last = HostRegion {
        offset: 13,
        length: 3,
    };
    assert!(last.within(16));
    assert_eq!(last.read(&memory), Some(vec![13, 14, 15]));
    let beyond = HostRegion {
        offset: 14,
        length: 3,
    };
    assert!(!beyond.within(16));
    assert_eq!(beyond.read(&memory), None);
    assert!(!beyond.write(&mut memory, &[1, 2, 3]));
    let huge = HostRegion {
        offset: u32::MAX,
        length: u32::MAX,
    };
    assert_eq!(huge.read(&memory), None);
    assert_eq!(HostRegion::absent().read(&memory), Some(vec![]));
    assert_eq!(
        HostRegion::from_slice_bounds(8, 2),
        Some(HostRegion {
            offset: 8,
            length: 2
        })
    );
    assert_eq!(HostRegion::from_slice_bounds(1 << 32, 2), None);
}
