use contracts::address::{Address, ADDRESS_V0_MODULE_CONTEXT};
use contracts::bytes::{from_be_bytes, from_be_bytes_wide, to_be_bytes, to_be_bytes_wide};
use contracts::types::{Instance, InstanceId, Policy};
use sha2::Digest;

fn hex_bytes(text: &str) -> Vec<u8> {
    let digits: Vec<u8> = text
        .bytes()
        .map(|c| match c {
            b'0'..=b'9' => c - b'0',
            b'a'..=b'f' => c - b'a' + 10,
            _ => panic!("not a hex digit"),
        })
        .collect();
    digits.chunks(2).map(|pair| pair[0] * 16 + pair[1]).collect()
}

#[test]
fn digest_of_empty_input_is_the_known_value() {
    let expected = hex_bytes("c672b8d1ef56ed28ab87c3622c5114069bdd3ad7b8f9737498d0c01ecef0967a");
    assert_eq!(contracts::crypto::Hash::empty_hash().0.to_vec(), expected);
    assert_eq!(contracts::crypto::Hash::digest_bytes(&[]).0.to_vec(), expected);
}

#[test]
fn digest_of_abc_is_the_known_value() {
    let expected = hex_bytes("53048e2681941ef99b2e29b76b4c7dabe4c2d0c634fc6d46e0e2f13107e7af23");
    assert_eq!(contracts::crypto::Hash::digest_bytes(b"abc").0.to_vec(), expected);
}

#[test]
fn digest_is_not_the_input() {
    let input = [7u8; 32];
    let digest = contracts::crypto::Hash::digest_bytes(&input);
    assert_ne!(digest.0, input);
    assert_eq!(digest, contracts::crypto::Hash::digest_bytes(&input));
}

#[test]
fn digest_round_trips_through_bytes() {
    let digest = contracts::crypto::Hash::digest_bytes(b"code");
    let bytes = digest.to_vec();
    assert_eq!(bytes.len(), 32);
    assert_eq!(contracts::crypto::Hash::from_bytes(&bytes), Some(digest));
    assert_eq!(contracts::crypto::Hash::from_bytes(&bytes[..31]), None);
    assert!(digest.same(&contracts::crypto::Hash::from_bytes(&bytes).unwrap()));
    assert_eq!(digest.truncated(20), bytes[..20].to_vec());
}

fn expected_instance_address(id: u64) -> Vec<u8> {
    let mut hasher = sha2::Sha512_256::new();
    hasher.update(b"oasis-runtime-sdk/address: module");
    hasher.update([0u8]);
    hasher.update(b"contracts");
    hasher.update(b".");
    hasher.update(id.to_be_bytes());
    let digest = hasher.finalize();
    let mut expected = vec![0u8];
    expected.extend_from_slice(&digest[..20]);
    expected
}

#[test]
fn instance_address_is_derived_from_module_name_and_id() {
    assert_eq!(ADDRESS_V0_MODULE_CONTEXT, "oasis-runtime-sdk/address: module");
    for id in [0u64, 1, 2, 255, 256, u64::MAX] {
        let address = Instance::address_for(InstanceId(id));
        assert_eq!(address.to_vec(), expected_instance_address(id));
        assert_eq!(address.0[0], 0);
    }
}

#[test]
fn instance_address_depends_only_on_the_id() {
    let first = Instance {
        id: InstanceId(7),
        code_id: 1.into(),
        creator: Address::default(),
        upgrades_policy: Policy::Everyone,
    };
    let second = Instance {
        id: InstanceId(7),
        code_id: 99.into(),
        creator: Address::from_module_raw("keys", b"alice"),
        upgrades_policy: Policy::Nobody,
    };
    assert_eq!(first.address(), second.address());
    assert_eq!(first.address(), Instance::address_for(InstanceId(7)));
    assert_ne!(first.address(), Instance::address_for(InstanceId(8)));
}

#[test]
fn module_address_joins_name_and_kind_with_a_dot() {
    let address = Address::from_module_raw("contracts", &1u64.to_be_bytes());
    assert_eq!(address, Instance::address_for(InstanceId(1)));
    let other = Address::from_module_raw("contract", b"s\x00\x00\x00\x00\x00\x00\x00\x01");
    assert_ne!(address, other);
}

#[test]
fn address_from_bytes_wants_twenty_one_bytes() {
    let bytes = [3u8; 21];
    let address = Address::from_bytes(&bytes).unwrap();
    assert_eq!(address.0, bytes);
    assert_eq!(address.to_vec(), bytes.to_vec());
    assert!(Address::from_bytes(&bytes[..20]).is_none());
    assert!(Address::from_bytes(&[3u8; 22]).is_none());
    assert!(address.same(&Address(bytes)));
    assert!(!address.same(&Address::default()));
    assert_eq!(Address::default().0, [0u8; 21]);
}

#[test]
fn identifiers_are_written_big_endian() {
    assert_eq!(InstanceId(1).to_storage_key(), vec![0, 0, 0, 0, 0, 0, 0, 1]);
    assert_eq!(
        InstanceId(0x0102030405060708).to_storage_key(),
        vec![1, 2, 3, 4, 5, 6, 7, 8]
    );
    assert_eq!(to_be_bytes(u64::MAX), vec![0xff; 8]);
    assert_eq!(from_be_bytes(&[1, 2, 3, 4, 5, 6, 7, 8]), 0x0102030405060708);
    assert_eq!(InstanceId(4).increment(), InstanceId(5));
    assert_eq!(InstanceId(4).as_u64(), 4);
    let id: InstanceId = 9.into();
    assert_eq!(id, InstanceId(9));
    assert_eq!(InstanceId::default(), InstanceId(0));
}

#[test]
fn wide_numbers_are_written_in_sixteen_bytes() {
    let bytes = to_be_bytes_wide(1_000_000);
    assert_eq!(
        bytes,
        vec![0, 0, 0, 0, 0, 0, 0, 0, 0, 0, 0, 0, 0, 0x0f, 0x42, 0x40]
    );
    assert_eq!(from_be_bytes_wide(&bytes), 1_000_000);
    assert_eq!(from_be_bytes_wide(&to_be_bytes_wide(u128::MAX)), u128::MAX);
    assert_eq!(from_be_bytes_wide(&[1, 2, 3]), 0);
}
