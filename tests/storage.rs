use r55::storage::{Address, Mapping, Storage, ToBytes};

fn expected_slot(key: &[u8], id: u64) -> u64 {
    let mut data = key.to_vec();
    data.extend_from_slice(&id.to_le_bytes());
    let digest = alloy_core::primitives::keccak256(&data);
    u64::from_le_bytes(digest.0[0..8].try_into().unwrap())
}

#[test]
fn store_then_load_returns_value() {
    let mut st = Storage::new();
    assert_eq!(st.sload(5), 0);
    st.sstore(5, 77);
    assert_eq!(st.sload(5), 77);
    assert_eq!(st.sload(6), 0);
    st.sstore(5, u64::MAX);
    assert_eq!(st.sload(5), u64::MAX);
}

#[test]
fn address_bytes_round_trip() {
    let a = Address::from_low_byte(7);
    let mut want = [0u8; 20];
    want[19] = 7;
    assert_eq!(a.bytes, want);
    assert_eq!(a.to_bytes(), want.to_vec());
    assert!(a == Address::new(want));
    assert!(a != Address::from_low_byte(8));
}

#[test]
fn mapping_slot_is_keccak_of_key_and_id() {
    let m: Mapping<Address, u64> = Mapping::new(3);
    let a = Address::from_low_byte(1);
    assert_eq!(m.encode_key(a), expected_slot(&a.bytes, 3));
    let m0: Mapping<Address, u64> = Mapping::new(0);
    assert_eq!(m0.encode_key(a), expected_slot(&a.bytes, 0));
}

#[test]
fn mapping_slot_is_deterministic_and_separates_ids() {
    let a = Address::from_low_byte(9);
    let m1: Mapping<Address, u64> = Mapping::new(1);
    let m1_again: Mapping<Address, u64> = Mapping::new(1);
    let m2: Mapping<Address, u64> = Mapping::new(2);
    assert_eq!(m1.encode_key(a), m1_again.encode_key(a));
    assert_ne!(m1.encode_key(a), m2.encode_key(a));
}

#[test]
fn mapping_read_write() {
    let mut st = Storage::new();
    let m: Mapping<Address, u64> = Mapping::new(4);
    let a = Address::from_low_byte(1);
    let b = Address::from_low_byte(2);
    assert_eq!(m.read(&st, a), 0);
    m.write(&mut st, a, 42);
    assert_eq!(m.read(&st, a), 42);
    assert_eq!(m.read(&st, b), 0);
    assert_eq!(st.sload(expected_slot(&a.bytes, 4)), 42);
}
