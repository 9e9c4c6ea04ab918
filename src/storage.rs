//! Contract storage, account addresses, and keyed storage slots.
use std::collections::HashMap;
use std::marker::PhantomData;
use vstd::prelude::*;

verus! {

broadcast use vstd::std_specs::hash::group_hash_axioms;

/// Keccak-256 digest of a byte string, as computed by the outside hasher.
pub uninterp spec fn keccak_of(data: Seq<u8>) -> Seq<u8>;

/// Relies on alloy_primitives::keccak256: the 32-byte digest of the input,
/// a function of the input bytes alone.
#[verifier::external_body]
pub(crate) fn keccak(data: &[u8]) -> (r: [u8; 32])
    ensures
        r@ == keccak_of(data@),
{
    alloy_core::primitives::keccak256(data).0
}

/// A 20-byte account address.
#[derive(Copy, Clone, Debug)]
pub struct Address {
    pub bytes: [u8; 20],
}

impl Address {
    pub fn new(bytes: [u8; 20]) -> (r: Address)
        ensures
            r.bytes == bytes,
    {
        Address { bytes }
    }

    /// The address whose last byte is `b` and whose other bytes are zero.
    pub open spec fn spec_from_low_byte(b: u8) -> Seq<u8> {
        Seq::new(20, |i: int| if i == 19 { b } else { 0u8 })
    }

    pub fn from_low_byte(b: u8) -> (r: Address)
        ensures
            r.bytes@ == Address::spec_from_low_byte(b),
    {
        let mut bytes = [0u8; 20];
        bytes[19] = b;
        assert(bytes@ =~= Address::spec_from_low_byte(b));
        Address { bytes }
    }
}

impl PartialEq for Address {
    fn eq(&self, o: &Address) -> (r: bool) {
        crate::syscalls::bytes_equal(self.bytes.as_slice(), o.bytes.as_slice())
    }
}

impl vstd::std_specs::cmp::PartialEqSpecImpl for Address {
    open spec fn obeys_eq_spec() -> bool {
        true
    }

    open spec fn eq_spec(&self, o: &Address) -> bool {
        self.bytes@ == o.bytes@
    }
}

impl Eq for Address {
}

/// A value that can key a storage mapping by its byte form.
pub trait ToBytes {
    /// The byte form of the key.
    spec fn spec_to_bytes(&self) -> Seq<u8>;

    fn to_bytes(&self) -> (r: Vec<u8>)
        ensures
            r@ == self.spec_to_bytes(),
    ;
}

impl ToBytes for Address {
    open spec fn spec_to_bytes(&self) -> Seq<u8> {
        self.bytes@
    }

    fn to_bytes(&self) -> (r: Vec<u8>) {
        let mut v: Vec<u8> = Vec::with_capacity(20);
        let mut i: usize = 0;
        while i < 20
            invariant
                i <= 20,
                v@ == self.bytes@.subrange(0, i as int),
            decreases 20 - i,
        {
            v.push(self.bytes[i]);
            i = i + 1;
        }
        assert(v@ =~= self.bytes@);
        v
    }
}

/// The 64-bit storage slots of one contract; a slot never written reads as zero.
pub struct Storage {
    slots: HashMap<u64, u64>,
}

impl View for Storage {
    type V = Map<u64, u64>;

    closed spec fn view(&self) -> Map<u64, u64> {
        self.slots@
    }
}

/// The value a slot holds in a storage view.
pub open spec fn slot_value(m: Map<u64, u64>, key: u64) -> u64 {
    if m.contains_key(key) {
        m[key]
    } else {
        0
    }
}

impl Storage {
    pub fn new() -> (r: Storage)
        ensures
            r@ == Map::<u64, u64>::empty(),
    {
        Storage { slots: HashMap::new() }
    }

    /// Reads a slot.
    pub fn sload(&self, key: u64) -> (r: u64)
        ensures
            r == slot_value(self@, key),
    {
        match self.slots.get(&key) {
            Some(v) => *v,
            None => 0,
        }
    }

    /// Writes a slot.
    pub fn sstore(&mut self, key: u64, value: u64)
        ensures
            final(self)@ == old(self)@.insert(key, value),
    {
        self.slots.insert(key, value);
    }
}

/// Writing a slot and then reading it back gives the value written, and
/// leaves every other slot as it was.
pub proof fn lemma_store_then_load(m: Map<u64, u64>, key: u64, value: u64, other: u64)
    ensures
        slot_value(m.insert(key, value), key) == value,
        other != key ==> slot_value(m.insert(key, value), other) == slot_value(m, other),
{
}

/// The integer that eight bytes spell in little-endian order.
pub open spec fn u64_from_le(b: Seq<u8>) -> u64 {
    (b[0] as u64) | (b[1] as u64) << 8 | (b[2] as u64) << 16 | (b[3] as u64) << 24
        | (b[4] as u64) << 32 | (b[5] as u64) << 40 | (b[6] as u64) << 48 | (b[7] as u64) << 56
}

/// The storage slot of a mapping entry: the first eight bytes of
/// keccak256(key bytes ‖ little-endian id), read as a little-endian integer.
pub open spec fn mapping_slot(key_bytes: Seq<u8>, id: u64) -> u64 {
    u64_from_le(keccak_of(key_bytes + crate::loader::le_bytes(id)))
}

/// Equal keys and ids give equal slots, in every run and every contract.
pub proof fn lemma_mapping_slot_deterministic(k1: Seq<u8>, id1: u64, k2: Seq<u8>, id2: u64)
    requires
        k1 == k2,
        id1 == id2,
    ensures
        mapping_slot(k1, id1) == mapping_slot(k2, id2),
{
}

/// A Solidity-like mapping from keys to 64-bit values, kept in the slots that
/// its id and each key's bytes select.
pub struct Mapping<K, V> {
    id: u64,
    pd: PhantomData<(K, V)>,
}

impl<K, V> Mapping<K, V> {
    /// The id that separates this mapping's slots from other mappings'.
    pub closed spec fn spec_id(&self) -> u64 {
        self.id
    }

    pub fn new(id: u64) -> (r: Mapping<K, V>)
        ensures
            r.spec_id() == id,
    {
        Mapping { id, pd: PhantomData }
    }
}

impl<K, V> Default for Mapping<K, V> {
    /// A mapping with id zero.
    fn default() -> (r: Mapping<K, V>)
        ensures
            r.spec_id() == 0,
    {
        Mapping::new(0)
    }
}

impl<K: ToBytes> Mapping<K, u64> {
    /// The storage slot of `key`.
    pub fn encode_key(&self, key: K) -> (r: u64)
        ensures
            r == mapping_slot(key.spec_to_bytes(), self.spec_id()),
    {
        let mut data = key.to_bytes();
        let ghost kb = data@;
        let mut i: usize = 0;
        while i < 8
            invariant
                i <= 8,
                data@ == kb + crate::loader::le_bytes(self.id).subrange(0, i as int),
            decreases 8 - i,
        {
            data.push(((self.id >> (8 * i) as u64) & 0xff) as u8);
            assert(data@ =~= kb + crate::loader::le_bytes(self.id).subrange(0, i + 1));
            i = i + 1;
        }
        assert(crate::loader::le_bytes(self.id).subrange(0, 8) =~= crate::loader::le_bytes(self.id));
        let digest = keccak(data.as_slice());
        (digest[0] as u64) | (digest[1] as u64) << 8 | (digest[2] as u64) << 16 | (digest[3] as u64) << 24
            | (digest[4] as u64) << 32 | (digest[5] as u64) << 40 | (digest[6] as u64) << 48
            | (digest[7] as u64) << 56
    }

    /// Reads the value stored under `key`.
    pub fn read(&self, storage: &Storage, key: K) -> (r: u64)
        ensures
            r == slot_value(storage@, mapping_slot(key.spec_to_bytes(), self.spec_id())),
    {
        storage.sload(self.encode_key(key))
    }

    /// Stores `value` under `key`.
    pub fn write(&self, storage: &mut Storage, key: K, value: u64)
        ensures
            final(storage)@ == old(storage)@.insert(mapping_slot(key.spec_to_bytes(), self.spec_id()), value),
    {
        let slot = self.encode_key(key);
        storage.sstore(slot, value);
    }
}

} // verus!
