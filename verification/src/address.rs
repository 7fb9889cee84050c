//! Account addresses.
use vstd::prelude::*;
use vstd::string::StringSliceAdditionalSpecFns;
use crate::bytes::append_bytes;
use crate::crypto::sha512_256;

verus! {

/// Number of bytes in an address: a version byte and twenty bytes of digest.
pub const ADDRESS_SIZE: usize = 21;

/// Number of digest bytes in an address.
pub const ADDRESS_DATA_SIZE: usize = 20;

/// Address version.
pub const ADDRESS_V0_VERSION: u8 = 0;

/// Context under which the addresses of modules are derived.
pub const ADDRESS_V0_MODULE_CONTEXT: &'static str = "oasis-runtime-sdk/address: module";

/// An account address.
#[derive(Clone, Copy, Debug, PartialEq, Eq)]
pub struct Address(pub [u8; 21]);

impl View for Address {
    type V = Seq<u8>;

    open spec fn view(&self) -> Seq<u8> {
        self.0@
    }
}

/// The bytes of the address derived from a context, a version and data: the
/// version, then the first twenty bytes of the digest of the three joined.
pub open spec fn derived_address(context: Seq<u8>, version: u8, data: Seq<u8>) -> Seq<u8> {
    seq![version] + sha512_256(context + seq![version] + data).take(ADDRESS_DATA_SIZE as int)
}

/// The bytes of the address of a module's object: derived under the module
/// context from the module's name, a dot and the object's kind.
pub open spec fn module_address(module: Seq<u8>, kind: Seq<u8>) -> Seq<u8> {
    derived_address(
        ADDRESS_V0_MODULE_CONTEXT.spec_bytes(),
        ADDRESS_V0_VERSION,
        module + seq![0x2eu8] + kind,
    )
}

impl Address {
    /// Derives an address from a context, a version and data.
    pub fn new(context: &[u8], version: u8, data: &[u8]) -> (address: Address)
        ensures
            address@ == derived_address(context@, version, data@),
    {
        let mut input: Vec<u8> = Vec::new();
        append_bytes(&mut input, context);
        input.push(version);
        append_bytes(&mut input, data);
        assert(input@ =~= context@ + seq![version] + data@);
        let hash = crate::crypto::Hash::digest_bytes(input.as_slice());
        let mut bytes: [u8; 21] = [0u8; 21];
        bytes[0] = version;
        let mut i: usize = 0;
        while i < ADDRESS_DATA_SIZE
            invariant
                i <= ADDRESS_DATA_SIZE,
                hash@.len() == 32,
                bytes@[0] == version,
                forall|j: int| 0 <= j < i ==> bytes@[j + 1] == hash@[j],
            decreases ADDRESS_DATA_SIZE - i,
        {
            bytes[i + 1] = hash.0[i];
            i += 1;
        }
        assert(bytes@ =~= derived_address(context@, version, data@));
        Address(bytes)
    }

    /// Derives the address of a module's object from the module's name and
    /// the bytes that tell the object's kind.
    pub fn from_module_raw(module: &str, kind: &[u8]) -> (address: Address)
        ensures
            address@ == module_address(module.spec_bytes(), kind@),
    {
        let mut data: Vec<u8> = Vec::new();
        append_bytes(&mut data, module.as_bytes());
        data.push(0x2eu8);
        append_bytes(&mut data, kind);
        assert(data@ =~= module.spec_bytes() + seq![0x2eu8] + kind@);
        Address::new(ADDRESS_V0_MODULE_CONTEXT.as_bytes(), ADDRESS_V0_VERSION, data.as_slice())
    }

    /// The address that holds the given bytes, if there are twenty-one.
    pub fn from_bytes(data: &[u8]) -> (address: Option<Address>)
        ensures
            address is Some <==> data@.len() == ADDRESS_SIZE,
            address matches Some(a) ==> a@ == data@,
    {
        if data.len() != ADDRESS_SIZE {
            return None;
        }
        let mut bytes: [u8; 21] = [0u8; 21];
        let mut i: usize = 0;
        while i < ADDRESS_SIZE
            invariant
                i <= ADDRESS_SIZE,
                data@.len() == ADDRESS_SIZE,
                forall|j: int| 0 <= j < i ==> bytes@[j] == data@[j],
            decreases ADDRESS_SIZE - i,
        {
            bytes[i] = data[i];
            i += 1;
        }
        assert(bytes@ =~= data@);
        Some(Address(bytes))
    }

    /// The bytes of the address.
    pub fn to_vec(&self) -> (bytes: Vec<u8>)
        ensures
            bytes@ == self@,
    {
        let mut bytes: Vec<u8> = Vec::new();
        let mut i: usize = 0;
        while i < ADDRESS_SIZE
            invariant
                i <= ADDRESS_SIZE,
                bytes@ == self@.take(i as int),
            decreases ADDRESS_SIZE - i,
        {
            bytes.push(self.0[i]);
            i += 1;
            assert(bytes@ =~= self@.take(i as int));
        }
        assert(self@.take(ADDRESS_SIZE as int) =~= self@);
        bytes
    }

    /// Whether two addresses are the same.
    pub fn same(&self, other: &Address) -> (equal: bool)
        ensures
            equal == (self@ == other@),
            equal == (*self == *other),
    {
        let mut i: usize = 0;
        while i < ADDRESS_SIZE
            invariant
                i <= ADDRESS_SIZE,
                forall|j: int| 0 <= j < i ==> self@[j] == other@[j],
            decreases ADDRESS_SIZE - i,
        {
            if self.0[i] != other.0[i] {
                return false;
            }
            i += 1;
        }
        assert(self@ =~= other@);
        assert(self.0 =~= other.0);
        true
    }
}

impl Default for Address {
    /// The address of twenty-one zero bytes.
    fn default() -> (address: Address)
        ensures
            address@ == Seq::new(ADDRESS_SIZE as nat, |i: int| 0u8),
    {
        let address = Address([0u8; 21]);
        assert(address@ =~= Seq::new(ADDRESS_SIZE as nat, |i: int| 0u8));
        address
    }
}

} // verus!
