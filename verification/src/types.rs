//! Contracts module types.
use vstd::prelude::*;
use vstd::string::StringSliceAdditionalSpecFns;
use crate::address::{module_address, Address};
use crate::bytes::{be_bytes, to_be_bytes};
use crate::context::Context;
use crate::token::{tokens_view, BaseUnits};
use crate::{Error, MODULE_NAME};

verus! {

/// Unique stored code identifier.
#[derive(Clone, Copy, Debug, PartialEq, Eq, Structural)]
pub struct CodeId(pub u64);

impl CodeId {
    /// The identifier as a number.
    pub fn as_u64(&self) -> (id: u64)
        ensures
            id == self.0,
    {
        self.0
    }

    /// The identifier that follows this one.
    pub fn increment(&self) -> (next: CodeId)
        requires
            self.0 < u64::MAX,
        ensures
            next.0 == self.0 + 1,
    {
        CodeId(self.0 + 1)
    }

    /// The identifier as a storage key: its eight bytes, most significant
    /// first.
    pub fn to_storage_key(self) -> (key: Vec<u8>)
        ensures
            key@ == be_bytes(self.0),
    {
        to_be_bytes(self.0)
    }
}

impl From<u64> for CodeId {
    fn from(id: u64) -> (code_id: CodeId) {
        CodeId(id)
    }
}

impl vstd::std_specs::convert::FromSpecImpl<u64> for CodeId {
    open spec fn obeys_from_spec() -> bool {
        true
    }

    open spec fn from_spec(id: u64) -> CodeId {
        CodeId(id)
    }
}

impl Default for CodeId {
    fn default() -> (id: CodeId)
        ensures
            id.0 == 0,
    {
        CodeId(0)
    }
}

/// Unique deployed code instance identifier.
#[derive(Clone, Copy, Debug, PartialEq, Eq, Structural)]
pub struct InstanceId(pub u64);

impl InstanceId {
    /// The identifier as a number.
    pub fn as_u64(&self) -> (id: u64)
        ensures
            id == self.0,
    {
        self.0
    }

    /// The identifier that follows this one.
    pub fn increment(&self) -> (next: InstanceId)
        requires
            self.0 < u64::MAX,
        ensures
            next.0 == self.0 + 1,
    {
        InstanceId(self.0 + 1)
    }

    /// The identifier as a storage key: its eight bytes, most significant
    /// first.
    pub fn to_storage_key(self) -> (key: Vec<u8>)
        ensures
            key@ == be_bytes(self.0),
    {
        to_be_bytes(self.0)
    }
}

impl From<u64> for InstanceId {
    fn from(id: u64) -> (instance_id: InstanceId) {
        InstanceId(id)
    }
}

impl vstd::std_specs::convert::FromSpecImpl<u64> for InstanceId {
    open spec fn obeys_from_spec() -> bool {
        true
    }

    open spec fn from_spec(id: u64) -> InstanceId {
        InstanceId(id)
    }
}

impl Default for InstanceId {
    fn default() -> (id: InstanceId)
        ensures
            id.0 == 0,
    {
        InstanceId(0)
    }
}

/// Who may perform a guarded action.
#[derive(Clone, Copy, Debug, PartialEq, Eq)]
pub enum Policy {
    /// Nobody is allowed to perform the action.
    Nobody,
    /// Only the given caller is allowed to perform the action.
    Address(Address),
    /// Anyone is allowed to perform the action.
    Everyone,
}

/// What a [`Policy`] holds.
pub enum PolicyView {
    Nobody,
    Address(Seq<u8>),
    Everyone,
}

impl View for Policy {
    type V = PolicyView;

    open spec fn view(&self) -> PolicyView {
        match self {
            Policy::Nobody => PolicyView::Nobody,
            Policy::Address(address) => PolicyView::Address(address@),
            Policy::Everyone => PolicyView::Everyone,
        }
    }
}

impl Policy {
    /// Whether the policy lets `caller` perform the action.
    pub open spec fn allows(self, caller: Address) -> bool {
        match self {
            Policy::Nobody => false,
            Policy::Address(address) => address == caller,
            Policy::Everyone => true,
        }
    }

    /// Enforces the policy on the caller of the transaction.
    pub fn enforce(&self, ctx: &Context) -> (result: Result<(), Error>)
        ensures
            self.allows(ctx.caller) ==> result is Ok,
            !self.allows(ctx.caller) ==> result == Err::<(), Error>(Error::Forbidden),
    {
        match self {
            Policy::Nobody => Err(Error::Forbidden),
            Policy::Address(address) => {
                if address.same(&ctx.tx_caller_address()) {
                    Ok(())
                } else {
                    Err(Error::Forbidden)
                }
            },
            Policy::Everyone => Ok(()),
        }
    }
}

/// ABI that should be exposed to the given contract.
#[derive(Clone, Copy, Debug, PartialEq, Eq, Hash, Structural)]
pub enum ABI {
    /// Custom SDK-specific ABI (v1).
    OasisV1,
}

/// Stored code.
#[derive(Clone, Copy, Debug, PartialEq, Eq)]
pub struct Code {
    /// Unique code identifier.
    pub id: CodeId,
    /// Digest of the stored code.
    pub hash: crate::crypto::Hash,
    /// ABI.
    pub abi: ABI,
    /// Who is allowed to instantiate this code.
    pub instantiate_policy: Policy,
}

/// What a [`Code`] holds.
pub struct CodeView {
    pub id: CodeId,
    pub hash: Seq<u8>,
    pub abi: ABI,
    pub instantiate_policy: PolicyView,
}

impl View for Code {
    type V = CodeView;

    open spec fn view(&self) -> CodeView {
        CodeView {
            id: self.id,
            hash: self.hash@,
            abi: self.abi,
            instantiate_policy: self.instantiate_policy@,
        }
    }
}

/// A deployed code instance.
#[derive(Clone, Copy, Debug, PartialEq, Eq)]
pub struct Instance {
    /// Unique instance identifier.
    pub id: InstanceId,
    /// Identifier of code used by the instance.
    pub code_id: CodeId,
    /// Instance creator.
    pub creator: Address,
    /// Who is allowed to upgrade this instance.
    pub upgrades_policy: Policy,
}

/// What an [`Instance`] holds.
pub struct InstanceView {
    pub id: InstanceId,
    pub code_id: CodeId,
    pub creator: Seq<u8>,
    pub upgrades_policy: PolicyView,
}

impl View for Instance {
    type V = InstanceView;

    open spec fn view(&self) -> InstanceView {
        InstanceView {
            id: self.id,
            code_id: self.code_id,
            creator: self.creator@,
            upgrades_policy: self.upgrades_policy@,
        }
    }
}

/// The bytes of the address of the instance with the given identifier: the
/// address of the module's object whose kind is the identifier's eight
/// bytes, most significant first.
pub open spec fn instance_address(id: InstanceId) -> Seq<u8> {
    module_address(MODULE_NAME.spec_bytes(), be_bytes(id.0))
}

impl Instance {
    /// Address associated with a specific contract instance.
    pub fn address_for(id: InstanceId) -> (address: Address)
        ensures
            address@ == instance_address(id),
    {
        let kind = to_be_bytes(id.as_u64());
        Address::from_module_raw(MODULE_NAME, kind.as_slice())
    }

    /// Address associated with the contract.
    pub fn address(&self) -> (address: Address)
        ensures
            address@ == instance_address(self.id),
    {
        Instance::address_for(self.id)
    }
}

/// Upload call.
#[derive(Debug, PartialEq, Eq)]
pub struct Upload {
    /// ABI.
    pub abi: ABI,
    /// Who is allowed to instantiate this code.
    pub instantiate_policy: Policy,
    /// Compiled code.
    pub code: Vec<u8>,
}

/// What an [`Upload`] holds.
pub struct UploadView {
    pub abi: ABI,
    pub instantiate_policy: PolicyView,
    pub code: Seq<u8>,
}

impl View for Upload {
    type V = UploadView;

    open spec fn view(&self) -> UploadView {
        UploadView {
            abi: self.abi,
            instantiate_policy: self.instantiate_policy@,
            code: self.code@,
        }
    }
}

/// Upload call result.
#[derive(Clone, Copy, Debug, PartialEq, Eq)]
pub struct UploadResult {
    /// Assigned code identifier.
    pub id: CodeId,
}

impl Default for UploadResult {
    fn default() -> (result: UploadResult)
        ensures
            result.id.0 == 0,
    {
        UploadResult { id: CodeId(0) }
    }
}

/// Instantiate call.
#[derive(Debug, PartialEq, Eq)]
pub struct Instantiate {
    /// Identifier of code used by the instance.
    pub code_id: CodeId,
    /// Who is allowed to upgrade this instance.
    pub upgrades_policy: Policy,
    /// Arguments to contract's instantiation function.
    pub data: Vec<u8>,
    /// Tokens that should be sent to the contract as part of the instantiate call.
    pub tokens: Vec<BaseUnits>,
}

/// What an [`Instantiate`] holds.
pub struct InstantiateView {
    pub code_id: CodeId,
    pub upgrades_policy: PolicyView,
    pub data: Seq<u8>,
    pub tokens: Seq<(u128, Seq<u8>)>,
}

impl View for Instantiate {
    type V = InstantiateView;

    open spec fn view(&self) -> InstantiateView {
        InstantiateView {
            code_id: self.code_id,
            upgrades_policy: self.upgrades_policy@,
            data: self.data@,
            tokens: tokens_view(self.tokens@),
        }
    }
}

/// Instantiate call result.
#[derive(Clone, Copy, Debug, PartialEq, Eq)]
pub struct InstantiateResult {
    /// Assigned instance identifier.
    pub id: InstanceId,
}

impl Default for InstantiateResult {
    fn default() -> (result: InstantiateResult)
        ensures
            result.id.0 == 0,
    {
        InstantiateResult { id: InstanceId(0) }
    }
}

/// Contract call.
#[derive(Debug, PartialEq, Eq)]
pub struct Call {
    /// Instance identifier.
    pub id: InstanceId,
    /// Call arguments.
    pub data: Vec<u8>,
    /// Tokens that should be sent to the contract as part of the call.
    pub tokens: Vec<BaseUnits>,
}

/// What a [`Call`] holds.
pub struct CallView {
    pub id: InstanceId,
    pub data: Seq<u8>,
    pub tokens: Seq<(u128, Seq<u8>)>,
}

impl View for Call {
    type V = CallView;

    open spec fn view(&self) -> CallView {
        CallView { id: self.id, data: self.data@, tokens: tokens_view(self.tokens@) }
    }
}

/// Contract call result.
#[derive(Debug, PartialEq, Eq)]
pub struct CallResult(pub Vec<u8>);

impl Default for CallResult {
    fn default() -> (result: CallResult)
        ensures
            result.0@ == Seq::<u8>::empty(),
    {
        CallResult(Vec::new())
    }
}

/// Upgrade call.
#[derive(Debug, PartialEq, Eq)]
pub struct Upgrade {
    /// Instance identifier.
    pub id: InstanceId,
    /// Updated code identifier.
    pub code_id: CodeId,
    /// Arguments to contract's upgrade function.
    pub data: Vec<u8>,
    /// Tokens that should be sent to the contract as part of the call.
    pub tokens: Vec<BaseUnits>,
}

/// What an [`Upgrade`] holds.
pub struct UpgradeView {
    pub id: InstanceId,
    pub code_id: CodeId,
    pub data: Seq<u8>,
    pub tokens: Seq<(u128, Seq<u8>)>,
}

impl View for Upgrade {
    type V = UpgradeView;

    open spec fn view(&self) -> UpgradeView {
        UpgradeView {
            id: self.id,
            code_id: self.code_id,
            data: self.data@,
            tokens: tokens_view(self.tokens@),
        }
    }
}

/// Code information query.
#[derive(Clone, Copy, Debug, PartialEq, Eq)]
pub struct CodeQuery {
    /// Code identifier.
    pub id: CodeId,
}

/// Instance information query.
#[derive(Clone, Copy, Debug, PartialEq, Eq)]
pub struct InstanceQuery {
    /// Instance identifier.
    pub id: InstanceId,
}

/// Instance storage query.
#[derive(Debug, PartialEq, Eq)]
pub struct InstanceStorageQuery {
    /// Instance identifier.
    pub id: InstanceId,
    /// Storage key.
    pub key: Vec<u8>,
}

/// What an [`InstanceStorageQuery`] holds.
pub struct InstanceStorageQueryView {
    pub id: InstanceId,
    pub key: Seq<u8>,
}

impl View for InstanceStorageQuery {
    type V = InstanceStorageQueryView;

    open spec fn view(&self) -> InstanceStorageQueryView {
        InstanceStorageQueryView { id: self.id, key: self.key@ }
    }
}

/// Instance storage query result.
#[derive(Debug, PartialEq, Eq)]
pub struct InstanceStorageQueryResult {
    /// Storage value or `None` if key doesn't exist.
    pub value: Option<Vec<u8>>,
}

/// Public key kind.
#[derive(Clone, Copy, Debug, PartialEq, Eq, Structural)]
pub enum PublicKeyKind {
    Transaction,
}

/// Public key query.
#[derive(Clone, Copy, Debug, PartialEq, Eq)]
pub struct PublicKeyQuery {
    /// Instance identifier.
    pub id: InstanceId,
    /// Kind of public key.
    pub kind: PublicKeyKind,
}

/// Public key query result.
#[derive(Debug, PartialEq, Eq)]
pub struct PublicKeyQueryResult {
    /// Public key.
    pub key: Vec<u8>,
    /// Checksum of the key manager state.
    pub checksum: Vec<u8>,
    /// Signature of the key manager over the key and the checksum.
    pub signature: Vec<u8>,
}

/// Custom contract query.
#[derive(Debug, PartialEq, Eq)]
pub struct CustomQuery {
    /// Instance identifier.
    pub id: InstanceId,
    /// Query method name.
    pub method: String,
    /// Query method arguments.
    pub data: Vec<u8>,
}

/// What a [`CustomQuery`] holds.
pub struct CustomQueryView {
    pub id: InstanceId,
    pub method: Seq<char>,
    pub data: Seq<u8>,
}

impl View for CustomQuery {
    type V = CustomQueryView;

    open spec fn view(&self) -> CustomQueryView {
        CustomQueryView { id: self.id, method: self.method@, data: self.data@ }
    }
}

/// Custom query result.
#[derive(Debug, PartialEq, Eq)]
pub struct CustomQueryResult(pub Vec<u8>);

} // verus!
