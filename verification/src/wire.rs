//! The wire format of the data model: identifiers, policies, code and
//! instance records.
use vstd::prelude::*;
use crate::address::{Address, ADDRESS_SIZE};
use crate::codec::{
    canonical, decode_bytes_exact, decode_u64, field_bytes_exact, field_u64, is_text, names_view,
    option_view, pairs_view, pop_field, tagged_value, take_bytes, take_field_u64, take_required,
    take_tagged, take_u64, text_value, untag, value_is_text, DecodeError, Order,
};
use crate::crypto::HASH_SIZE;
use crate::message::NotifyReply;
use crate::types::{
    Code, CodeId, CodeView, Instance, InstanceId, InstanceView, Policy, PolicyView, ABI,
};
use crate::value::{Value, ValueView};

verus! {

impl CodeId {
    /// How the identifier is written.
    pub open spec fn spec_encode(id: CodeId) -> ValueView {
        ValueView::Unsigned(id.0)
    }

    /// How the identifier is read.
    pub open spec fn spec_decode(value: ValueView) -> Result<CodeId, DecodeError> {
        match decode_u64(value) {
            Ok(id) => Ok(CodeId(id)),
            Err(e) => Err(e),
        }
    }

    /// Writes the identifier.
    pub fn into_cbor_value(self) -> (value: Value)
        ensures
            value@ == CodeId::spec_encode(self),
    {
        Value::Unsigned(self.0)
    }

    /// Reads an identifier.
    pub fn try_from_cbor_value(value: Value) -> (result: Result<CodeId, DecodeError>)
        ensures
            result == CodeId::spec_decode(value@),
    {
        match take_u64(value) {
            Ok(id) => Ok(CodeId(id)),
            Err(e) => Err(e),
        }
    }

    /// Reading what was written gives the identifier back, and writing what was
    /// read from a written value gives that value back.
    pub proof fn lemma_round_trip(id: CodeId)
        ensures
            CodeId::spec_decode(CodeId::spec_encode(id)) == Ok::<CodeId, DecodeError>(id),
            ({
                let written = CodeId::spec_encode(id);
                CodeId::spec_encode(CodeId::spec_decode(written)->Ok_0) == written
            }),
    {
    }
}

impl InstanceId {
    /// How the identifier is written.
    pub open spec fn spec_encode(id: InstanceId) -> ValueView {
        ValueView::Unsigned(id.0)
    }

    /// How the identifier is read.
    pub open spec fn spec_decode(value: ValueView) -> Result<InstanceId, DecodeError> {
        match decode_u64(value) {
            Ok(id) => Ok(InstanceId(id)),
            Err(e) => Err(e),
        }
    }

    /// Writes the identifier.
    pub fn into_cbor_value(self) -> (value: Value)
        ensures
            value@ == InstanceId::spec_encode(self),
    {
        Value::Unsigned(self.0)
    }

    /// Reads an identifier.
    pub fn try_from_cbor_value(value: Value) -> (result: Result<InstanceId, DecodeError>)
        ensures
            result == InstanceId::spec_decode(value@),
    {
        match take_u64(value) {
            Ok(id) => Ok(InstanceId(id)),
            Err(e) => Err(e),
        }
    }

    /// Reading what was written gives the identifier back, and writing what was
    /// read from a written value gives that value back.
    pub proof fn lemma_round_trip(id: InstanceId)
        ensures
            InstanceId::spec_decode(InstanceId::spec_encode(id)) == Ok::<InstanceId, DecodeError>(
                id,
            ),
            ({
                let written = InstanceId::spec_encode(id);
                InstanceId::spec_encode(InstanceId::spec_decode(written)->Ok_0) == written
            }),
    {
    }
}

impl ABI {
    /// How the ABI is written: as its number.
    pub open spec fn spec_encode(abi: ABI) -> ValueView {
        match abi {
            ABI::OasisV1 => ValueView::Unsigned(1),
        }
    }

    /// How the ABI is read.
    pub open spec fn spec_decode(value: ValueView) -> Result<ABI, DecodeError> {
        if value == ValueView::Unsigned(1) {
            Ok(ABI::OasisV1)
        } else {
            Err(DecodeError::UnknownField)
        }
    }

    /// Writes the ABI.
    pub fn into_cbor_value(self) -> (value: Value)
        ensures
            value@ == ABI::spec_encode(self),
    {
        match self {
            ABI::OasisV1 => Value::Unsigned(1),
        }
    }

    /// Reads an ABI.
    pub fn try_from_cbor_value(value: Value) -> (result: Result<ABI, DecodeError>)
        ensures
            result == ABI::spec_decode(value@),
    {
        match value {
            Value::Unsigned(1) => Ok(ABI::OasisV1),
            _ => Err(DecodeError::UnknownField),
        }
    }

    /// Reading what was written gives the ABI back, and writing what was
    /// read from a written value gives that value back.
    pub proof fn lemma_round_trip(abi: ABI)
        ensures
            ABI::spec_decode(ABI::spec_encode(abi)) == Ok::<ABI, DecodeError>(abi),
            ({
                let written = ABI::spec_encode(abi);
                ABI::spec_encode(ABI::spec_decode(written)->Ok_0) == written
            }),
    {
    }
}

impl NotifyReply {
    /// How the filter is written: as its number.
    pub open spec fn spec_encode(reply: NotifyReply) -> ValueView {
        ValueView::Unsigned(reply.spec_number())
    }

    /// How the filter is read.
    pub open spec fn spec_decode(value: ValueView) -> Result<NotifyReply, DecodeError> {
        if value == ValueView::Unsigned(0) {
            Ok(NotifyReply::Never)
        } else if value == ValueView::Unsigned(1) {
            Ok(NotifyReply::OnError)
        } else if value == ValueView::Unsigned(2) {
            Ok(NotifyReply::OnSuccess)
        } else if value == ValueView::Unsigned(3) {
            Ok(NotifyReply::Always)
        } else {
            Err(DecodeError::UnknownField)
        }
    }

    /// Writes the filter.
    pub fn into_cbor_value(self) -> (value: Value)
        ensures
            value@ == NotifyReply::spec_encode(self),
    {
        match self {
            NotifyReply::Never => Value::Unsigned(0),
            NotifyReply::OnError => Value::Unsigned(1),
            NotifyReply::OnSuccess => Value::Unsigned(2),
            NotifyReply::Always => Value::Unsigned(3),
        }
    }

    /// Reads a filter.
    pub fn try_from_cbor_value(value: Value) -> (result: Result<NotifyReply, DecodeError>)
        ensures
            result == NotifyReply::spec_decode(value@),
    {
        match value {
            Value::Unsigned(0) => Ok(NotifyReply::Never),
            Value::Unsigned(1) => Ok(NotifyReply::OnError),
            Value::Unsigned(2) => Ok(NotifyReply::OnSuccess),
            Value::Unsigned(3) => Ok(NotifyReply::Always),
            _ => Err(DecodeError::UnknownField),
        }
    }

    /// Reading what was written gives the filter back, and writing what was
    /// read from a written value gives that value back.
    pub proof fn lemma_round_trip(reply: NotifyReply)
        ensures
            NotifyReply::spec_decode(NotifyReply::spec_encode(reply)) == Ok::<
                NotifyReply,
                DecodeError,
            >(reply),
            ({
                let written = NotifyReply::spec_encode(reply);
                NotifyReply::spec_encode(NotifyReply::spec_decode(written)->Ok_0) == written
            }),
    {
    }
}

/// Name under which the policy that lets nobody in is written.
pub const POLICY_NOBODY: &'static str = "nobody";

/// Name under which the policy that lets one address in is written.
pub const POLICY_ADDRESS: &'static str = "address";

/// Name under which the policy that lets everyone in is written.
pub const POLICY_EVERYONE: &'static str = "any";

impl PolicyView {
    /// Whether the policy can stand in a record: an address has twenty-one
    /// bytes.
    pub open spec fn valid(self) -> bool {
        match self {
            PolicyView::Address(address) => address.len() == ADDRESS_SIZE,
            _ => true,
        }
    }
}

impl Policy {
    /// How the policy is written: the policies without an address as their
    /// names, the policy with an address as a map from its name to the
    /// address.
    pub open spec fn spec_encode(policy: PolicyView) -> ValueView {
        match policy {
            PolicyView::Nobody => ValueView::TextString(POLICY_NOBODY@),
            PolicyView::Address(address) => ValueView::Dict(
                seq![(ValueView::TextString(POLICY_ADDRESS@), ValueView::ByteString(address))],
            ),
            PolicyView::Everyone => ValueView::TextString(POLICY_EVERYONE@),
        }
    }

    /// How the policy is read.
    pub open spec fn spec_decode(value: ValueView) -> Result<PolicyView, DecodeError> {
        match value {
            ValueView::Dict(_) => match untag(value) {
                Err(e) => Err(e),
                Ok(pair) => if is_text(pair.0, POLICY_ADDRESS@) {
                    match decode_bytes_exact(pair.1, ADDRESS_SIZE as nat) {
                        Ok(address) => Ok(PolicyView::Address(address)),
                        Err(e) => Err(e),
                    }
                } else {
                    Err(DecodeError::UnknownField)
                },
            },
            _ => if is_text(value, POLICY_NOBODY@) {
                Ok(PolicyView::Nobody)
            } else if is_text(value, POLICY_EVERYONE@) {
                Ok(PolicyView::Everyone)
            } else {
                Err(DecodeError::UnknownField)
            },
        }
    }

    /// Writes the policy.
    pub fn into_cbor_value(self) -> (value: Value)
        ensures
            value@ == Policy::spec_encode(self@),
    {
        match self {
            Policy::Nobody => text_value(POLICY_NOBODY),
            Policy::Address(address) => tagged_value(
                POLICY_ADDRESS,
                Value::ByteString(address.to_vec()),
            ),
            Policy::Everyone => text_value(POLICY_EVERYONE),
        }
    }

    /// Reads a policy.
    pub fn try_from_cbor_value(value: Value) -> (result: Result<Policy, DecodeError>)
        ensures
            Policy::spec_decode(value@) matches Err(e) ==> result == Err::<Policy, DecodeError>(e),
            Policy::spec_decode(value@) matches Ok(policy) ==> (result matches Ok(out) && out@
                == policy),
    {
        match value {
            Value::Dict(_) => {
                let (key, inner) = match take_tagged(value) {
                    Err(e) => {
                        return Err(e);
                    },
                    Ok(pair) => pair,
                };
                if !value_is_text(&key, POLICY_ADDRESS) {
                    return Err(DecodeError::UnknownField);
                }
                let bytes = match take_bytes(inner) {
                    Err(e) => {
                        return Err(e);
                    },
                    Ok(bytes) => bytes,
                };
                match Address::from_bytes(bytes.as_slice()) {
                    Some(address) => Ok(Policy::Address(address)),
                    None => Err(DecodeError::UnexpectedType),
                }
            },
            _ => {
                if value_is_text(&value, POLICY_NOBODY) {
                    Ok(Policy::Nobody)
                } else if value_is_text(&value, POLICY_EVERYONE) {
                    Ok(Policy::Everyone)
                } else {
                    Err(DecodeError::UnknownField)
                }
            },
        }
    }

    /// Reading what was written gives the policy back, and writing what was
    /// read from a written value gives that value back.
    pub proof fn lemma_round_trip(policy: PolicyView)
        requires
            policy.valid(),
        ensures
            Policy::spec_decode(Policy::spec_encode(policy)) == Ok::<PolicyView, DecodeError>(
                policy,
            ),
            ({
                let written = Policy::spec_encode(policy);
                Policy::spec_encode(Policy::spec_decode(written)->Ok_0) == written
            }),
    {
        reveal_strlit("nobody");
        reveal_strlit("any");
        if policy is Everyone {
            assert(POLICY_EVERYONE@.len() != POLICY_NOBODY@.len());
        }
    }
}

/// Name of the field that holds an identifier.
pub const FIELD_ID: &'static str = "id";

/// Name of the field that holds an ABI.
pub const FIELD_ABI: &'static str = "abi";

/// Name of the field that holds a digest.
pub const FIELD_HASH: &'static str = "hash";

/// Name of the field that holds the instantiation policy.
pub const FIELD_INSTANTIATE_POLICY: &'static str = "instantiate_policy";

/// Name of the field that holds a code identifier.
pub const FIELD_CODE_ID: &'static str = "code_id";

/// Name of the field that holds the creator of an instance.
pub const FIELD_CREATOR: &'static str = "creator";

/// Name of the field that holds the upgrade policy.
pub const FIELD_UPGRADES_POLICY: &'static str = "upgrades_policy";

/// The names of the fields of a code record, in canonical order.
pub open spec fn code_fields() -> Seq<Seq<char>> {
    seq![FIELD_ID@, FIELD_ABI@, FIELD_HASH@, FIELD_INSTANTIATE_POLICY@]
}

/// The names of the fields of an instance record, in canonical order.
pub open spec fn instance_fields() -> Seq<Seq<char>> {
    seq![FIELD_ID@, FIELD_CODE_ID@, FIELD_CREATOR@, FIELD_UPGRADES_POLICY@]
}

/// A required field that holds a policy.
pub open spec fn field_policy(field: Option<ValueView>) -> Result<PolicyView, DecodeError> {
    match field {
        Some(value) => Policy::spec_decode(value),
        None => Err(DecodeError::MissingField),
    }
}

/// A required field that holds an ABI.
pub open spec fn field_abi(field: Option<ValueView>) -> Result<ABI, DecodeError> {
    match field {
        Some(value) => ABI::spec_decode(value),
        None => Err(DecodeError::MissingField),
    }
}

/// Takes a required field that holds a policy.
pub fn take_field_policy(field: Option<Value>) -> (result: Result<Policy, DecodeError>)
    ensures
        field_policy(option_view(field)) matches Err(e) ==> result == Err::<Policy, DecodeError>(
            e,
        ),
        field_policy(option_view(field)) matches Ok(policy) ==> (result matches Ok(out) && out@
            == policy),
{
    match field {
        Some(value) => Policy::try_from_cbor_value(value),
        None => Err(DecodeError::MissingField),
    }
}

/// Takes a required field that holds an ABI.
pub fn take_field_abi(field: Option<Value>) -> (result: Result<ABI, DecodeError>)
    ensures
        result == field_abi(option_view(field)),
{
    match field {
        Some(value) => ABI::try_from_cbor_value(value),
        None => Err(DecodeError::MissingField),
    }
}

/// Takes a required field that holds an address.
pub fn take_field_address(field: Option<Value>) -> (result: Result<Address, DecodeError>)
    ensures
        field_bytes_exact(option_view(field), ADDRESS_SIZE as nat) matches Err(e) ==> result
            == Err::<Address, DecodeError>(e),
        field_bytes_exact(option_view(field), ADDRESS_SIZE as nat) matches Ok(bytes) ==> (
        result matches Ok(out) && out@ == bytes),
{
    let value = match take_required(field) {
        Err(e) => {
            return Err(e);
        },
        Ok(value) => value,
    };
    let bytes = match take_bytes(value) {
        Err(e) => {
            return Err(e);
        },
        Ok(bytes) => bytes,
    };
    match Address::from_bytes(bytes.as_slice()) {
        Some(address) => Ok(address),
        None => Err(DecodeError::UnexpectedType),
    }
}

/// Takes a required field that holds a digest.
pub fn take_field_hash(field: Option<Value>) -> (result: Result<crate::crypto::Hash, DecodeError>)
    ensures
        field_bytes_exact(option_view(field), HASH_SIZE as nat) matches Err(e) ==> result == Err::<
            crate::crypto::Hash,
            DecodeError,
        >(e),
        field_bytes_exact(option_view(field), HASH_SIZE as nat) matches Ok(bytes) ==> (
        result matches Ok(out) && out@ == bytes),
{
    let value = match take_required(field) {
        Err(e) => {
            return Err(e);
        },
        Ok(value) => value,
    };
    let bytes = match take_bytes(value) {
        Err(e) => {
            return Err(e);
        },
        Ok(bytes) => bytes,
    };
    match crate::crypto::Hash::from_bytes(bytes.as_slice()) {
        Some(hash) => Ok(hash),
        None => Err(DecodeError::UnexpectedType),
    }
}

impl CodeView {
    /// Whether the record can be written and read back: the digest has
    /// thirty-two bytes and the policy is valid.
    pub open spec fn valid(self) -> bool {
        self.hash.len() == HASH_SIZE && self.instantiate_policy.valid()
    }
}

impl Code {
    /// How the record is written: as a map of its fields.
    pub open spec fn spec_encode(code: CodeView) -> ValueView {
        ValueView::Dict(
            seq![
                (ValueView::TextString(FIELD_ID@), CodeId::spec_encode(code.id)),
                (ValueView::TextString(FIELD_ABI@), ABI::spec_encode(code.abi)),
                (ValueView::TextString(FIELD_HASH@), ValueView::ByteString(code.hash)),
                (
                    ValueView::TextString(FIELD_INSTANTIATE_POLICY@),
                    Policy::spec_encode(code.instantiate_policy),
                ),
            ],
        )
    }

    /// How the record is read.
    pub open spec fn spec_decode(value: ValueView) -> Result<CodeView, DecodeError> {
        match crate::codec::decode_fields(value, code_fields()) {
            Err(e) => Err(e),
            Ok(fields) => {
                let id = field_u64(fields[0]);
                let abi = field_abi(fields[1]);
                let hash = field_bytes_exact(fields[2], HASH_SIZE as nat);
                let policy = field_policy(fields[3]);
                if id is Err {
                    Err(id->Err_0)
                } else if abi is Err {
                    Err(abi->Err_0)
                } else if hash is Err {
                    Err(hash->Err_0)
                } else if policy is Err {
                    Err(policy->Err_0)
                } else {
                    Ok(
                        CodeView {
                            id: CodeId(id->Ok_0),
                            abi: abi->Ok_0,
                            hash: hash->Ok_0,
                            instantiate_policy: policy->Ok_0,
                        },
                    )
                }
            },
        }
    }

    /// Writes the record.
    pub fn into_cbor_value(self) -> (value: Value)
        ensures
            value@ == Code::spec_encode(self@),
    {
        let mut pairs: Vec<(Value, Value)> = Vec::new();
        crate::codec::push_field(&mut pairs, FIELD_ID, self.id.into_cbor_value());
        crate::codec::push_field(&mut pairs, FIELD_ABI, self.abi.into_cbor_value());
        crate::codec::push_field(&mut pairs, FIELD_HASH, Value::ByteString(self.hash.to_vec()));
        crate::codec::push_field(
            &mut pairs,
            FIELD_INSTANTIATE_POLICY,
            self.instantiate_policy.into_cbor_value(),
        );
        assert(pairs_view(pairs@) =~= Code::spec_encode(self@)->Dict_0);
        crate::codec::dict_value(pairs)
    }

    /// Reads a record.
    pub fn try_from_cbor_value(value: Value) -> (result: Result<Code, DecodeError>)
        ensures
            Code::spec_decode(value@) matches Err(e) ==> result == Err::<Code, DecodeError>(e),
            Code::spec_decode(value@) matches Ok(code) ==> (result matches Ok(out) && out@
                == code),
    {
        let names = [FIELD_ID, FIELD_ABI, FIELD_HASH, FIELD_INSTANTIATE_POLICY];
        assert(names_view(names@) =~= code_fields());
        let mut fields = match crate::codec::take_fields(value, names.as_slice()) {
            Err(e) => {
                return Err(e);
            },
            Ok(fields) => fields,
        };
        let policy_field = pop_field(&mut fields);
        let hash_field = pop_field(&mut fields);
        let abi_field = pop_field(&mut fields);
        let id_field = pop_field(&mut fields);
        let id = match take_field_u64(id_field) {
            Err(e) => {
                return Err(e);
            },
            Ok(id) => id,
        };
        let abi = match take_field_abi(abi_field) {
            Err(e) => {
                return Err(e);
            },
            Ok(abi) => abi,
        };
        let hash = match take_field_hash(hash_field) {
            Err(e) => {
                return Err(e);
            },
            Ok(hash) => hash,
        };
        let instantiate_policy = match take_field_policy(policy_field) {
            Err(e) => {
                return Err(e);
            },
            Ok(policy) => policy,
        };
        Ok(Code { id: CodeId(id), hash, abi, instantiate_policy })
    }

    /// Reading what was written gives the record back, and writing what was
    /// read from a written value gives that value back.
    pub proof fn lemma_round_trip(code: CodeView)
        requires
            code.valid(),
        ensures
            Code::spec_decode(Code::spec_encode(code)) == Ok::<CodeView, DecodeError>(code),
            ({
                let written = Code::spec_encode(code);
                Code::spec_encode(Code::spec_decode(written)->Ok_0) == written
            }),
    {
        let pairs = Code::spec_encode(code)->Dict_0;
        crate::codec::lemma_extract_leading(pairs, code_fields());
        ABI::lemma_round_trip(code.abi);
        Policy::lemma_round_trip(code.instantiate_policy);
    }
}

impl InstanceView {
    /// Whether the record can be written and read back: the creator is an
    /// address and the policy is valid.
    pub open spec fn valid(self) -> bool {
        self.creator.len() == ADDRESS_SIZE && self.upgrades_policy.valid()
    }
}

impl Instance {
    /// How the record is written: as a map of its fields.
    pub open spec fn spec_encode(instance: InstanceView) -> ValueView {
        ValueView::Dict(
            seq![
                (ValueView::TextString(FIELD_ID@), InstanceId::spec_encode(instance.id)),
                (ValueView::TextString(FIELD_CODE_ID@), CodeId::spec_encode(instance.code_id)),
                (ValueView::TextString(FIELD_CREATOR@), ValueView::ByteString(instance.creator)),
                (
                    ValueView::TextString(FIELD_UPGRADES_POLICY@),
                    Policy::spec_encode(instance.upgrades_policy),
                ),
            ],
        )
    }

    /// How the record is read.
    pub open spec fn spec_decode(value: ValueView) -> Result<InstanceView, DecodeError> {
        match crate::codec::decode_fields(value, instance_fields()) {
            Err(e) => Err(e),
            Ok(fields) => {
                let id = field_u64(fields[0]);
                let code_id = field_u64(fields[1]);
                let creator = field_bytes_exact(fields[2], ADDRESS_SIZE as nat);
                let policy = field_policy(fields[3]);
                if id is Err {
                    Err(id->Err_0)
                } else if code_id is Err {
                    Err(code_id->Err_0)
                } else if creator is Err {
                    Err(creator->Err_0)
                } else if policy is Err {
                    Err(policy->Err_0)
                } else {
                    Ok(
                        InstanceView {
                            id: InstanceId(id->Ok_0),
                            code_id: CodeId(code_id->Ok_0),
                            creator: creator->Ok_0,
                            upgrades_policy: policy->Ok_0,
                        },
                    )
                }
            },
        }
    }

    /// Writes the record.
    pub fn into_cbor_value(self) -> (value: Value)
        ensures
            value@ == Instance::spec_encode(self@),
    {
        let mut pairs: Vec<(Value, Value)> = Vec::new();
        crate::codec::push_field(&mut pairs, FIELD_ID, self.id.into_cbor_value());
        crate::codec::push_field(&mut pairs, FIELD_CODE_ID, self.code_id.into_cbor_value());
        crate::codec::push_field(
            &mut pairs,
            FIELD_CREATOR,
            Value::ByteString(self.creator.to_vec()),
        );
        crate::codec::push_field(
            &mut pairs,
            FIELD_UPGRADES_POLICY,
            self.upgrades_policy.into_cbor_value(),
        );
        assert(pairs_view(pairs@) =~= Instance::spec_encode(self@)->Dict_0);
        crate::codec::dict_value(pairs)
    }

    /// Reads a record.
    pub fn try_from_cbor_value(value: Value) -> (result: Result<Instance, DecodeError>)
        ensures
            Instance::spec_decode(value@) matches Err(e) ==> result == Err::<
                Instance,
                DecodeError,
            >(e),
            Instance::spec_decode(value@) matches Ok(instance) ==> (result matches Ok(out) && out@
                == instance),
    {
        let names = [FIELD_ID, FIELD_CODE_ID, FIELD_CREATOR, FIELD_UPGRADES_POLICY];
        assert(names_view(names@) =~= instance_fields());
        let mut fields = match crate::codec::take_fields(value, names.as_slice()) {
            Err(e) => {
                return Err(e);
            },
            Ok(fields) => fields,
        };
        let policy_field = pop_field(&mut fields);
        let creator_field = pop_field(&mut fields);
        let code_id_field = pop_field(&mut fields);
        let id_field = pop_field(&mut fields);
        let id = match take_field_u64(id_field) {
            Err(e) => {
                return Err(e);
            },
            Ok(id) => id,
        };
        let code_id = match take_field_u64(code_id_field) {
            Err(e) => {
                return Err(e);
            },
            Ok(code_id) => code_id,
        };
        let creator = match take_field_address(creator_field) {
            Err(e) => {
                return Err(e);
            },
            Ok(creator) => creator,
        };
        let upgrades_policy = match take_field_policy(policy_field) {
            Err(e) => {
                return Err(e);
            },
            Ok(policy) => policy,
        };
        Ok(Instance { id: InstanceId(id), code_id: CodeId(code_id), creator, upgrades_policy })
    }

    /// Reading what was written gives the record back, and writing what was
    /// read from a written value gives that value back.
    pub proof fn lemma_round_trip(instance: InstanceView)
        requires
            instance.valid(),
        ensures
            Instance::spec_decode(Instance::spec_encode(instance)) == Ok::<
                InstanceView,
                DecodeError,
            >(instance),
            ({
                let written = Instance::spec_encode(instance);
                Instance::spec_encode(Instance::spec_decode(written)->Ok_0) == written
            }),
    {
        let pairs = Instance::spec_encode(instance)->Dict_0;
        crate::codec::lemma_extract_leading(pairs, instance_fields());
        Policy::lemma_round_trip(instance.upgrades_policy);
    }
}

/// The fields of a code record are written in the canonical order of their
/// names.
pub proof fn lemma_code_fields_canonical()
    ensures
        canonical(code_fields()),
{
    reveal_strlit("id");
    reveal_strlit("abi");
    reveal_strlit("hash");
    reveal_strlit("instantiate_policy");
    crate::codec::lemma_shorter_name_first(FIELD_ID, FIELD_ABI);
    crate::codec::lemma_shorter_name_first(FIELD_ABI, FIELD_HASH);
    crate::codec::lemma_shorter_name_first(FIELD_HASH, FIELD_INSTANTIATE_POLICY);
}

/// The fields of an instance record are written in the canonical order of
/// their names.
pub proof fn lemma_instance_fields_canonical()
    ensures
        canonical(instance_fields()),
{
    reveal_strlit("id");
    reveal_strlit("code_id");
    reveal_strlit("creator");
    reveal_strlit("upgrades_policy");
    crate::codec::lemma_shorter_name_first(FIELD_ID, FIELD_CODE_ID);
    crate::codec::lemma_shorter_name_first(FIELD_CREATOR, FIELD_UPGRADES_POLICY);
    // The two names of seven characters differ in their second character.
    crate::codec::lemma_ascii_bytes(FIELD_CODE_ID);
    crate::codec::lemma_ascii_bytes(FIELD_CREATOR);
    let a = vstd::utf8::encode_utf8(FIELD_CODE_ID@);
    let b = vstd::utf8::encode_utf8(FIELD_CREATOR@);
    assert(a[0] == b[0]);
    assert(a.drop_first()[0] < b.drop_first()[0]);
    reveal_with_fuel(crate::codec::lex_order, 3);
    assert(crate::codec::text_order(FIELD_CODE_ID@, FIELD_CREATOR@) == Order::Less);
}

/// What is read from a value is written as that value: identifiers, ABIs
/// and reply filters are written in one way only.
pub proof fn lemma_numbers_written_back(value: ValueView)
    ensures
        CodeId::spec_decode(value) matches Ok(id) ==> CodeId::spec_encode(id) == value,
        InstanceId::spec_decode(value) matches Ok(id) ==> InstanceId::spec_encode(id) == value,
        ABI::spec_decode(value) matches Ok(abi) ==> ABI::spec_encode(abi) == value,
        NotifyReply::spec_decode(value) matches Ok(reply) ==> NotifyReply::spec_encode(reply)
            == value,
{
}

/// A policy that is read from a value is written as that value.
pub proof fn lemma_policy_written_back(value: ValueView)
    requires
        Policy::spec_decode(value) is Ok,
    ensures
        Policy::spec_encode(Policy::spec_decode(value)->Ok_0) == value,
        Policy::spec_decode(value)->Ok_0.valid(),
{
    match value {
        ValueView::Dict(pairs) => {
            assert(pairs =~= seq![pairs[0]]);
        },
        _ => {},
    }
}

/// A code record that is read from a value is written as that value.
pub proof fn lemma_code_written_back(value: ValueView)
    requires
        Code::spec_decode(value) is Ok,
    ensures
        Code::spec_encode(Code::spec_decode(value)->Ok_0) == value,
        Code::spec_decode(value)->Ok_0.valid(),
{
    let pairs = value->Dict_0;
    let fields = crate::codec::extract(pairs, code_fields())->Ok_0;
    crate::codec::lemma_extract_written(pairs, code_fields());
    crate::codec::lemma_written_leading(code_fields(), fields, 4);
    lemma_numbers_written_back(fields[0]->Some_0);
    lemma_numbers_written_back(fields[1]->Some_0);
    lemma_policy_written_back(fields[3]->Some_0);
    assert(Code::spec_encode(Code::spec_decode(value)->Ok_0)->Dict_0 =~= pairs);
}

/// An instance record that is read from a value is written as that value.
pub proof fn lemma_instance_written_back(value: ValueView)
    requires
        Instance::spec_decode(value) is Ok,
    ensures
        Instance::spec_encode(Instance::spec_decode(value)->Ok_0) == value,
        Instance::spec_decode(value)->Ok_0.valid(),
{
    let pairs = value->Dict_0;
    let fields = crate::codec::extract(pairs, instance_fields())->Ok_0;
    crate::codec::lemma_extract_written(pairs, instance_fields());
    crate::codec::lemma_written_leading(instance_fields(), fields, 4);
    lemma_numbers_written_back(fields[0]->Some_0);
    lemma_numbers_written_back(fields[1]->Some_0);
    lemma_policy_written_back(fields[3]->Some_0);
    assert(Instance::spec_encode(Instance::spec_decode(value)->Ok_0)->Dict_0 =~= pairs);
}

} // verus!
