//! The wire format of the bodies of calls and queries, and of their
//! results.
use vstd::prelude::*;
use crate::bytes::{append_bytes, be_value_wide, from_be_bytes_wide, lemma_be_value_wide_bounds};
use crate::codec::{
    canonical, decode_array, decode_bytes, decode_fields, dict_value, field_bytes, field_text,
    field_u64, is_text, lemma_shorter_name_first, names_view, option_view, pairs_view, pop_field,
    push_field, reverse_values, take_array, take_bytes, take_field_bytes, take_field_text,
    take_field_u64, take_fields, value_is_text, values_view, DecodeError,
};
use crate::message_codec::{FIELD_DATA, FIELD_METHOD};
use crate::token::{tokens_view, BaseUnits, Denomination};
use crate::types::{
    Call, CallView, CodeId, CodeQuery, CustomQuery, CustomQueryView, InstanceId, InstanceQuery,
    InstanceStorageQuery, InstanceStorageQueryView, Instantiate, InstantiateResult,
    InstantiateView, PublicKeyKind, PublicKeyQuery, Upgrade, UpgradeView, Upload, UploadResult,
    UploadView,
};
use crate::value::{Value, ValueView};
use crate::wire::{
    field_abi, field_policy, take_field_abi, take_field_policy, FIELD_ABI, FIELD_CODE_ID,
    FIELD_ID, FIELD_INSTANTIATE_POLICY, FIELD_UPGRADES_POLICY,
};

verus! {

/// Name of the field that holds uploaded code.
pub const FIELD_CODE_BYTES: &'static str = "code";

/// Name of the field that holds attached tokens.
pub const FIELD_TOKENS: &'static str = "tokens";

/// Name of the field that holds a storage key.
pub const FIELD_KEY: &'static str = "key";

/// Name of the field that holds the kind of a public key.
pub const FIELD_KIND: &'static str = "kind";

/// Name under which the kind of the transaction key is written.
pub const KIND_TRANSACTION: &'static str = "tx";

/// The given bytes after as many zero bytes as make sixteen bytes of them.
pub open spec fn padded(bytes: Seq<u8>) -> Seq<u8>
    recommends
        bytes.len() <= 16,
{
    Seq::new((16 - bytes.len()) as nat, |i: int| 0u8) + bytes
}

/// How an amount is read: from a byte string of at most sixteen bytes that
/// holds the number, most significant byte first.
pub open spec fn decode_amount(value: ValueView) -> Result<u128, DecodeError> {
    match value {
        ValueView::ByteString(bytes) => if bytes.len() > 16 {
            Err(DecodeError::UnexpectedIntegerSize)
        } else {
            Ok(be_value_wide(padded(bytes)) as u128)
        },
        _ => Err(DecodeError::UnexpectedType),
    }
}

/// Reads an amount.
pub fn take_amount(value: Value) -> (result: Result<u128, DecodeError>)
    ensures
        result == decode_amount(value@),
{
    let bytes = match value {
        Value::ByteString(bytes) => bytes,
        _ => {
            return Err(DecodeError::UnexpectedType);
        },
    };
    if bytes.len() > 16 {
        return Err(DecodeError::UnexpectedIntegerSize);
    }
    let mut wide: Vec<u8> = Vec::new();
    let missing: usize = 16 - bytes.len();
    let mut i: usize = 0;
    while i < missing
        invariant
            i <= missing,
            wide@ == Seq::new(i as nat, |j: int| 0u8),
        decreases missing - i,
    {
        wide.push(0u8);
        i += 1;
        assert(wide@ =~= Seq::new(i as nat, |j: int| 0u8));
    }
    append_bytes(&mut wide, bytes.as_slice());
    proof {
        assert(wide@ =~= padded(bytes@));
        lemma_be_value_wide_bounds(wide@);
    }
    Ok(from_be_bytes_wide(wide.as_slice()))
}

/// How an amount of tokens is read: from an array of the amount and the
/// name of the denomination.
pub open spec fn decode_base_units(value: ValueView) -> Result<(u128, Seq<u8>), DecodeError> {
    match decode_array(value) {
        Err(e) => Err(e),
        Ok(items) => if items.len() == 0 {
            Err(DecodeError::MissingField)
        } else {
            match decode_amount(items[0]) {
                Err(e) => Err(e),
                Ok(amount) => if items.len() == 1 {
                    Err(DecodeError::MissingField)
                } else {
                    match decode_bytes(items[1]) {
                        Err(e) => Err(e),
                        Ok(denomination) => if items.len() > 2 {
                            Err(DecodeError::UnknownField)
                        } else {
                            Ok((amount, denomination))
                        },
                    }
                },
            }
        },
    }
}

/// Reads an amount of tokens.
pub fn take_base_units(value: Value) -> (result: Result<BaseUnits, DecodeError>)
    ensures
        decode_base_units(value@) matches Err(e) ==> result == Err::<BaseUnits, DecodeError>(e),
        decode_base_units(value@) matches Ok(units) ==> (result matches Ok(out) && out@ == units),
{
    let mut items = match take_array(value) {
        Err(e) => {
            return Err(e);
        },
        Ok(items) => items,
    };
    let ghost all = values_view(items@);
    if items.len() == 0 {
        return Err(DecodeError::MissingField);
    }
    let first = items.remove(0);
    proof {
        assert(first@ == all[0]);
        assert(values_view(items@) =~= all.drop_first());
    }
    let amount = match take_amount(first) {
        Err(e) => {
            return Err(e);
        },
        Ok(amount) => amount,
    };
    if items.len() == 0 {
        return Err(DecodeError::MissingField);
    }
    let second = items.remove(0);
    proof {
        assert(second@ == all[1]);
    }
    let denomination = match take_bytes(second) {
        Err(e) => {
            return Err(e);
        },
        Ok(denomination) => denomination,
    };
    if items.len() > 0 {
        return Err(DecodeError::UnknownField);
    }
    Ok(BaseUnits(amount, Denomination(denomination)))
}

/// How a list of amounts is read: one after the other, and the first that
/// cannot be read ends the reading.
pub open spec fn decode_tokens(items: Seq<ValueView>) -> Result<Seq<(u128, Seq<u8>)>, DecodeError>
    decreases items.len(),
{
    if items.len() == 0 {
        Ok(Seq::empty())
    } else {
        match decode_base_units(items[0]) {
            Err(e) => Err(e),
            Ok(first) => match decode_tokens(items.drop_first()) {
                Err(e) => Err(e),
                Ok(rest) => Ok(seq![first] + rest),
            },
        }
    }
}

/// A required field that holds a list of amounts.
pub open spec fn field_tokens(field: Option<ValueView>) -> Result<Seq<(u128, Seq<u8>)>, DecodeError> {
    match field {
        Some(value) => match decode_array(value) {
            Err(e) => Err(e),
            Ok(items) => decode_tokens(items),
        },
        None => Err(DecodeError::MissingField),
    }
}

/// Takes a required field that holds a list of amounts.
pub fn take_field_tokens(field: Option<Value>) -> (result: Result<Vec<BaseUnits>, DecodeError>)
    ensures
        field_tokens(option_view(field)) matches Err(e) ==> result == Err::<
            Vec<BaseUnits>,
            DecodeError,
        >(e),
        field_tokens(option_view(field)) matches Ok(tokens) ==> (result matches Ok(out)
            && tokens_view(out@) == tokens),
{
    let values = match field {
        None => {
            return Err(DecodeError::MissingField);
        },
        Some(value) => match take_array(value) {
            Err(e) => {
                return Err(e);
            },
            Ok(values) => values,
        },
    };
    let ghost all = values_view(values@);
    let mut stack = reverse_values(values);
    let mut out: Vec<BaseUnits> = Vec::new();
    let n: usize = stack.len();
    let mut i: usize = 0;
    proof {
        assert(values_view(stack@).len() == n);
        assert(all.reverse().reverse() =~= all);
        assert(values_view(stack@).reverse() =~= all.skip(0));
        assert(tokens_view(out@) =~= Seq::<(u128, Seq<u8>)>::empty());
    }
    while i < n
        invariant
            i <= n,
            n == all.len(),
            field_tokens(option_view(field)) == decode_tokens(all),
            stack@.len() == n - i,
            values_view(stack@).reverse() == all.skip(i as int),
            decode_tokens(all) == (match decode_tokens(all.skip(i as int)) {
                Err(e) => Err(e),
                Ok(rest) => Ok(tokens_view(out@) + rest),
            }),
        decreases n - i,
    {
        let ghost stack_before = values_view(stack@);
        let ghost out_before = tokens_view(out@);
        let value = stack.pop().unwrap();
        proof {
            assert(value@ == stack_before.last());
            assert(stack_before.reverse()[0] == stack_before.last());
            assert(value@ == all.skip(i as int)[0]);
            assert(values_view(stack@) =~= stack_before.drop_last());
            assert(values_view(stack@).reverse() =~= stack_before.reverse().drop_first());
            assert(all.skip(i as int).drop_first() =~= all.skip(i + 1));
        }
        let units = match take_base_units(value) {
            Err(e) => {
                return Err(e);
            },
            Ok(units) => units,
        };
        out.push(units);
        i += 1;
        proof {
            assert(tokens_view(out@) =~= out_before.push(units@));
            match decode_tokens(all.skip(i as int)) {
                Ok(rest) => {
                    assert(out_before + (seq![units@] + rest) =~= tokens_view(out@) + rest);
                },
                Err(_) => {},
            }
        }
    }
    proof {
        assert(all.skip(n as int) =~= Seq::<ValueView>::empty());
        assert(tokens_view(out@) + Seq::<(u128, Seq<u8>)>::empty() =~= tokens_view(out@));
    }
    Ok(out)
}

/// The names of the fields of an upload, in canonical order.
pub open spec fn upload_fields() -> Seq<Seq<char>> {
    seq![FIELD_ABI@, FIELD_CODE_BYTES@, FIELD_INSTANTIATE_POLICY@]
}

/// The names of the fields of an instantiation, in canonical order.
pub open spec fn instantiate_fields() -> Seq<Seq<char>> {
    seq![FIELD_DATA@, FIELD_TOKENS@, FIELD_CODE_ID@, FIELD_UPGRADES_POLICY@]
}

/// The names of the fields of a call, in canonical order.
pub open spec fn call_fields() -> Seq<Seq<char>> {
    seq![FIELD_ID@, FIELD_DATA@, FIELD_TOKENS@]
}

/// The names of the fields of an upgrade, in canonical order.
pub open spec fn upgrade_fields() -> Seq<Seq<char>> {
    seq![FIELD_ID@, FIELD_DATA@, FIELD_TOKENS@, FIELD_CODE_ID@]
}

/// The names of the fields of a query by identifier.
pub open spec fn id_fields() -> Seq<Seq<char>> {
    seq![FIELD_ID@]
}

/// The names of the fields of a storage query, in canonical order.
pub open spec fn storage_query_fields() -> Seq<Seq<char>> {
    seq![FIELD_ID@, FIELD_KEY@]
}

/// The names of the fields of a public key query, in canonical order.
pub open spec fn public_key_query_fields() -> Seq<Seq<char>> {
    seq![FIELD_ID@, FIELD_KIND@]
}

/// The names of the fields of a custom query, in canonical order.
pub open spec fn custom_query_fields() -> Seq<Seq<char>> {
    seq![FIELD_ID@, FIELD_DATA@, FIELD_METHOD@]
}

impl Upload {
    /// How the body of an upload is read.
    pub open spec fn spec_decode(value: ValueView) -> Result<UploadView, DecodeError> {
        match decode_fields(value, upload_fields()) {
            Err(e) => Err(e),
            Ok(fields) => {
                let abi = field_abi(fields[0]);
                let code = field_bytes(fields[1]);
                let policy = field_policy(fields[2]);
                if abi is Err {
                    Err(abi->Err_0)
                } else if code is Err {
                    Err(code->Err_0)
                } else if policy is Err {
                    Err(policy->Err_0)
                } else {
                    Ok(
                        UploadView {
                            abi: abi->Ok_0,
                            instantiate_policy: policy->Ok_0,
                            code: code->Ok_0,
                        },
                    )
                }
            },
        }
    }

    /// Reads the body of an upload.
    pub fn try_from_cbor_value(value: Value) -> (result: Result<Upload, DecodeError>)
        ensures
            Upload::spec_decode(value@) matches Err(e) ==> result == Err::<Upload, DecodeError>(e),
            Upload::spec_decode(value@) matches Ok(body) ==> (result matches Ok(out) && out@
                == body),
    {
        let names = [FIELD_ABI, FIELD_CODE_BYTES, FIELD_INSTANTIATE_POLICY];
        assert(names_view(names@) =~= upload_fields());
        let mut fields = match take_fields(value, names.as_slice()) {
            Err(e) => {
                return Err(e);
            },
            Ok(fields) => fields,
        };
        let policy_field = pop_field(&mut fields);
        let code_field = pop_field(&mut fields);
        let abi_field = pop_field(&mut fields);
        let abi = match take_field_abi(abi_field) {
            Err(e) => {
                return Err(e);
            },
            Ok(abi) => abi,
        };
        let code = match take_field_bytes(code_field) {
            Err(e) => {
                return Err(e);
            },
            Ok(code) => code,
        };
        let instantiate_policy = match take_field_policy(policy_field) {
            Err(e) => {
                return Err(e);
            },
            Ok(policy) => policy,
        };
        Ok(Upload { abi, instantiate_policy, code })
    }
}

impl Instantiate {
    /// How the body of an instantiation is read.
    pub open spec fn spec_decode(value: ValueView) -> Result<InstantiateView, DecodeError> {
        match decode_fields(value, instantiate_fields()) {
            Err(e) => Err(e),
            Ok(fields) => {
                let data = field_bytes(fields[0]);
                let tokens = field_tokens(fields[1]);
                let code_id = field_u64(fields[2]);
                let policy = field_policy(fields[3]);
                if data is Err {
                    Err(data->Err_0)
                } else if tokens is Err {
                    Err(tokens->Err_0)
                } else if code_id is Err {
                    Err(code_id->Err_0)
                } else if policy is Err {
                    Err(policy->Err_0)
                } else {
                    Ok(
                        InstantiateView {
                            code_id: CodeId(code_id->Ok_0),
                            upgrades_policy: policy->Ok_0,
                            data: data->Ok_0,
                            tokens: tokens->Ok_0,
                        },
                    )
                }
            },
        }
    }

    /// Reads the body of an instantiation.
    pub fn try_from_cbor_value(value: Value) -> (result: Result<Instantiate, DecodeError>)
        ensures
            Instantiate::spec_decode(value@) matches Err(e) ==> result == Err::<
                Instantiate,
                DecodeError,
            >(e),
            Instantiate::spec_decode(value@) matches Ok(body) ==> (result matches Ok(out) && out@
                == body),
    {
        let names = [FIELD_DATA, FIELD_TOKENS, FIELD_CODE_ID, FIELD_UPGRADES_POLICY];
        assert(names_view(names@) =~= instantiate_fields());
        let mut fields = match take_fields(value, names.as_slice()) {
            Err(e) => {
                return Err(e);
            },
            Ok(fields) => fields,
        };
        let policy_field = pop_field(&mut fields);
        let code_id_field = pop_field(&mut fields);
        let tokens_field = pop_field(&mut fields);
        let data_field = pop_field(&mut fields);
        let data = match take_field_bytes(data_field) {
            Err(e) => {
                return Err(e);
            },
            Ok(data) => data,
        };
        let tokens = match take_field_tokens(tokens_field) {
            Err(e) => {
                return Err(e);
            },
            Ok(tokens) => tokens,
        };
        let code_id = match take_field_u64(code_id_field) {
            Err(e) => {
                return Err(e);
            },
            Ok(code_id) => code_id,
        };
        let upgrades_policy = match take_field_policy(policy_field) {
            Err(e) => {
                return Err(e);
            },
            Ok(policy) => policy,
        };
        Ok(Instantiate { code_id: CodeId(code_id), upgrades_policy, data, tokens })
    }
}

impl Call {
    /// How the body of a call is read.
    pub open spec fn spec_decode(value: ValueView) -> Result<CallView, DecodeError> {
        match decode_fields(value, call_fields()) {
            Err(e) => Err(e),
            Ok(fields) => {
                let id = field_u64(fields[0]);
                let data = field_bytes(fields[1]);
                let tokens = field_tokens(fields[2]);
                if id is Err {
                    Err(id->Err_0)
                } else if data is Err {
                    Err(data->Err_0)
                } else if tokens is Err {
                    Err(tokens->Err_0)
                } else {
                    Ok(CallView { id: InstanceId(id->Ok_0), data: data->Ok_0, tokens: tokens->Ok_0 })
                }
            },
        }
    }

    /// Reads the body of a call.
    pub fn try_from_cbor_value(value: Value) -> (result: Result<Call, DecodeError>)
        ensures
            Call::spec_decode(value@) matches Err(e) ==> result == Err::<Call, DecodeError>(e),
            Call::spec_decode(value@) matches Ok(body) ==> (result matches Ok(out) && out@
                == body),
    {
        let names = [FIELD_ID, FIELD_DATA, FIELD_TOKENS];
        assert(names_view(names@) =~= call_fields());
        let mut fields = match take_fields(value, names.as_slice()) {
            Err(e) => {
                return Err(e);
            },
            Ok(fields) => fields,
        };
        let tokens_field = pop_field(&mut fields);
        let data_field = pop_field(&mut fields);
        let id_field = pop_field(&mut fields);
        let id = match take_field_u64(id_field) {
            Err(e) => {
                return Err(e);
            },
            Ok(id) => id,
        };
        let data = match take_field_bytes(data_field) {
            Err(e) => {
                return Err(e);
            },
            Ok(data) => data,
        };
        let tokens = match take_field_tokens(tokens_field) {
            Err(e) => {
                return Err(e);
            },
            Ok(tokens) => tokens,
        };
        Ok(Call { id: InstanceId(id), data, tokens })
    }
}

impl Upgrade {
    /// How the body of an upgrade is read.
    pub open spec fn spec_decode(value: ValueView) -> Result<UpgradeView, DecodeError> {
        match decode_fields(value, upgrade_fields()) {
            Err(e) => Err(e),
            Ok(fields) => {
                let id = field_u64(fields[0]);
                let data = field_bytes(fields[1]);
                let tokens = field_tokens(fields[2]);
                let code_id = field_u64(fields[3]);
                if id is Err {
                    Err(id->Err_0)
                } else if data is Err {
                    Err(data->Err_0)
                } else if tokens is Err {
                    Err(tokens->Err_0)
                } else if code_id is Err {
                    Err(code_id->Err_0)
                } else {
                    Ok(
                        UpgradeView {
                            id: InstanceId(id->Ok_0),
                            code_id: CodeId(code_id->Ok_0),
                            data: data->Ok_0,
                            tokens: tokens->Ok_0,
                        },
                    )
                }
            },
        }
    }

    /// Reads the body of an upgrade.
    pub fn try_from_cbor_value(value: Value) -> (result: Result<Upgrade, DecodeError>)
        ensures
            Upgrade::spec_decode(value@) matches Err(e) ==> result == Err::<Upgrade, DecodeError>(
                e,
            ),
            Upgrade::spec_decode(value@) matches Ok(body) ==> (result matches Ok(out) && out@
                == body),
    {
        let names = [FIELD_ID, FIELD_DATA, FIELD_TOKENS, FIELD_CODE_ID];
        assert(names_view(names@) =~= upgrade_fields());
        let mut fields = match take_fields(value, names.as_slice()) {
            Err(e) => {
                return Err(e);
            },
            Ok(fields) => fields,
        };
        let code_id_field = pop_field(&mut fields);
        let tokens_field = pop_field(&mut fields);
        let data_field = pop_field(&mut fields);
        let id_field = pop_field(&mut fields);
        let id = match take_field_u64(id_field) {
            Err(e) => {
                return Err(e);
            },
            Ok(id) => id,
        };
        let data = match take_field_bytes(data_field) {
            Err(e) => {
                return Err(e);
            },
            Ok(data) => data,
        };
        let tokens = match take_field_tokens(tokens_field) {
            Err(e) => {
                return Err(e);
            },
            Ok(tokens) => tokens,
        };
        let code_id = match take_field_u64(code_id_field) {
            Err(e) => {
                return Err(e);
            },
            Ok(code_id) => code_id,
        };
        Ok(Upgrade { id: InstanceId(id), code_id: CodeId(code_id), data, tokens })
    }
}

/// How a body that holds nothing but an identifier is read.
pub open spec fn decode_id(value: ValueView) -> Result<u64, DecodeError> {
    match decode_fields(value, id_fields()) {
        Err(e) => Err(e),
        Ok(fields) => field_u64(fields[0]),
    }
}

/// Reads a body that holds nothing but an identifier.
pub fn take_id(value: Value) -> (result: Result<u64, DecodeError>)
    ensures
        result == decode_id(value@),
{
    let names = [FIELD_ID];
    assert(names_view(names@) =~= id_fields());
    let mut fields = match take_fields(value, names.as_slice()) {
        Err(e) => {
            return Err(e);
        },
        Ok(fields) => fields,
    };
    let id_field = pop_field(&mut fields);
    take_field_u64(id_field)
}

impl CodeQuery {
    /// How the query is read.
    pub open spec fn spec_decode(value: ValueView) -> Result<CodeQuery, DecodeError> {
        match decode_id(value) {
            Err(e) => Err(e),
            Ok(id) => Ok(CodeQuery { id: CodeId(id) }),
        }
    }

    /// Reads a query.
    pub fn try_from_cbor_value(value: Value) -> (result: Result<CodeQuery, DecodeError>)
        ensures
            result == CodeQuery::spec_decode(value@),
    {
        match take_id(value) {
            Err(e) => Err(e),
            Ok(id) => Ok(CodeQuery { id: CodeId(id) }),
        }
    }
}

impl InstanceQuery {
    /// How the query is read.
    pub open spec fn spec_decode(value: ValueView) -> Result<InstanceQuery, DecodeError> {
        match decode_id(value) {
            Err(e) => Err(e),
            Ok(id) => Ok(InstanceQuery { id: InstanceId(id) }),
        }
    }

    /// Reads a query.
    pub fn try_from_cbor_value(value: Value) -> (result: Result<InstanceQuery, DecodeError>)
        ensures
            result == InstanceQuery::spec_decode(value@),
    {
        match take_id(value) {
            Err(e) => Err(e),
            Ok(id) => Ok(InstanceQuery { id: InstanceId(id) }),
        }
    }
}

impl InstanceStorageQuery {
    /// How the query is read.
    pub open spec fn spec_decode(value: ValueView) -> Result<InstanceStorageQueryView, DecodeError> {
        match decode_fields(value, storage_query_fields()) {
            Err(e) => Err(e),
            Ok(fields) => {
                let id = field_u64(fields[0]);
                let key = field_bytes(fields[1]);
                if id is Err {
                    Err(id->Err_0)
                } else if key is Err {
                    Err(key->Err_0)
                } else {
                    Ok(InstanceStorageQueryView { id: InstanceId(id->Ok_0), key: key->Ok_0 })
                }
            },
        }
    }

    /// Reads a query.
    pub fn try_from_cbor_value(value: Value) -> (result: Result<InstanceStorageQuery, DecodeError>)
        ensures
            InstanceStorageQuery::spec_decode(value@) matches Err(e) ==> result == Err::<
                InstanceStorageQuery,
                DecodeError,
            >(e),
            InstanceStorageQuery::spec_decode(value@) matches Ok(query) ==> (result matches Ok(out)
                && out@ == query),
    {
        let names = [FIELD_ID, FIELD_KEY];
        assert(names_view(names@) =~= storage_query_fields());
        let mut fields = match take_fields(value, names.as_slice()) {
            Err(e) => {
                return Err(e);
            },
            Ok(fields) => fields,
        };
        let key_field = pop_field(&mut fields);
        let id_field = pop_field(&mut fields);
        let id = match take_field_u64(id_field) {
            Err(e) => {
                return Err(e);
            },
            Ok(id) => id,
        };
        let key = match take_field_bytes(key_field) {
            Err(e) => {
                return Err(e);
            },
            Ok(key) => key,
        };
        Ok(InstanceStorageQuery { id: InstanceId(id), key })
    }
}

/// A required field that holds the kind of a public key.
pub open spec fn field_kind(field: Option<ValueView>) -> Result<PublicKeyKind, DecodeError> {
    match field {
        Some(value) => if is_text(value, KIND_TRANSACTION@) {
            Ok(PublicKeyKind::Transaction)
        } else {
            Err(DecodeError::UnknownField)
        },
        None => Err(DecodeError::MissingField),
    }
}

impl PublicKeyQuery {
    /// How the query is read.
    pub open spec fn spec_decode(value: ValueView) -> Result<PublicKeyQuery, DecodeError> {
        match decode_fields(value, public_key_query_fields()) {
            Err(e) => Err(e),
            Ok(fields) => {
                let id = field_u64(fields[0]);
                let kind = field_kind(fields[1]);
                if id is Err {
                    Err(id->Err_0)
                } else if kind is Err {
                    Err(kind->Err_0)
                } else {
                    Ok(PublicKeyQuery { id: InstanceId(id->Ok_0), kind: kind->Ok_0 })
                }
            },
        }
    }

    /// Reads a query.
    pub fn try_from_cbor_value(value: Value) -> (result: Result<PublicKeyQuery, DecodeError>)
        ensures
            result == PublicKeyQuery::spec_decode(value@),
    {
        let names = [FIELD_ID, FIELD_KIND];
        assert(names_view(names@) =~= public_key_query_fields());
        let mut fields = match take_fields(value, names.as_slice()) {
            Err(e) => {
                return Err(e);
            },
            Ok(fields) => fields,
        };
        let kind_field = pop_field(&mut fields);
        let id_field = pop_field(&mut fields);
        let id = match take_field_u64(id_field) {
            Err(e) => {
                return Err(e);
            },
            Ok(id) => id,
        };
        let kind = match kind_field {
            None => {
                return Err(DecodeError::MissingField);
            },
            Some(value) => if value_is_text(&value, KIND_TRANSACTION) {
                PublicKeyKind::Transaction
            } else {
                return Err(DecodeError::UnknownField);
            },
        };
        Ok(PublicKeyQuery { id: InstanceId(id), kind })
    }
}

impl CustomQuery {
    /// How the query is read.
    pub open spec fn spec_decode(value: ValueView) -> Result<CustomQueryView, DecodeError> {
        match decode_fields(value, custom_query_fields()) {
            Err(e) => Err(e),
            Ok(fields) => {
                let id = field_u64(fields[0]);
                let data = field_bytes(fields[1]);
                let method = field_text(fields[2]);
                if id is Err {
                    Err(id->Err_0)
                } else if data is Err {
                    Err(data->Err_0)
                } else if method is Err {
                    Err(method->Err_0)
                } else {
                    Ok(
                        CustomQueryView {
                            id: InstanceId(id->Ok_0),
                            method: method->Ok_0,
                            data: data->Ok_0,
                        },
                    )
                }
            },
        }
    }

    /// Reads a query.
    pub fn try_from_cbor_value(value: Value) -> (result: Result<CustomQuery, DecodeError>)
        ensures
            CustomQuery::spec_decode(value@) matches Err(e) ==> result == Err::<
                CustomQuery,
                DecodeError,
            >(e),
            CustomQuery::spec_decode(value@) matches Ok(query) ==> (result matches Ok(out) && out@
                == query),
    {
        let names = [FIELD_ID, FIELD_DATA, FIELD_METHOD];
        assert(names_view(names@) =~= custom_query_fields());
        let mut fields = match take_fields(value, names.as_slice()) {
            Err(e) => {
                return Err(e);
            },
            Ok(fields) => fields,
        };
        let method_field = pop_field(&mut fields);
        let data_field = pop_field(&mut fields);
        let id_field = pop_field(&mut fields);
        let id = match take_field_u64(id_field) {
            Err(e) => {
                return Err(e);
            },
            Ok(id) => id,
        };
        let data = match take_field_bytes(data_field) {
            Err(e) => {
                return Err(e);
            },
            Ok(data) => data,
        };
        let method = match take_field_text(method_field) {
            Err(e) => {
                return Err(e);
            },
            Ok(method) => method,
        };
        Ok(CustomQuery { id: InstanceId(id), method, data })
    }
}

impl UploadResult {
    /// How the result is written: as a map of its one field.
    pub open spec fn spec_encode(result: UploadResult) -> ValueView {
        ValueView::Dict(seq![(ValueView::TextString(FIELD_ID@), ValueView::Unsigned(result.id.0))])
    }

    /// Writes the result.
    pub fn into_cbor_value(self) -> (value: Value)
        ensures
            value@ == UploadResult::spec_encode(self),
    {
        let mut pairs: Vec<(Value, Value)> = Vec::new();
        push_field(&mut pairs, FIELD_ID, self.id.into_cbor_value());
        assert(pairs_view(pairs@) =~= UploadResult::spec_encode(self)->Dict_0);
        dict_value(pairs)
    }
}

impl InstantiateResult {
    /// How the result is written: as a map of its one field.
    pub open spec fn spec_encode(result: InstantiateResult) -> ValueView {
        ValueView::Dict(seq![(ValueView::TextString(FIELD_ID@), ValueView::Unsigned(result.id.0))])
    }

    /// Writes the result.
    pub fn into_cbor_value(self) -> (value: Value)
        ensures
            value@ == InstantiateResult::spec_encode(self),
    {
        let mut pairs: Vec<(Value, Value)> = Vec::new();
        push_field(&mut pairs, FIELD_ID, self.id.into_cbor_value());
        assert(pairs_view(pairs@) =~= InstantiateResult::spec_encode(self)->Dict_0);
        dict_value(pairs)
    }
}

impl crate::types::CallResult {
    /// Writes the result: as the byte string of the returned data.
    pub fn into_cbor_value(self) -> (value: Value)
        ensures
            value@ == ValueView::ByteString(self.0@),
    {
        Value::ByteString(self.0)
    }
}

/// The given bytes without the zero bytes that they begin with.
pub open spec fn trimmed(bytes: Seq<u8>) -> Seq<u8>
    decreases bytes.len(),
{
    if bytes.len() > 0 && bytes[0] == 0 {
        trimmed(bytes.drop_first())
    } else {
        bytes
    }
}

/// How an amount is written: as the byte string of its sixteen bytes, most
/// significant first, without the zero bytes that they begin with.
pub open spec fn encode_amount(amount: u128) -> ValueView {
    ValueView::ByteString(trimmed(crate::bytes::be_bytes_wide(amount)))
}

/// How an amount of tokens is written: as an array of the amount and the
/// name of the denomination.
pub open spec fn encode_base_units(units: (u128, Seq<u8>)) -> ValueView {
    ValueView::Array(seq![encode_amount(units.0), ValueView::ByteString(units.1)])
}

/// How a list of amounts is written.
pub open spec fn encode_tokens(tokens: Seq<(u128, Seq<u8>)>) -> Seq<ValueView> {
    Seq::new(tokens.len(), |i: int| encode_base_units(tokens[i]))
}

/// Trimmed bytes are not longer than the bytes, and padding them to sixteen
/// gives what padding the bytes gives.
pub proof fn lemma_trimmed_padded(bytes: Seq<u8>)
    requires
        bytes.len() <= 16,
    ensures
        trimmed(bytes).len() <= bytes.len(),
        padded(trimmed(bytes)) == padded(bytes),
    decreases bytes.len(),
{
    if bytes.len() > 0 && bytes[0] == 0 {
        lemma_trimmed_padded(bytes.drop_first());
        assert(padded(bytes.drop_first()) =~= padded(bytes));
    }
}

/// Reading an amount that was written gives the amount back.
pub proof fn lemma_amount_round_trip(amount: u128)
    ensures
        decode_amount(encode_amount(amount)) == Ok::<u128, DecodeError>(amount),
{
    let wide = crate::bytes::be_bytes_wide(amount);
    crate::bytes::lemma_be_bytes_wide_value(amount);
    lemma_trimmed_padded(wide);
    assert(padded(wide) =~= wide);
}

/// Writes an amount.
pub fn amount_value(amount: u128) -> (value: Value)
    ensures
        value@ == encode_amount(amount),
{
    let wide = crate::bytes::to_be_bytes_wide(amount);
    proof {
        crate::bytes::lemma_be_bytes_wide_value(amount);
        assert(wide@.skip(0) =~= wide@);
    }
    let mut start: usize = 0;
    while start < wide.len() && wide[start] == 0
        invariant
            start <= wide.len(),
            trimmed(wide@) == trimmed(wide@.skip(start as int)),
        decreases wide.len() - start,
    {
        proof {
            assert(wide@.skip(start as int).drop_first() =~= wide@.skip(start + 1));
        }
        start += 1;
    }
    let mut out: Vec<u8> = Vec::new();
    let mut i: usize = start;
    while i < wide.len()
        invariant
            start <= i <= wide.len(),
            out@ == wide@.subrange(start as int, i as int),
        decreases wide.len() - i,
    {
        out.push(wide[i]);
        i += 1;
        assert(out@ =~= wide@.subrange(start as int, i as int));
    }
    proof {
        assert(out@ =~= wide@.skip(start as int));
        assert(trimmed(wide@.skip(start as int)) == wide@.skip(start as int));
    }
    Value::ByteString(out)
}

/// Writes a list of amounts.
pub fn tokens_into_values(tokens: &Vec<BaseUnits>) -> (values: Vec<Value>)
    ensures
        values_view(values@) == encode_tokens(tokens_view(tokens@)),
{
    let mut values: Vec<Value> = Vec::new();
    let mut i: usize = 0;
    proof {
        assert(values_view(values@) =~= encode_tokens(tokens_view(tokens@)).take(0));
    }
    while i < tokens.len()
        invariant
            i <= tokens.len(),
            values_view(values@) == encode_tokens(tokens_view(tokens@)).take(i as int),
        decreases tokens.len() - i,
    {
        let ghost before = values_view(values@);
        let mut items: Vec<Value> = Vec::new();
        items.push(amount_value(tokens[i].0));
        items.push(Value::ByteString(crate::bytes::copy_bytes(tokens[i].1.0.as_slice())));
        let value = crate::codec::array_value(items);
        proof {
            assert(values_view(items@) =~= seq![
                encode_amount(tokens@[i as int].0),
                ValueView::ByteString(tokens@[i as int].1@),
            ]);
        }
        values.push(value);
        i += 1;
        proof {
            assert(values_view(values@) =~= before.push(value@));
            assert(values_view(values@) =~= encode_tokens(tokens_view(tokens@)).take(i as int));
        }
    }
    proof {
        assert(encode_tokens(tokens_view(tokens@)).take(i as int) =~= encode_tokens(
            tokens_view(tokens@),
        ));
    }
    values
}

/// Name of the field that holds the caller.
pub const FIELD_CALLER: &'static str = "caller";

/// Name of the field that holds the instance.
pub const FIELD_INSTANCE: &'static str = "instance";

/// Name of the field that holds the tokens that came with a call.
pub const FIELD_TOKENS_RECEIVED: &'static str = "tokens_received";

/// Name of the field that holds a request.
pub const FIELD_REQUEST: &'static str = "request";

/// Name of the field that holds a reply.
pub const FIELD_REPLY_PAYLOAD: &'static str = "reply";

impl crate::execution::Envelope {
    /// How the envelope is written: as a map of its fields in canonical
    /// order, with the request or the reply under its own name.
    pub open spec fn spec_encode(envelope: crate::execution::EnvelopeView) -> ValueView {
        let caller = (
            ValueView::TextString(FIELD_CALLER@),
            ValueView::ByteString(envelope.caller),
        );
        let instance = (
            ValueView::TextString(FIELD_INSTANCE@),
            ValueView::Unsigned(envelope.instance.0),
        );
        let tokens = (
            ValueView::TextString(FIELD_TOKENS_RECEIVED@),
            ValueView::Array(encode_tokens(envelope.tokens_received)),
        );
        match envelope.payload {
            crate::execution::PayloadView::Request(data) => ValueView::Dict(
                seq![
                    caller,
                    (ValueView::TextString(FIELD_REQUEST@), ValueView::ByteString(data)),
                    instance,
                    tokens,
                ],
            ),
            crate::execution::PayloadView::Reply(reply) => ValueView::Dict(
                seq![
                    (
                        ValueView::TextString(FIELD_REPLY_PAYLOAD@),
                        crate::message::Reply::spec_encode(reply),
                    ),
                    caller,
                    instance,
                    tokens,
                ],
            ),
        }
    }

    /// Writes the envelope.
    pub fn into_cbor_value(self) -> (value: Value)
        ensures
            value@ == crate::execution::Envelope::spec_encode(self@),
    {
        let crate::execution::Envelope { caller, instance, tokens_received, payload } = self;
        let tokens = crate::codec::array_value(tokens_into_values(&tokens_received));
        let mut pairs: Vec<(Value, Value)> = Vec::new();
        match payload {
            crate::execution::Payload::Request(data) => {
                push_field(&mut pairs, FIELD_CALLER, Value::ByteString(caller.to_vec()));
                push_field(&mut pairs, FIELD_REQUEST, Value::ByteString(data));
                push_field(&mut pairs, FIELD_INSTANCE, Value::Unsigned(instance.0));
                push_field(&mut pairs, FIELD_TOKENS_RECEIVED, tokens);
            },
            crate::execution::Payload::Reply(reply) => {
                push_field(&mut pairs, FIELD_REPLY_PAYLOAD, reply.into_cbor_value());
                push_field(&mut pairs, FIELD_CALLER, Value::ByteString(caller.to_vec()));
                push_field(&mut pairs, FIELD_INSTANCE, Value::Unsigned(instance.0));
                push_field(&mut pairs, FIELD_TOKENS_RECEIVED, tokens);
            },
        }
        assert(pairs_view(pairs@) =~= crate::execution::Envelope::spec_encode(self@)->Dict_0);
        dict_value(pairs)
    }
}

/// The names of the fields of an envelope that holds a request, in
/// canonical order.
pub open spec fn request_envelope_fields() -> Seq<Seq<char>> {
    seq![FIELD_CALLER@, FIELD_REQUEST@, FIELD_INSTANCE@, FIELD_TOKENS_RECEIVED@]
}

/// The names of the fields of an envelope that holds a reply, in canonical
/// order.
pub open spec fn reply_envelope_fields() -> Seq<Seq<char>> {
    seq![FIELD_REPLY_PAYLOAD@, FIELD_CALLER@, FIELD_INSTANCE@, FIELD_TOKENS_RECEIVED@]
}

/// The fields of the bodies of calls and queries and of envelopes are
/// written in the canonical order of their names.
pub proof fn lemma_request_fields_canonical()
    ensures
        canonical(upload_fields()),
        canonical(instantiate_fields()),
        canonical(call_fields()),
        canonical(upgrade_fields()),
        canonical(id_fields()),
        canonical(storage_query_fields()),
        canonical(public_key_query_fields()),
        canonical(custom_query_fields()),
        canonical(request_envelope_fields()),
        canonical(reply_envelope_fields()),
{
    reveal_strlit("id");
    reveal_strlit("abi");
    reveal_strlit("key");
    reveal_strlit("code");
    reveal_strlit("data");
    reveal_strlit("kind");
    reveal_strlit("reply");
    reveal_strlit("method");
    reveal_strlit("tokens");
    reveal_strlit("caller");
    reveal_strlit("code_id");
    reveal_strlit("request");
    reveal_strlit("instance");
    reveal_strlit("tokens_received");
    reveal_strlit("upgrades_policy");
    reveal_strlit("instantiate_policy");
    lemma_shorter_name_first(FIELD_ABI, FIELD_CODE_BYTES);
    lemma_shorter_name_first(FIELD_CODE_BYTES, FIELD_INSTANTIATE_POLICY);
    lemma_shorter_name_first(FIELD_DATA, FIELD_TOKENS);
    lemma_shorter_name_first(FIELD_TOKENS, FIELD_CODE_ID);
    lemma_shorter_name_first(FIELD_CODE_ID, FIELD_UPGRADES_POLICY);
    lemma_shorter_name_first(FIELD_ID, FIELD_DATA);
    lemma_shorter_name_first(FIELD_ID, FIELD_KEY);
    lemma_shorter_name_first(FIELD_ID, FIELD_KIND);
    lemma_shorter_name_first(FIELD_DATA, FIELD_METHOD);
    lemma_shorter_name_first(FIELD_CALLER, FIELD_REQUEST);
    lemma_shorter_name_first(FIELD_REQUEST, FIELD_INSTANCE);
    lemma_shorter_name_first(FIELD_INSTANCE, FIELD_TOKENS_RECEIVED);
    lemma_shorter_name_first(FIELD_REPLY_PAYLOAD, FIELD_CALLER);
    lemma_shorter_name_first(FIELD_CALLER, FIELD_INSTANCE);
}

} // verus!
