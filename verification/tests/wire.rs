use contracts::address::Address;
use contracts::codec::{compare_bytes, compare_key, extract_fields, DecodeError, Order};
use contracts::execution::{Envelope, ExecutionOk, ExecutionResult, Payload};
use contracts::message::{CallResult, Message, NotifyReply, Reply};
use contracts::request_codec::{amount_value, take_amount, take_base_units};
use contracts::token::{BaseUnits, Denomination};
use contracts::types::{
    Call, Code, CodeId, CodeQuery, CustomQuery, Instance, InstanceId, InstanceQuery,
    InstanceStorageQuery, Instantiate, InstantiateResult, Policy, PublicKeyKind, PublicKeyQuery,
    Upgrade, Upload, UploadResult, ABI,
};
use contracts::value::{SimpleValue, Value};

fn text(s: &str) -> Value {
    Value::TextString(s.to_string())
}

fn dict(pairs: Vec<(&str, Value)>) -> Value {
    Value::Dict(pairs.into_iter().map(|(k, v)| (text(k), v)).collect())
}

fn wire_address() -> Address {
    Address::from_module_raw("keys", b"alice")
}

#[test]
fn identifiers_are_written_as_numbers() {
    assert_eq!(CodeId(7).into_cbor_value(), Value::Unsigned(7));
    assert_eq!(InstanceId(u64::MAX).into_cbor_value(), Value::Unsigned(u64::MAX));
    assert_eq!(CodeId::try_from_cbor_value(Value::Unsigned(7)), Ok(CodeId(7)));
    assert_eq!(
        InstanceId::try_from_cbor_value(Value::Unsigned(0)),
        Ok(InstanceId(0))
    );
    assert_eq!(
        CodeId::try_from_cbor_value(text("7")),
        Err(DecodeError::UnexpectedType)
    );
    assert_eq!(
        InstanceId::try_from_cbor_value(Value::Negative(-1)),
        Err(DecodeError::UnexpectedType)
    );
}

#[test]
fn abi_and_reply_filter_are_written_as_their_numbers() {
    assert_eq!(ABI::OasisV1.into_cbor_value(), Value::Unsigned(1));
    assert_eq!(ABI::try_from_cbor_value(Value::Unsigned(1)), Ok(ABI::OasisV1));
    assert_eq!(
        ABI::try_from_cbor_value(Value::Unsigned(0)),
        Err(DecodeError::UnknownField)
    );
    let filters = [
        (NotifyReply::Never, 0),
        (NotifyReply::OnError, 1),
        (NotifyReply::OnSuccess, 2),
        (NotifyReply::Always, 3),
    ];
    for (filter, number) in filters {
        assert_eq!(filter.into_cbor_value(), Value::Unsigned(number));
        assert_eq!(
            NotifyReply::try_from_cbor_value(Value::Unsigned(number)),
            Ok(filter)
        );
    }
    assert_eq!(
        NotifyReply::try_from_cbor_value(Value::Unsigned(4)),
        Err(DecodeError::UnknownField)
    );
    assert_eq!(
        NotifyReply::try_from_cbor_value(text("never")),
        Err(DecodeError::UnknownField)
    );
}

#[test]
fn policies_round_trip() {
    assert_eq!(Policy::Nobody.into_cbor_value(), text("nobody"));
    assert_eq!(Policy::Everyone.into_cbor_value(), text("any"));
    assert_eq!(
        Policy::Address(wire_address()).into_cbor_value(),
        dict(vec![("address", Value::ByteString(wire_address().to_vec()))])
    );
    for policy in [Policy::Nobody, Policy::Everyone, Policy::Address(wire_address())] {
        assert_eq!(Policy::try_from_cbor_value(policy.into_cbor_value()), Ok(policy));
    }
}

#[test]
fn policies_that_cannot_be_read() {
    assert_eq!(
        Policy::try_from_cbor_value(text("everyone")),
        Err(DecodeError::UnknownField)
    );
    assert_eq!(
        Policy::try_from_cbor_value(Value::Unsigned(0)),
        Err(DecodeError::UnknownField)
    );
    assert_eq!(
        Policy::try_from_cbor_value(dict(vec![("nobody", Value::Unsigned(0))])),
        Err(DecodeError::UnknownField)
    );
    assert_eq!(
        Policy::try_from_cbor_value(dict(vec![("address", Value::ByteString(vec![0; 20]))])),
        Err(DecodeError::UnexpectedType)
    );
    assert_eq!(
        Policy::try_from_cbor_value(dict(vec![("address", text("alice"))])),
        Err(DecodeError::UnexpectedType)
    );
    assert_eq!(
        Policy::try_from_cbor_value(Value::Dict(vec![])),
        Err(DecodeError::UnknownField)
    );
    assert_eq!(
        Policy::try_from_cbor_value(dict(vec![
            ("address", Value::ByteString(vec![0; 21])),
            ("address", Value::ByteString(vec![0; 21]))
        ])),
        Err(DecodeError::UnknownField)
    );
}

fn sample_code() -> Code {
    Code {
        id: CodeId(3),
        hash: contracts::crypto::Hash::digest_bytes(b"code"),
        abi: ABI::OasisV1,
        instantiate_policy: Policy::Address(wire_address()),
    }
}

#[test]
fn code_records_round_trip() {
    let code = sample_code();
    let value = code.into_cbor_value();
    assert_eq!(
        value,
        dict(vec![
            ("id", Value::Unsigned(3)),
            ("abi", Value::Unsigned(1)),
            ("hash", Value::ByteString(code.hash.to_vec())),
            (
                "instantiate_policy",
                dict(vec![("address", Value::ByteString(wire_address().to_vec()))])
            ),
        ])
    );
    assert_eq!(Code::try_from_cbor_value(value), Ok(code));
}

#[test]
fn instance_records_round_trip() {
    let instance = Instance {
        id: InstanceId(9),
        code_id: CodeId(3),
        creator: wire_address(),
        upgrades_policy: Policy::Nobody,
    };
    let value = instance.into_cbor_value();
    assert_eq!(
        value,
        dict(vec![
            ("id", Value::Unsigned(9)),
            ("code_id", Value::Unsigned(3)),
            ("creator", Value::ByteString(wire_address().to_vec())),
            ("upgrades_policy", text("nobody")),
        ])
    );
    assert_eq!(Instance::try_from_cbor_value(value), Ok(instance));
}

#[test]
fn records_are_read_strictly() {
    let code = sample_code();
    let hash = Value::ByteString(code.hash.to_vec());
    // A field that is missing.
    let value = dict(vec![
        ("id", Value::Unsigned(3)),
        ("abi", Value::Unsigned(1)),
        ("instantiate_policy", text("any")),
    ]);
    assert_eq!(Code::try_from_cbor_value(value), Err(DecodeError::MissingField));
    // Fields out of order.
    let value = dict(vec![
        ("abi", Value::Unsigned(1)),
        ("id", Value::Unsigned(3)),
        ("hash", Value::ByteString(code.hash.to_vec())),
        ("instantiate_policy", text("any")),
    ]);
    assert_eq!(Code::try_from_cbor_value(value), Err(DecodeError::UnknownField));
    // A field that is not known.
    let value = dict(vec![
        ("id", Value::Unsigned(3)),
        ("abi", Value::Unsigned(1)),
        ("hash", Value::ByteString(code.hash.to_vec())),
        ("instantiate_policy", text("any")),
        ("instantiate_policy_2", text("any")),
    ]);
    assert_eq!(Code::try_from_cbor_value(value), Err(DecodeError::UnknownField));
    // A key that is not a text.
    let value = Value::Dict(vec![(Value::Unsigned(1), Value::Unsigned(3))]);
    assert_eq!(Code::try_from_cbor_value(value), Err(DecodeError::UnknownField));
    // A digest of the wrong length.
    let value = dict(vec![
        ("id", Value::Unsigned(3)),
        ("abi", Value::Unsigned(1)),
        ("hash", Value::ByteString(vec![0; 31])),
        ("instantiate_policy", text("any")),
    ]);
    assert_eq!(Code::try_from_cbor_value(value), Err(DecodeError::UnexpectedType));
    // Not a map at all.
    assert_eq!(Code::try_from_cbor_value(hash), Err(DecodeError::UnexpectedType));
    assert_eq!(
        Instance::try_from_cbor_value(Value::Array(vec![])),
        Err(DecodeError::UnexpectedType)
    );
}

fn sample_message(max_gas: Option<u64>) -> Message {
    Message::Call {
        id: 42,
        reply: NotifyReply::Always,
        method: "contracts.Call".to_string(),
        body: dict(vec![("id", Value::Unsigned(1))]),
        max_gas,
    }
}

#[test]
fn messages_round_trip() {
    let value = sample_message(Some(1_000)).into_cbor_value();
    assert_eq!(
        value,
        dict(vec![(
            "call",
            dict(vec![
                ("id", Value::Unsigned(42)),
                ("body", dict(vec![("id", Value::Unsigned(1))])),
                ("reply", Value::Unsigned(3)),
                ("method", text("contracts.Call")),
                ("max_gas", Value::Unsigned(1_000)),
            ])
        )])
    );
    assert_eq!(Message::try_from_cbor_value(value), Ok(sample_message(Some(1_000))));
    // A message without a gas limit is written without the field.
    let value = sample_message(None).into_cbor_value();
    assert_eq!(
        value,
        dict(vec![(
            "call",
            dict(vec![
                ("id", Value::Unsigned(42)),
                ("body", dict(vec![("id", Value::Unsigned(1))])),
                ("reply", Value::Unsigned(3)),
                ("method", text("contracts.Call")),
            ])
        )])
    );
    assert_eq!(Message::try_from_cbor_value(value), Ok(sample_message(None)));
}

#[test]
fn message_without_identifier_reads_as_zero_and_is_written_with_it() {
    let value = dict(vec![(
        "call",
        dict(vec![
            ("body", Value::Simple(SimpleValue::NullValue)),
            ("reply", Value::Unsigned(0)),
            ("method", text("m")),
            ("max_gas", Value::Simple(SimpleValue::NullValue)),
        ]),
    )]);
    let message = Message::try_from_cbor_value(value).unwrap();
    assert_eq!(
        message,
        Message::Call {
            id: 0,
            reply: NotifyReply::Never,
            method: "m".to_string(),
            body: Value::Simple(SimpleValue::NullValue),
            max_gas: None,
        }
    );
    // Writing it back gives the canonical form: with the identifier, without the gas limit.
    assert_eq!(
        message.into_cbor_value(),
        dict(vec![(
            "call",
            dict(vec![
                ("id", Value::Unsigned(0)),
                ("body", Value::Simple(SimpleValue::NullValue)),
                ("reply", Value::Unsigned(0)),
                ("method", text("m")),
            ])
        )])
    );
}

#[test]
fn messages_that_cannot_be_read() {
    assert_eq!(
        Message::try_from_cbor_value(text("call")),
        Err(DecodeError::UnknownField)
    );
    assert_eq!(
        Message::try_from_cbor_value(dict(vec![("send", Value::Dict(vec![]))])),
        Err(DecodeError::UnknownField)
    );
    assert_eq!(
        Message::try_from_cbor_value(dict(vec![("call", Value::Dict(vec![]))])),
        Err(DecodeError::MissingField)
    );
    assert_eq!(
        Message::try_from_cbor_value(dict(vec![("call", Value::Unsigned(1))])),
        Err(DecodeError::UnexpectedType)
    );
    assert_eq!(
        Message::try_from_cbor_value(dict(vec![(
            "call",
            dict(vec![
                ("body", Value::Unsigned(1)),
                ("reply", Value::Unsigned(7)),
                ("method", text("m")),
            ])
        )])),
        Err(DecodeError::UnknownField)
    );
    assert_eq!(
        Message::try_from_cbor_value(dict(vec![(
            "call",
            dict(vec![
                ("body", Value::Unsigned(1)),
                ("reply", Value::Unsigned(1)),
                ("method", Value::ByteString(vec![])),
            ])
        )])),
        Err(DecodeError::UnexpectedType)
    );
    assert_eq!(
        Message::try_from_cbor_value(dict(vec![(
            "call",
            dict(vec![
                ("body", Value::Unsigned(1)),
                ("reply", Value::Unsigned(1)),
                ("method", text("m")),
                ("max_gas", text("much")),
            ])
        )])),
        Err(DecodeError::UnexpectedType)
    );
}

#[test]
fn call_results_and_replies_round_trip() {
    let ok = CallResult::Success(Value::ByteString(vec![1, 2]));
    assert_eq!(
        CallResult::Success(Value::ByteString(vec![1, 2])).into_cbor_value(),
        dict(vec![("ok", Value::ByteString(vec![1, 2]))])
    );
    assert_eq!(
        CallResult::try_from_cbor_value(dict(vec![("ok", Value::ByteString(vec![1, 2]))])),
        Ok(ok)
    );
    let failed = || CallResult::Failed {
        module: "contracts".to_string(),
        code: 13,
    };
    let value = failed().into_cbor_value();
    assert_eq!(
        value,
        dict(vec![(
            "fail",
            dict(vec![("code", Value::Unsigned(13)), ("module", text("contracts"))])
        )])
    );
    assert_eq!(CallResult::try_from_cbor_value(value), Ok(failed()));
    assert!(!failed().is_success());
    assert!(CallResult::Success(Value::Unsigned(1)).is_success());

    let reply = Reply::Call {
        id: 5,
        result: failed(),
    };
    let value = reply.into_cbor_value();
    assert_eq!(
        value,
        dict(vec![(
            "call",
            dict(vec![("id", Value::Unsigned(5)), ("result", failed().into_cbor_value())])
        )])
    );
    assert_eq!(
        Reply::try_from_cbor_value(value),
        Ok(Reply::Call {
            id: 5,
            result: failed()
        })
    );
    assert_eq!(
        CallResult::try_from_cbor_value(dict(vec![(
            "fail",
            dict(vec![("code", Value::Unsigned(1 << 32)), ("module", text("m"))])
        )])),
        Err(DecodeError::UnexpectedIntegerSize)
    );
    assert_eq!(
        CallResult::try_from_cbor_value(dict(vec![("failed", Value::Unsigned(1))])),
        Err(DecodeError::UnknownField)
    );
    assert_eq!(
        Reply::try_from_cbor_value(dict(vec![("call", dict(vec![("id", Value::Unsigned(5))]))])),
        Err(DecodeError::MissingField)
    );
}

#[test]
fn call_result_of_the_dispatcher_becomes_that_of_the_contract() {
    let result: CallResult =
        contracts::transaction::CallResult::Success(Value::Unsigned(1)).into();
    assert_eq!(result, CallResult::Success(Value::Unsigned(1)));
    let result: CallResult = contracts::transaction::CallResult::Failed {
        module: "core".to_string(),
        code: 12,
    }
    .into();
    assert_eq!(
        result,
        CallResult::Failed {
            module: "core".to_string(),
            code: 12
        }
    );
}

#[test]
fn execution_results_round_trip() {
    let result = || ExecutionOk {
        data: b"data".to_vec(),
        messages: vec![sample_message(None), sample_message(Some(7))],
    };
    let value = result().into_cbor_value();
    assert_eq!(
        value,
        dict(vec![
            ("data", Value::ByteString(b"data".to_vec())),
            (
                "messages",
                Value::Array(vec![
                    sample_message(None).into_cbor_value(),
                    sample_message(Some(7)).into_cbor_value()
                ])
            ),
        ])
    );
    assert_eq!(ExecutionOk::try_from_cbor_value(value), Ok(result()));
    let empty = ExecutionOk {
        data: vec![],
        messages: vec![],
    };
    assert_eq!(
        ExecutionOk::try_from_cbor_value(dict(vec![
            ("data", Value::ByteString(vec![])),
            ("messages", Value::Array(vec![]))
        ])),
        Ok(empty)
    );
    assert_eq!(
        ExecutionOk::try_from_cbor_value(dict(vec![
            ("data", Value::ByteString(vec![])),
            ("messages", Value::Array(vec![text("call")]))
        ])),
        Err(DecodeError::UnknownField)
    );
    assert_eq!(
        ExecutionOk::try_from_cbor_value(dict(vec![("data", Value::ByteString(vec![]))])),
        Err(DecodeError::MissingField)
    );
}

#[test]
fn results_of_executions_are_read() {
    let value = dict(vec![(
        "ok",
        dict(vec![
            ("data", Value::ByteString(b"d".to_vec())),
            ("messages", Value::Array(vec![])),
        ]),
    )]);
    assert_eq!(
        ExecutionResult::try_from_cbor_value(value),
        Ok(ExecutionResult::Success(ExecutionOk {
            data: b"d".to_vec(),
            messages: vec![]
        }))
    );
    let value = dict(vec![(
        "fail",
        dict(vec![
            ("code", Value::Unsigned(1)),
            ("module", text("contracts.1")),
            ("message", text("bad request")),
        ]),
    )]);
    assert_eq!(
        ExecutionResult::try_from_cbor_value(value),
        Ok(ExecutionResult::Failed {
            module: "contracts.1".to_string(),
            code: 1,
            message: "bad request".to_string()
        })
    );
    assert_eq!(
        ExecutionResult::try_from_cbor_value(text("instantiate")),
        Err(DecodeError::UnknownField)
    );
}

#[test]
fn amounts_are_written_without_leading_zeros() {
    assert_eq!(amount_value(0), Value::ByteString(vec![]));
    assert_eq!(amount_value(1), Value::ByteString(vec![1]));
    assert_eq!(amount_value(1_000_000), Value::ByteString(vec![0x0f, 0x42, 0x40]));
    assert_eq!(amount_value(u128::MAX), Value::ByteString(vec![0xff; 16]));
    for amount in [0u128, 1, 255, 256, 1_000_000, 1 << 64, u128::MAX] {
        assert_eq!(take_amount(amount_value(amount)), Ok(amount));
    }
    // Leading zeros are read, but not written.
    assert_eq!(take_amount(Value::ByteString(vec![0, 0, 1])), Ok(1));
    assert_eq!(take_amount(Value::ByteString(vec![0; 16])), Ok(0));
    assert_eq!(
        take_amount(Value::ByteString(vec![0; 17])),
        Err(DecodeError::UnexpectedIntegerSize)
    );
    assert_eq!(
        take_amount(Value::Unsigned(1)),
        Err(DecodeError::UnexpectedType)
    );
}

#[test]
fn token_amounts_are_read_from_arrays() {
    let value = Value::Array(vec![
        Value::ByteString(vec![3, 0xe8]),
        Value::ByteString(b"den1".to_vec()),
    ]);
    assert_eq!(
        take_base_units(value),
        Ok(BaseUnits::new(1_000, Denomination::from_bytes(b"den1")))
    );
    assert_eq!(
        take_base_units(Value::Array(vec![])),
        Err(DecodeError::MissingField)
    );
    assert_eq!(
        take_base_units(Value::Array(vec![Value::ByteString(vec![1])])),
        Err(DecodeError::MissingField)
    );
    assert_eq!(
        take_base_units(Value::Array(vec![
            Value::ByteString(vec![1]),
            Value::ByteString(vec![]),
            Value::ByteString(vec![])
        ])),
        Err(DecodeError::UnknownField)
    );
    assert_eq!(
        take_base_units(Value::ByteString(vec![1])),
        Err(DecodeError::UnexpectedType)
    );
}

#[test]
fn bodies_of_calls_are_read() {
    let tokens = Value::Array(vec![Value::Array(vec![
        Value::ByteString(vec![5]),
        Value::ByteString(vec![]),
    ])]);
    let value = dict(vec![
        ("abi", Value::Unsigned(1)),
        ("code", Value::ByteString(b"wasm".to_vec())),
        ("instantiate_policy", text("any")),
    ]);
    assert_eq!(
        Upload::try_from_cbor_value(value),
        Ok(Upload {
            abi: ABI::OasisV1,
            instantiate_policy: Policy::Everyone,
            code: b"wasm".to_vec()
        })
    );
    let value = dict(vec![
        ("data", Value::ByteString(b"args".to_vec())),
        ("tokens", Value::Array(vec![])),
        ("code_id", Value::Unsigned(2)),
        ("upgrades_policy", text("nobody")),
    ]);
    assert_eq!(
        Instantiate::try_from_cbor_value(value),
        Ok(Instantiate {
            code_id: CodeId(2),
            upgrades_policy: Policy::Nobody,
            data: b"args".to_vec(),
            tokens: vec![]
        })
    );
    let value = dict(vec![
        ("id", Value::Unsigned(4)),
        ("data", Value::ByteString(b"args".to_vec())),
        ("tokens", tokens),
    ]);
    assert_eq!(
        Call::try_from_cbor_value(value),
        Ok(Call {
            id: InstanceId(4),
            data: b"args".to_vec(),
            tokens: vec![BaseUnits::new(5, Denomination::native())]
        })
    );
    let value = dict(vec![
        ("id", Value::Unsigned(4)),
        ("data", Value::ByteString(vec![])),
        ("tokens", Value::Array(vec![])),
        ("code_id", Value::Unsigned(6)),
    ]);
    assert_eq!(
        Upgrade::try_from_cbor_value(value),
        Ok(Upgrade {
            id: InstanceId(4),
            code_id: CodeId(6),
            data: vec![],
            tokens: vec![]
        })
    );
    assert_eq!(
        Call::try_from_cbor_value(text("instantiate")),
        Err(DecodeError::UnexpectedType)
    );
    assert_eq!(
        Upload::try_from_cbor_value(dict(vec![("abi", Value::Unsigned(2))])),
        Err(DecodeError::UnknownField)
    );
}

#[test]
fn queries_are_read() {
    let by_id = || dict(vec![("id", Value::Unsigned(8))]);
    assert_eq!(CodeQuery::try_from_cbor_value(by_id()), Ok(CodeQuery { id: CodeId(8) }));
    assert_eq!(
        InstanceQuery::try_from_cbor_value(by_id()),
        Ok(InstanceQuery { id: InstanceId(8) })
    );
    assert_eq!(
        InstanceStorageQuery::try_from_cbor_value(dict(vec![
            ("id", Value::Unsigned(8)),
            ("key", Value::ByteString(b"k".to_vec()))
        ])),
        Ok(InstanceStorageQuery {
            id: InstanceId(8),
            key: b"k".to_vec()
        })
    );
    assert_eq!(
        PublicKeyQuery::try_from_cbor_value(dict(vec![
            ("id", Value::Unsigned(8)),
            ("kind", text("tx"))
        ])),
        Ok(PublicKeyQuery {
            id: InstanceId(8),
            kind: PublicKeyKind::Transaction
        })
    );
    assert_eq!(
        PublicKeyQuery::try_from_cbor_value(dict(vec![
            ("id", Value::Unsigned(8)),
            ("kind", text("rx"))
        ])),
        Err(DecodeError::UnknownField)
    );
    assert_eq!(
        CustomQuery::try_from_cbor_value(dict(vec![
            ("id", Value::Unsigned(8)),
            ("data", Value::ByteString(vec![1])),
            ("method", text("m"))
        ])),
        Ok(CustomQuery {
            id: InstanceId(8),
            method: "m".to_string(),
            data: vec![1]
        })
    );
    assert_eq!(
        CodeQuery::try_from_cbor_value(Value::Dict(vec![])),
        Err(DecodeError::MissingField)
    );
    assert_eq!(
        CodeQuery::try_from_cbor_value(dict(vec![
            ("id", Value::Unsigned(8)),
            ("key", Value::ByteString(vec![]))
        ])),
        Err(DecodeError::UnknownField)
    );
}

#[test]
fn results_of_calls_are_written() {
    assert_eq!(
        UploadResult { id: CodeId(1) }.into_cbor_value(),
        dict(vec![("id", Value::Unsigned(1))])
    );
    assert_eq!(
        InstantiateResult { id: InstanceId(2) }.into_cbor_value(),
        dict(vec![("id", Value::Unsigned(2))])
    );
    assert_eq!(
        contracts::types::CallResult(b"out".to_vec()).into_cbor_value(),
        Value::ByteString(b"out".to_vec())
    );
}

#[test]
fn envelopes_are_written_in_canonical_order() {
    let envelope = Envelope {
        caller: wire_address(),
        instance: InstanceId(3),
        tokens_received: vec![BaseUnits::new(1_000, Denomination::from_bytes(b"den1"))],
        payload: Payload::Request(b"args".to_vec()),
    };
    let tokens = Value::Array(vec![Value::Array(vec![
        Value::ByteString(vec![3, 0xe8]),
        Value::ByteString(b"den1".to_vec()),
    ])]);
    assert_eq!(
        envelope.into_cbor_value(),
        dict(vec![
            ("caller", Value::ByteString(wire_address().to_vec())),
            ("request", Value::ByteString(b"args".to_vec())),
            ("instance", Value::Unsigned(3)),
            ("tokens_received", tokens),
        ])
    );
    let reply = || Reply::Call {
        id: 1,
        result: CallResult::Success(Value::Unsigned(2)),
    };
    let envelope = Envelope {
        caller: wire_address(),
        instance: InstanceId(3),
        tokens_received: vec![],
        payload: Payload::Reply(reply()),
    };
    assert_eq!(
        envelope.into_cbor_value(),
        dict(vec![
            ("reply", reply().into_cbor_value()),
            ("caller", Value::ByteString(wire_address().to_vec())),
            ("instance", Value::Unsigned(3)),
            ("tokens_received", Value::Array(vec![])),
        ])
    );
}

#[test]
fn keys_are_ordered_by_kind_length_and_bytes() {
    assert_eq!(compare_bytes(b"id", b"abi"), Order::Less);
    assert_eq!(compare_bytes(b"code_id", b"creator"), Order::Less);
    assert_eq!(compare_bytes(b"creator", b"code_id"), Order::Greater);
    assert_eq!(compare_bytes(b"hash", b"hash"), Order::Equal);
    assert_eq!(compare_bytes(b"", b""), Order::Equal);
    assert_eq!(compare_key(&text("id"), "id"), Order::Equal);
    assert_eq!(compare_key(&text("zz"), "abi"), Order::Less);
    assert_eq!(compare_key(&text("abi"), "zz"), Order::Greater);
    assert_eq!(compare_key(&Value::Unsigned(9), "a"), Order::Less);
    assert_eq!(compare_key(&Value::Negative(-9), "a"), Order::Less);
    assert_eq!(compare_key(&Value::ByteString(vec![0xff; 9]), "a"), Order::Less);
    assert_eq!(compare_key(&Value::Array(vec![]), "a"), Order::Greater);
    assert_eq!(
        compare_key(&Value::Simple(SimpleValue::NullValue), "a"),
        Order::Greater
    );
}

#[test]
fn fields_are_extracted_in_order() {
    let pairs = vec![
        (text("id"), Value::Unsigned(1)),
        (text("hash"), Value::Unsigned(2)),
    ];
    assert_eq!(
        extract_fields(pairs, &["id", "abi", "hash", "instantiate_policy"]),
        Ok(vec![
            Some(Value::Unsigned(1)),
            None,
            Some(Value::Unsigned(2)),
            None
        ])
    );
    let pairs = vec![
        (text("hash"), Value::Unsigned(2)),
        (text("id"), Value::Unsigned(1)),
    ];
    assert_eq!(
        extract_fields(pairs, &["id", "hash"]),
        Err(DecodeError::UnknownField)
    );
    assert_eq!(extract_fields(vec![], &[]), Ok(vec![]));
    assert_eq!(
        extract_fields(vec![(text("id"), Value::Unsigned(1))], &[]),
        Err(DecodeError::UnknownField)
    );
}
