//! The wire format of messages, replies and execution results.
use vstd::prelude::*;
use crate::codec::{
    array_value, canonical, decode_array, decode_fields, dict_value, field_bytes,
    field_optional_u64, field_text, field_u32, field_u64_or_zero, is_text, lemma_extract_leading,
    lemma_shorter_name_first, names_view, option_view, pairs_view, pop_field, push_field,
    required, reverse_values, tagged_value, take_array, take_field_bytes, take_field_optional_u64,
    take_field_text, take_field_u32, take_field_u64_or_zero, take_fields, take_required,
    take_tagged, untag, value_is_text, values_view, DecodeError,
};
use crate::execution::{ExecutionOk, ExecutionOkView};
use crate::message::{
    messages_view, CallResult, CallResultView, Message, MessageView, NotifyReply, Reply,
    ReplyView,
};
use crate::value::{Value, ValueView};
use crate::wire::FIELD_ID;

verus! {

/// Name under which a call message and the reply to one are written.
pub const VARIANT_CALL: &'static str = "call";

/// Name under which the result of a call that succeeded is written.
pub const VARIANT_OK: &'static str = "ok";

/// Name under which the result of a call that failed is written.
pub const VARIANT_FAIL: &'static str = "fail";

/// Name of the field that holds the body of a call.
pub const FIELD_BODY: &'static str = "body";

/// Name of the field that tells when a reply is wanted.
pub const FIELD_REPLY: &'static str = "reply";

/// Name of the field that holds the method of a call.
pub const FIELD_METHOD: &'static str = "method";

/// Name of the field that holds the gas limit of a call.
pub const FIELD_MAX_GAS: &'static str = "max_gas";

/// Name of the field that holds an error code.
pub const FIELD_CODE: &'static str = "code";

/// Name of the field that holds the module of an error.
pub const FIELD_MODULE: &'static str = "module";

/// Name of the field that holds the result of a call.
pub const FIELD_RESULT: &'static str = "result";

/// Name of the field that holds returned data.
pub const FIELD_DATA: &'static str = "data";

/// Name of the field that holds emitted messages.
pub const FIELD_MESSAGES: &'static str = "messages";

/// The names of the fields of a call message, in canonical order.
pub open spec fn call_message_fields() -> Seq<Seq<char>> {
    seq![FIELD_ID@, FIELD_BODY@, FIELD_REPLY@, FIELD_METHOD@, FIELD_MAX_GAS@]
}

/// The names of the fields of a failed call result, in canonical order.
pub open spec fn failed_fields() -> Seq<Seq<char>> {
    seq![FIELD_CODE@, FIELD_MODULE@]
}

/// The names of the fields of a reply to a call, in canonical order.
pub open spec fn call_reply_fields() -> Seq<Seq<char>> {
    seq![FIELD_ID@, FIELD_RESULT@]
}

/// The names of the fields of an execution result, in canonical order.
pub open spec fn execution_ok_fields() -> Seq<Seq<char>> {
    seq![FIELD_DATA@, FIELD_MESSAGES@]
}

/// A required field that tells when a reply is wanted.
pub open spec fn field_notify_reply(field: Option<ValueView>) -> Result<NotifyReply, DecodeError> {
    match field {
        Some(value) => NotifyReply::spec_decode(value),
        None => Err(DecodeError::MissingField),
    }
}

/// Takes a required field that tells when a reply is wanted.
pub fn take_field_notify_reply(field: Option<Value>) -> (result: Result<NotifyReply, DecodeError>)
    ensures
        result == field_notify_reply(option_view(field)),
{
    match field {
        Some(value) => NotifyReply::try_from_cbor_value(value),
        None => Err(DecodeError::MissingField),
    }
}

impl Message {
    /// The fields of a call message as they are written: the gas limit is
    /// left out where there is none.
    pub open spec fn call_pairs(
        id: u64,
        reply: NotifyReply,
        method: Seq<char>,
        body: ValueView,
        max_gas: Option<u64>,
    ) -> Seq<(ValueView, ValueView)> {
        let always = seq![
            (ValueView::TextString(FIELD_ID@), ValueView::Unsigned(id)),
            (ValueView::TextString(FIELD_BODY@), body),
            (ValueView::TextString(FIELD_REPLY@), NotifyReply::spec_encode(reply)),
            (ValueView::TextString(FIELD_METHOD@), ValueView::TextString(method)),
        ];
        match max_gas {
            Some(gas) => always.push(
                (ValueView::TextString(FIELD_MAX_GAS@), ValueView::Unsigned(gas)),
            ),
            None => always,
        }
    }

    /// How the message is written: as a map from the name of its kind to a
    /// map of its fields.
    pub open spec fn spec_encode(message: MessageView) -> ValueView {
        match message {
            MessageView::Call { id, reply, method, body, max_gas } => ValueView::Dict(
                seq![
                    (
                        ValueView::TextString(VARIANT_CALL@),
                        ValueView::Dict(Message::call_pairs(id, reply, method, body, max_gas)),
                    ),
                ],
            ),
        }
    }

    /// How the fields of a call message are read: a missing identifier
    /// stands for zero, a missing gas limit for none.
    pub open spec fn decode_call(value: ValueView) -> Result<MessageView, DecodeError> {
        match decode_fields(value, call_message_fields()) {
            Err(e) => Err(e),
            Ok(fields) => {
                let id = field_u64_or_zero(fields[0]);
                let body = required(fields[1]);
                let reply = field_notify_reply(fields[2]);
                let method = field_text(fields[3]);
                let max_gas = field_optional_u64(fields[4]);
                if id is Err {
                    Err(id->Err_0)
                } else if body is Err {
                    Err(body->Err_0)
                } else if reply is Err {
                    Err(reply->Err_0)
                } else if method is Err {
                    Err(method->Err_0)
                } else if max_gas is Err {
                    Err(max_gas->Err_0)
                } else {
                    Ok(
                        MessageView::Call {
                            id: id->Ok_0,
                            reply: reply->Ok_0,
                            method: method->Ok_0,
                            body: body->Ok_0,
                            max_gas: max_gas->Ok_0,
                        },
                    )
                }
            },
        }
    }

    /// How the message is read.
    pub open spec fn spec_decode(value: ValueView) -> Result<MessageView, DecodeError> {
        match untag(value) {
            Err(e) => Err(e),
            Ok(pair) => if is_text(pair.0, VARIANT_CALL@) {
                Message::decode_call(pair.1)
            } else {
                Err(DecodeError::UnknownField)
            },
        }
    }

    /// Writes the message.
    pub fn into_cbor_value(self) -> (value: Value)
        ensures
            value@ == Message::spec_encode(self@),
    {
        match self {
            Message::Call { id, reply, method, body, max_gas } => {
                let mut pairs: Vec<(Value, Value)> = Vec::new();
                push_field(&mut pairs, FIELD_ID, Value::Unsigned(id));
                push_field(&mut pairs, FIELD_BODY, body);
                push_field(&mut pairs, FIELD_REPLY, reply.into_cbor_value());
                push_field(&mut pairs, FIELD_METHOD, Value::TextString(method));
                match max_gas {
                    Some(gas) => {
                        push_field(&mut pairs, FIELD_MAX_GAS, Value::Unsigned(gas));
                    },
                    None => {},
                }
                assert(pairs_view(pairs@) =~= Message::call_pairs(
                    id,
                    reply,
                    method@,
                    body@,
                    max_gas,
                ));
                tagged_value(VARIANT_CALL, dict_value(pairs))
            },
        }
    }

    /// Reads a message.
    pub fn try_from_cbor_value(value: Value) -> (result: Result<Message, DecodeError>)
        ensures
            Message::spec_decode(value@) matches Err(e) ==> result == Err::<Message, DecodeError>(
                e,
            ),
            Message::spec_decode(value@) matches Ok(message) ==> (result matches Ok(out) && out@
                == message),
    {
        let (key, inner) = match take_tagged(value) {
            Err(e) => {
                return Err(e);
            },
            Ok(pair) => pair,
        };
        if !value_is_text(&key, VARIANT_CALL) {
            return Err(DecodeError::UnknownField);
        }
        let names = [FIELD_ID, FIELD_BODY, FIELD_REPLY, FIELD_METHOD, FIELD_MAX_GAS];
        assert(names_view(names@) =~= call_message_fields());
        let mut fields = match take_fields(inner, names.as_slice()) {
            Err(e) => {
                return Err(e);
            },
            Ok(fields) => fields,
        };
        let max_gas_field = pop_field(&mut fields);
        let method_field = pop_field(&mut fields);
        let reply_field = pop_field(&mut fields);
        let body_field = pop_field(&mut fields);
        let id_field = pop_field(&mut fields);
        let id = match take_field_u64_or_zero(id_field) {
            Err(e) => {
                return Err(e);
            },
            Ok(id) => id,
        };
        let body = match take_required(body_field) {
            Err(e) => {
                return Err(e);
            },
            Ok(body) => body,
        };
        let reply = match take_field_notify_reply(reply_field) {
            Err(e) => {
                return Err(e);
            },
            Ok(reply) => reply,
        };
        let method = match take_field_text(method_field) {
            Err(e) => {
                return Err(e);
            },
            Ok(method) => method,
        };
        let max_gas = match take_field_optional_u64(max_gas_field) {
            Err(e) => {
                return Err(e);
            },
            Ok(max_gas) => max_gas,
        };
        Ok(Message::Call { id, reply, method, body, max_gas })
    }

    /// Reading what was written gives the message back, and writing what was
    /// read from a written value gives that value back.
    pub proof fn lemma_round_trip(message: MessageView)
        ensures
            Message::spec_decode(Message::spec_encode(message)) == Ok::<MessageView, DecodeError>(
                message,
            ),
            ({
                let written = Message::spec_encode(message);
                Message::spec_encode(Message::spec_decode(written)->Ok_0) == written
            }),
    {
        match message {
            MessageView::Call { id, reply, method, body, max_gas } => {
                let pairs = Message::call_pairs(id, reply, method, body, max_gas);
                lemma_extract_leading(pairs, call_message_fields());
                NotifyReply::lemma_round_trip(reply);
            },
        }
    }
}

/// How a list of messages is read: one after the other, and the first that
/// cannot be read ends the reading.
pub open spec fn decode_messages(items: Seq<ValueView>) -> Result<Seq<MessageView>, DecodeError>
    decreases items.len(),
{
    if items.len() == 0 {
        Ok(Seq::empty())
    } else {
        match Message::spec_decode(items[0]) {
            Err(e) => Err(e),
            Ok(first) => match decode_messages(items.drop_first()) {
                Err(e) => Err(e),
                Ok(rest) => Ok(seq![first] + rest),
            },
        }
    }
}

/// How a list of messages is written.
pub open spec fn encode_messages(messages: Seq<MessageView>) -> Seq<ValueView> {
    Seq::new(messages.len(), |i: int| Message::spec_encode(messages[i]))
}

/// Reading a list of messages that was written gives the list back.
pub proof fn lemma_messages_round_trip(messages: Seq<MessageView>)
    ensures
        decode_messages(encode_messages(messages)) == Ok::<Seq<MessageView>, DecodeError>(
            messages,
        ),
    decreases messages.len(),
{
    if messages.len() == 0 {
        assert(messages =~= Seq::<MessageView>::empty());
    } else {
        Message::lemma_round_trip(messages[0]);
        lemma_messages_round_trip(messages.drop_first());
        assert(encode_messages(messages).drop_first() =~= encode_messages(
            messages.drop_first(),
        ));
        assert(seq![messages[0]] + messages.drop_first() =~= messages);
    }
}

/// Writes a list of messages.
pub fn messages_into_values(messages: Vec<Message>) -> (values: Vec<Value>)
    ensures
        values_view(values@) == encode_messages(messages_view(messages@)),
{
    let ghost all = messages_view(messages@);
    let mut rest = messages;
    let mut reversed: Vec<Value> = Vec::new();
    let n: usize = rest.len();
    let mut i: usize = 0;
    proof {
        assert(messages_view(rest@) =~= all.take(n as int));
        assert(values_view(reversed@) =~= encode_messages(all).reverse().take(0));
    }
    while i < n
        invariant
            i <= n,
            n == all.len(),
            messages_view(rest@) == all.take(n - i),
            values_view(reversed@) == encode_messages(all).reverse().take(i as int),
        decreases n - i,
    {
        let ghost rest_before = messages_view(rest@);
        let ghost reversed_before = values_view(reversed@);
        assert(rest@.len() == rest_before.len());
        let message = rest.pop().unwrap();
        assert(message@ == rest_before.last());
        let value = message.into_cbor_value();
        reversed.push(value);
        i += 1;
        proof {
            assert(messages_view(rest@) =~= all.take(n - i));
            assert(values_view(reversed@) =~= reversed_before.push(value@));
            assert(values_view(reversed@) =~= encode_messages(all).reverse().take(i as int));
        }
    }
    proof {
        assert(encode_messages(all).reverse().take(n as int) =~= encode_messages(all).reverse());
        assert(encode_messages(all).reverse().reverse() =~= encode_messages(all));
    }
    reverse_values(reversed)
}

/// Reads a list of messages.
pub fn messages_from_values(values: Vec<Value>) -> (result: Result<Vec<Message>, DecodeError>)
    ensures
        decode_messages(values_view(values@)) matches Err(e) ==> result == Err::<
            Vec<Message>,
            DecodeError,
        >(e),
        decode_messages(values_view(values@)) matches Ok(messages) ==> (result matches Ok(out)
            && messages_view(out@) == messages),
{
    let ghost all = values_view(values@);
    let mut stack = reverse_values(values);
    let mut out: Vec<Message> = Vec::new();
    let n: usize = stack.len();
    let mut i: usize = 0;
    proof {
        assert(values_view(stack@).len() == n);
        assert(all.reverse().reverse() =~= all);
        assert(values_view(stack@).reverse() =~= all.skip(0));
        assert(messages_view(out@) =~= Seq::<MessageView>::empty());
    }
    while i < n
        invariant
            i <= n,
            n == all.len(),
            all == values_view(values@),
            stack@.len() == n - i,
            values_view(stack@).reverse() == all.skip(i as int),
            decode_messages(all) == (match decode_messages(all.skip(i as int)) {
                Err(e) => Err(e),
                Ok(rest) => Ok(messages_view(out@) + rest),
            }),
        decreases n - i,
    {
        let ghost stack_before = values_view(stack@);
        let ghost out_before = messages_view(out@);
        let value = stack.pop().unwrap();
        proof {
            assert(value@ == stack_before.last());
            assert(stack_before.reverse()[0] == stack_before.last());
            assert(value@ == all.skip(i as int)[0]);
            assert(values_view(stack@) =~= stack_before.drop_last());
            assert(values_view(stack@).reverse() =~= stack_before.reverse().drop_first());
            assert(all.skip(i as int).drop_first() =~= all.skip(i + 1));
        }
        let message = match Message::try_from_cbor_value(value) {
            Err(e) => {
                return Err(e);
            },
            Ok(message) => message,
        };
        out.push(message);
        i += 1;
        proof {
            assert(messages_view(out@) =~= out_before.push(message@));
            match decode_messages(all.skip(i as int)) {
                Ok(rest) => {
                    assert(out_before + (seq![message@] + rest) =~= messages_view(out@) + rest);
                },
                Err(_) => {},
            }
        }
    }
    proof {
        assert(all.skip(n as int) =~= Seq::<ValueView>::empty());
        assert(messages_view(out@) + Seq::<MessageView>::empty() =~= messages_view(out@));
    }
    Ok(out)
}

impl CallResult {
    /// How the result is written: as a map from the name of its kind to the
    /// returned value, or to a map of the fields of the failure.
    pub open spec fn spec_encode(result: CallResultView) -> ValueView {
        match result {
            CallResultView::Success(value) => ValueView::Dict(
                seq![(ValueView::TextString(VARIANT_OK@), value)],
            ),
            CallResultView::Failed { module, code } => ValueView::Dict(
                seq![
                    (
                        ValueView::TextString(VARIANT_FAIL@),
                        ValueView::Dict(
                            seq![
                                (ValueView::TextString(FIELD_CODE@), ValueView::Unsigned(code as u64)),
                                (ValueView::TextString(FIELD_MODULE@), ValueView::TextString(module)),
                            ],
                        ),
                    ),
                ],
            ),
        }
    }

    /// How the fields of a failure are read.
    pub open spec fn decode_failed(value: ValueView) -> Result<CallResultView, DecodeError> {
        match decode_fields(value, failed_fields()) {
            Err(e) => Err(e),
            Ok(fields) => {
                let code = field_u32(fields[0]);
                let module = field_text(fields[1]);
                if code is Err {
                    Err(code->Err_0)
                } else if module is Err {
                    Err(module->Err_0)
                } else {
                    Ok(CallResultView::Failed { module: module->Ok_0, code: code->Ok_0 })
                }
            },
        }
    }

    /// How the result is read.
    pub open spec fn spec_decode(value: ValueView) -> Result<CallResultView, DecodeError> {
        match untag(value) {
            Err(e) => Err(e),
            Ok(pair) => if is_text(pair.0, VARIANT_OK@) {
                Ok(CallResultView::Success(pair.1))
            } else if is_text(pair.0, VARIANT_FAIL@) {
                CallResult::decode_failed(pair.1)
            } else {
                Err(DecodeError::UnknownField)
            },
        }
    }

    /// Writes the result.
    pub fn into_cbor_value(self) -> (value: Value)
        ensures
            value@ == CallResult::spec_encode(self@),
    {
        match self {
            CallResult::Success(value) => tagged_value(VARIANT_OK, value),
            CallResult::Failed { module, code } => {
                let mut pairs: Vec<(Value, Value)> = Vec::new();
                push_field(&mut pairs, FIELD_CODE, Value::Unsigned(code as u64));
                push_field(&mut pairs, FIELD_MODULE, Value::TextString(module));
                assert(pairs_view(pairs@) =~= seq![
                    (ValueView::TextString(FIELD_CODE@), ValueView::Unsigned(code as u64)),
                    (ValueView::TextString(FIELD_MODULE@), ValueView::TextString(module@)),
                ]);
                tagged_value(VARIANT_FAIL, dict_value(pairs))
            },
        }
    }

    /// Reads a result.
    pub fn try_from_cbor_value(value: Value) -> (result: Result<CallResult, DecodeError>)
        ensures
            CallResult::spec_decode(value@) matches Err(e) ==> result == Err::<
                CallResult,
                DecodeError,
            >(e),
            CallResult::spec_decode(value@) matches Ok(decoded) ==> (result matches Ok(out)
                && out@ == decoded),
    {
        let (key, inner) = match take_tagged(value) {
            Err(e) => {
                return Err(e);
            },
            Ok(pair) => pair,
        };
        if value_is_text(&key, VARIANT_OK) {
            return Ok(CallResult::Success(inner));
        }
        if !value_is_text(&key, VARIANT_FAIL) {
            return Err(DecodeError::UnknownField);
        }
        let names = [FIELD_CODE, FIELD_MODULE];
        assert(names_view(names@) =~= failed_fields());
        let mut fields = match take_fields(inner, names.as_slice()) {
            Err(e) => {
                return Err(e);
            },
            Ok(fields) => fields,
        };
        let module_field = pop_field(&mut fields);
        let code_field = pop_field(&mut fields);
        let code = match take_field_u32(code_field) {
            Err(e) => {
                return Err(e);
            },
            Ok(code) => code,
        };
        let module = match take_field_text(module_field) {
            Err(e) => {
                return Err(e);
            },
            Ok(module) => module,
        };
        Ok(CallResult::Failed { module, code })
    }

    /// Reading what was written gives the result back, and writing what was
    /// read from a written value gives that value back.
    pub proof fn lemma_round_trip(result: CallResultView)
        ensures
            CallResult::spec_decode(CallResult::spec_encode(result)) == Ok::<
                CallResultView,
                DecodeError,
            >(result),
            ({
                let written = CallResult::spec_encode(result);
                CallResult::spec_encode(CallResult::spec_decode(written)->Ok_0) == written
            }),
    {
        reveal_strlit("ok");
        reveal_strlit("fail");
        match result {
            CallResultView::Success(_) => {},
            CallResultView::Failed { module, code } => {
                assert(VARIANT_OK@.len() != VARIANT_FAIL@.len());
                let pairs = seq![
                    (ValueView::TextString(FIELD_CODE@), ValueView::Unsigned(code as u64)),
                    (ValueView::TextString(FIELD_MODULE@), ValueView::TextString(module)),
                ];
                lemma_extract_leading(pairs, failed_fields());
            },
        }
    }
}

/// A required field that holds the result of a call.
pub open spec fn field_call_result(field: Option<ValueView>) -> Result<CallResultView, DecodeError> {
    match field {
        Some(value) => CallResult::spec_decode(value),
        None => Err(DecodeError::MissingField),
    }
}

impl Reply {
    /// How the reply is written: as a map from the name of its kind to a
    /// map of its fields.
    pub open spec fn spec_encode(reply: ReplyView) -> ValueView {
        match reply {
            ReplyView::Call { id, result } => ValueView::Dict(
                seq![
                    (
                        ValueView::TextString(VARIANT_CALL@),
                        ValueView::Dict(
                            seq![
                                (ValueView::TextString(FIELD_ID@), ValueView::Unsigned(id)),
                                (
                                    ValueView::TextString(FIELD_RESULT@),
                                    CallResult::spec_encode(result),
                                ),
                            ],
                        ),
                    ),
                ],
            ),
        }
    }

    /// How the fields of a reply to a call are read: a missing identifier
    /// stands for zero.
    pub open spec fn decode_call(value: ValueView) -> Result<ReplyView, DecodeError> {
        match decode_fields(value, call_reply_fields()) {
            Err(e) => Err(e),
            Ok(fields) => {
                let id = field_u64_or_zero(fields[0]);
                let result = field_call_result(fields[1]);
                if id is Err {
                    Err(id->Err_0)
                } else if result is Err {
                    Err(result->Err_0)
                } else {
                    Ok(ReplyView::Call { id: id->Ok_0, result: result->Ok_0 })
                }
            },
        }
    }

    /// How the reply is read.
    pub open spec fn spec_decode(value: ValueView) -> Result<ReplyView, DecodeError> {
        match untag(value) {
            Err(e) => Err(e),
            Ok(pair) => if is_text(pair.0, VARIANT_CALL@) {
                Reply::decode_call(pair.1)
            } else {
                Err(DecodeError::UnknownField)
            },
        }
    }

    /// Writes the reply.
    pub fn into_cbor_value(self) -> (value: Value)
        ensures
            value@ == Reply::spec_encode(self@),
    {
        match self {
            Reply::Call { id, result } => {
                let mut pairs: Vec<(Value, Value)> = Vec::new();
                push_field(&mut pairs, FIELD_ID, Value::Unsigned(id));
                push_field(&mut pairs, FIELD_RESULT, result.into_cbor_value());
                assert(pairs_view(pairs@) =~= seq![
                    (ValueView::TextString(FIELD_ID@), ValueView::Unsigned(id)),
                    (ValueView::TextString(FIELD_RESULT@), CallResult::spec_encode(result@)),
                ]);
                tagged_value(VARIANT_CALL, dict_value(pairs))
            },
        }
    }

    /// Reads a reply.
    pub fn try_from_cbor_value(value: Value) -> (result: Result<Reply, DecodeError>)
        ensures
            Reply::spec_decode(value@) matches Err(e) ==> result == Err::<Reply, DecodeError>(e),
            Reply::spec_decode(value@) matches Ok(reply) ==> (result matches Ok(out) && out@
                == reply),
    {
        let (key, inner) = match take_tagged(value) {
            Err(e) => {
                return Err(e);
            },
            Ok(pair) => pair,
        };
        if !value_is_text(&key, VARIANT_CALL) {
            return Err(DecodeError::UnknownField);
        }
        let names = [FIELD_ID, FIELD_RESULT];
        assert(names_view(names@) =~= call_reply_fields());
        let mut fields = match take_fields(inner, names.as_slice()) {
            Err(e) => {
                return Err(e);
            },
            Ok(fields) => fields,
        };
        let result_field = pop_field(&mut fields);
        let id_field = pop_field(&mut fields);
        let id = match take_field_u64_or_zero(id_field) {
            Err(e) => {
                return Err(e);
            },
            Ok(id) => id,
        };
        let result = match result_field {
            None => {
                return Err(DecodeError::MissingField);
            },
            Some(value) => match CallResult::try_from_cbor_value(value) {
                Err(e) => {
                    return Err(e);
                },
                Ok(result) => result,
            },
        };
        Ok(Reply::Call { id, result })
    }

    /// Reading what was written gives the reply back, and writing what was
    /// read from a written value gives that value back.
    pub proof fn lemma_round_trip(reply: ReplyView)
        ensures
            Reply::spec_decode(Reply::spec_encode(reply)) == Ok::<ReplyView, DecodeError>(reply),
            ({
                let written = Reply::spec_encode(reply);
                Reply::spec_encode(Reply::spec_decode(written)->Ok_0) == written
            }),
    {
        match reply {
            ReplyView::Call { id, result } => {
                let pairs = seq![
                    (ValueView::TextString(FIELD_ID@), ValueView::Unsigned(id)),
                    (ValueView::TextString(FIELD_RESULT@), CallResult::spec_encode(result)),
                ];
                lemma_extract_leading(pairs, call_reply_fields());
                CallResult::lemma_round_trip(result);
            },
        }
    }
}

/// A required field that holds a list of messages.
pub open spec fn field_messages(field: Option<ValueView>) -> Result<Seq<MessageView>, DecodeError> {
    match field {
        Some(value) => match decode_array(value) {
            Err(e) => Err(e),
            Ok(items) => decode_messages(items),
        },
        None => Err(DecodeError::MissingField),
    }
}

impl ExecutionOk {
    /// How the result is written: as a map of its fields, the messages as
    /// an array.
    pub open spec fn spec_encode(result: ExecutionOkView) -> ValueView {
        ValueView::Dict(
            seq![
                (ValueView::TextString(FIELD_DATA@), ValueView::ByteString(result.data)),
                (
                    ValueView::TextString(FIELD_MESSAGES@),
                    ValueView::Array(encode_messages(result.messages)),
                ),
            ],
        )
    }

    /// How the result is read.
    pub open spec fn spec_decode(value: ValueView) -> Result<ExecutionOkView, DecodeError> {
        match decode_fields(value, execution_ok_fields()) {
            Err(e) => Err(e),
            Ok(fields) => {
                let data = field_bytes(fields[0]);
                let messages = field_messages(fields[1]);
                if data is Err {
                    Err(data->Err_0)
                } else if messages is Err {
                    Err(messages->Err_0)
                } else {
                    Ok(ExecutionOkView { data: data->Ok_0, messages: messages->Ok_0 })
                }
            },
        }
    }

    /// Writes the result.
    pub fn into_cbor_value(self) -> (value: Value)
        ensures
            value@ == ExecutionOk::spec_encode(self@),
    {
        let ExecutionOk { data, messages } = self;
        let mut pairs: Vec<(Value, Value)> = Vec::new();
        push_field(&mut pairs, FIELD_DATA, Value::ByteString(data));
        push_field(&mut pairs, FIELD_MESSAGES, array_value(messages_into_values(messages)));
        assert(pairs_view(pairs@) =~= ExecutionOk::spec_encode(self@)->Dict_0);
        dict_value(pairs)
    }

    /// Reads a result.
    pub fn try_from_cbor_value(value: Value) -> (result: Result<ExecutionOk, DecodeError>)
        ensures
            ExecutionOk::spec_decode(value@) matches Err(e) ==> result == Err::<
                ExecutionOk,
                DecodeError,
            >(e),
            ExecutionOk::spec_decode(value@) matches Ok(decoded) ==> (result matches Ok(out)
                && out@ == decoded),
    {
        let names = [FIELD_DATA, FIELD_MESSAGES];
        assert(names_view(names@) =~= execution_ok_fields());
        let mut fields = match take_fields(value, names.as_slice()) {
            Err(e) => {
                return Err(e);
            },
            Ok(fields) => fields,
        };
        let messages_field = pop_field(&mut fields);
        let data_field = pop_field(&mut fields);
        let data = match take_field_bytes(data_field) {
            Err(e) => {
                return Err(e);
            },
            Ok(data) => data,
        };
        let items = match messages_field {
            None => {
                return Err(DecodeError::MissingField);
            },
            Some(value) => match take_array(value) {
                Err(e) => {
                    return Err(e);
                },
                Ok(items) => items,
            },
        };
        let messages = match messages_from_values(items) {
            Err(e) => {
                return Err(e);
            },
            Ok(messages) => messages,
        };
        Ok(ExecutionOk { data, messages })
    }

    /// Reading what was written gives the result back, and writing what was
    /// read from a written value gives that value back.
    pub proof fn lemma_round_trip(result: ExecutionOkView)
        ensures
            ExecutionOk::spec_decode(ExecutionOk::spec_encode(result)) == Ok::<
                ExecutionOkView,
                DecodeError,
            >(result),
            ({
                let written = ExecutionOk::spec_encode(result);
                ExecutionOk::spec_encode(ExecutionOk::spec_decode(written)->Ok_0) == written
            }),
    {
        let pairs = ExecutionOk::spec_encode(result)->Dict_0;
        lemma_extract_leading(pairs, execution_ok_fields());
        lemma_messages_round_trip(result.messages);
    }
}

/// Name of the field that holds the message of an error.
pub const FIELD_MESSAGE: &'static str = "message";

/// The names of the fields of a failed execution, in canonical order.
pub open spec fn failed_execution_fields() -> Seq<Seq<char>> {
    seq![FIELD_CODE@, FIELD_MODULE@, FIELD_MESSAGE@]
}

impl crate::execution::ExecutionResult {
    /// How the fields of a failed execution are read.
    pub open spec fn decode_failed(value: ValueView) -> Result<
        crate::execution::ExecutionResultView,
        DecodeError,
    > {
        match decode_fields(value, failed_execution_fields()) {
            Err(e) => Err(e),
            Ok(fields) => {
                let code = field_u32(fields[0]);
                let module = field_text(fields[1]);
                let message = field_text(fields[2]);
                if code is Err {
                    Err(code->Err_0)
                } else if module is Err {
                    Err(module->Err_0)
                } else if message is Err {
                    Err(message->Err_0)
                } else {
                    Ok(
                        crate::execution::ExecutionResultView::Failed {
                            module: module->Ok_0,
                            code: code->Ok_0,
                            message: message->Ok_0,
                        },
                    )
                }
            },
        }
    }

    /// How the result of an execution is read: a map from the name of its
    /// kind to what the contract returned, or to the fields of its failure.
    pub open spec fn spec_decode(value: ValueView) -> Result<
        crate::execution::ExecutionResultView,
        DecodeError,
    > {
        match untag(value) {
            Err(e) => Err(e),
            Ok(pair) => if is_text(pair.0, VARIANT_OK@) {
                match ExecutionOk::spec_decode(pair.1) {
                    Err(e) => Err(e),
                    Ok(ok) => Ok(crate::execution::ExecutionResultView::Success(ok)),
                }
            } else if is_text(pair.0, VARIANT_FAIL@) {
                crate::execution::ExecutionResult::decode_failed(pair.1)
            } else {
                Err(DecodeError::UnknownField)
            },
        }
    }

    /// Reads the result of an execution.
    pub fn try_from_cbor_value(value: Value) -> (result: Result<
        crate::execution::ExecutionResult,
        DecodeError,
    >)
        ensures
            crate::execution::ExecutionResult::spec_decode(value@) matches Err(e) ==> result
                == Err::<crate::execution::ExecutionResult, DecodeError>(e),
            crate::execution::ExecutionResult::spec_decode(value@) matches Ok(decoded) ==> (
            result matches Ok(out) && out@ == decoded),
    {
        let (key, inner) = match take_tagged(value) {
            Err(e) => {
                return Err(e);
            },
            Ok(pair) => pair,
        };
        if value_is_text(&key, VARIANT_OK) {
            return match ExecutionOk::try_from_cbor_value(inner) {
                Err(e) => Err(e),
                Ok(ok) => Ok(crate::execution::ExecutionResult::Success(ok)),
            };
        }
        if !value_is_text(&key, VARIANT_FAIL) {
            return Err(DecodeError::UnknownField);
        }
        let names = [FIELD_CODE, FIELD_MODULE, FIELD_MESSAGE];
        assert(names_view(names@) =~= failed_execution_fields());
        let mut fields = match take_fields(inner, names.as_slice()) {
            Err(e) => {
                return Err(e);
            },
            Ok(fields) => fields,
        };
        let message_field = pop_field(&mut fields);
        let module_field = pop_field(&mut fields);
        let code_field = pop_field(&mut fields);
        let code = match take_field_u32(code_field) {
            Err(e) => {
                return Err(e);
            },
            Ok(code) => code,
        };
        let module = match take_field_text(module_field) {
            Err(e) => {
                return Err(e);
            },
            Ok(module) => module,
        };
        let message = match take_field_text(message_field) {
            Err(e) => {
                return Err(e);
            },
            Ok(message) => message,
        };
        Ok(crate::execution::ExecutionResult::Failed { module, code, message })
    }
}

/// The fields of messages, replies and execution results are written in the
/// canonical order of their names.
pub proof fn lemma_message_fields_canonical()
    ensures
        canonical(call_message_fields()),
        canonical(failed_fields()),
        canonical(call_reply_fields()),
        canonical(execution_ok_fields()),
        canonical(failed_execution_fields()),
{
    reveal_strlit("id");
    reveal_strlit("body");
    reveal_strlit("reply");
    reveal_strlit("method");
    reveal_strlit("max_gas");
    reveal_strlit("code");
    reveal_strlit("module");
    reveal_strlit("message");
    reveal_strlit("result");
    reveal_strlit("data");
    reveal_strlit("messages");
    lemma_shorter_name_first(FIELD_ID, FIELD_BODY);
    lemma_shorter_name_first(FIELD_BODY, FIELD_REPLY);
    lemma_shorter_name_first(FIELD_REPLY, FIELD_METHOD);
    lemma_shorter_name_first(FIELD_METHOD, FIELD_MAX_GAS);
    lemma_shorter_name_first(FIELD_CODE, FIELD_MODULE);
    lemma_shorter_name_first(FIELD_MODULE, FIELD_MESSAGE);
    lemma_shorter_name_first(FIELD_ID, FIELD_RESULT);
    lemma_shorter_name_first(FIELD_DATA, FIELD_MESSAGES);
}

/// The result of a call that is read from a value is written as that value.
pub proof fn lemma_call_result_written_back(value: ValueView)
    requires
        CallResult::spec_decode(value) is Ok,
    ensures
        CallResult::spec_encode(CallResult::spec_decode(value)->Ok_0) == value,
{
    let outer = value->Dict_0;
    assert(outer =~= seq![outer[0]]);
    if !is_text(outer[0].0, VARIANT_OK@) {
        let pairs = outer[0].1->Dict_0;
        let fields = crate::codec::extract(pairs, failed_fields())->Ok_0;
        crate::codec::lemma_extract_written(pairs, failed_fields());
        crate::codec::lemma_written_leading(failed_fields(), fields, 2);
        let written_back = CallResult::spec_encode(CallResult::spec_decode(value)->Ok_0);
        assert(written_back->Dict_0[0].1->Dict_0 =~= pairs);
    }
}

impl Message {
    /// Whether a value that a message can be read from is written as
    /// messages are written: with the identifier, and without a gas limit
    /// where there is none.
    pub open spec fn is_canonical(value: ValueView) -> bool {
        match untag(value) {
            Ok(pair) => match decode_fields(pair.1, call_message_fields()) {
                Ok(fields) => fields[0] is Some && fields[4] != Some(
                    ValueView::Simple(crate::value::SimpleValue::NullValue),
                ),
                Err(_) => false,
            },
            Err(_) => false,
        }
    }
}

impl Reply {
    /// Whether a value that a reply can be read from is written as replies
    /// are written: with the identifier.
    pub open spec fn is_canonical(value: ValueView) -> bool {
        match untag(value) {
            Ok(pair) => match decode_fields(pair.1, call_reply_fields()) {
                Ok(fields) => fields[0] is Some,
                Err(_) => false,
            },
            Err(_) => false,
        }
    }
}

impl ExecutionOk {
    /// Whether a value that an execution result can be read from is written
    /// as execution results are written: with messages that are.
    pub open spec fn is_canonical(value: ValueView) -> bool {
        match decode_fields(value, execution_ok_fields()) {
            Ok(fields) => match fields[1] {
                Some(ValueView::Array(items)) => forall|i: int|
                    0 <= i < items.len() ==> Message::is_canonical(#[trigger] items[i]),
                _ => false,
            },
            Err(_) => false,
        }
    }
}

/// A message that is read from a value that is written as messages are
/// written is written as that value.
pub proof fn lemma_message_written_back(value: ValueView)
    requires
        Message::spec_decode(value) is Ok,
        Message::is_canonical(value),
    ensures
        Message::spec_encode(Message::spec_decode(value)->Ok_0) == value,
{
    let outer = value->Dict_0;
    assert(outer =~= seq![outer[0]]);
    let pairs = outer[0].1->Dict_0;
    let fields = crate::codec::extract(pairs, call_message_fields())->Ok_0;
    crate::codec::lemma_extract_written(pairs, call_message_fields());
    crate::wire::lemma_numbers_written_back(fields[2]->Some_0);
    if fields[4] is Some {
        crate::codec::lemma_written_leading(call_message_fields(), fields, 5);
    } else {
        crate::codec::lemma_written_leading(call_message_fields(), fields, 4);
    }
    let written_back = Message::spec_encode(Message::spec_decode(value)->Ok_0);
    assert(written_back->Dict_0[0].1->Dict_0 =~= pairs);
}

/// A reply that is read from a value that is written as replies are written
/// is written as that value.
pub proof fn lemma_reply_written_back(value: ValueView)
    requires
        Reply::spec_decode(value) is Ok,
        Reply::is_canonical(value),
    ensures
        Reply::spec_encode(Reply::spec_decode(value)->Ok_0) == value,
{
    let outer = value->Dict_0;
    assert(outer =~= seq![outer[0]]);
    let pairs = outer[0].1->Dict_0;
    let fields = crate::codec::extract(pairs, call_reply_fields())->Ok_0;
    crate::codec::lemma_extract_written(pairs, call_reply_fields());
    crate::codec::lemma_written_leading(call_reply_fields(), fields, 2);
    lemma_call_result_written_back(fields[1]->Some_0);
    let written_back = Reply::spec_encode(Reply::spec_decode(value)->Ok_0);
    assert(written_back->Dict_0[0].1->Dict_0 =~= pairs);
}

/// Messages that are read from values that are written as messages are
/// written are written as those values.
pub proof fn lemma_messages_written_back(items: Seq<ValueView>)
    requires
        decode_messages(items) is Ok,
        forall|i: int| 0 <= i < items.len() ==> Message::is_canonical(#[trigger] items[i]),
    ensures
        encode_messages(decode_messages(items)->Ok_0) == items,
    decreases items.len(),
{
    if items.len() == 0 {
        assert(encode_messages(decode_messages(items)->Ok_0) =~= items);
    } else {
        lemma_message_written_back(items[0]);
        assert forall|i: int| 0 <= i < items.drop_first().len() implies Message::is_canonical(
            #[trigger] items.drop_first()[i],
        ) by {
            assert(items.drop_first()[i] == items[i + 1]);
        }
        lemma_messages_written_back(items.drop_first());
        let first = Message::spec_decode(items[0])->Ok_0;
        let rest = decode_messages(items.drop_first())->Ok_0;
        assert(encode_messages(seq![first] + rest) =~= seq![Message::spec_encode(first)]
            + encode_messages(rest));
        assert(items =~= seq![items[0]] + items.drop_first());
    }
}

/// An execution result that is read from a value that is written as
/// execution results are written is written as that value.
pub proof fn lemma_execution_ok_written_back(value: ValueView)
    requires
        ExecutionOk::spec_decode(value) is Ok,
        ExecutionOk::is_canonical(value),
    ensures
        ExecutionOk::spec_encode(ExecutionOk::spec_decode(value)->Ok_0) == value,
{
    let pairs = value->Dict_0;
    let fields = crate::codec::extract(pairs, execution_ok_fields())->Ok_0;
    crate::codec::lemma_extract_written(pairs, execution_ok_fields());
    crate::codec::lemma_written_leading(execution_ok_fields(), fields, 2);
    lemma_messages_written_back(fields[1]->Some_0->Array_0);
    assert(ExecutionOk::spec_encode(ExecutionOk::spec_decode(value)->Ok_0)->Dict_0 =~= pairs);
}

} // verus!
