use contracts::address::Address;
use contracts::context::{Context, Tag};
use contracts::execution::ExecutionOk;
use contracts::message::{Message, NotifyReply, Reply};
use contracts::state::{State, StoreKind};
use contracts::subcalls::{process_execution_result, ChildCall, PendingCall, PendingReply, Step};
use contracts::transaction::CallResult;
use contracts::types::{CodeId, Instance, InstanceId, Policy, ABI};
use contracts::value::Value;
use contracts::wasm::Contract;
use contracts::{CoreError, Error, GasCosts, Parameters};

fn caller() -> Address {
    Address::from_module_raw("keys", b"alice")
}

fn running_contract() -> Contract {
    Contract {
        code_info: contracts::types::Code {
            id: CodeId(0),
            hash: contracts::crypto::Hash::empty_hash(),
            abi: ABI::OasisV1,
            instantiate_policy: Policy::Everyone,
        },
        code: vec![],
        instance_info: Instance {
            id: InstanceId(3),
            code_id: CodeId(0),
            creator: caller(),
            upgrades_policy: Policy::Nobody,
        },
    }
}

fn subcall_context(gas_limit: u64) -> Context {
    Context::new(caller(), gas_limit, State::new(Parameters::default()))
}

fn call_message(id: u64, reply: NotifyReply, max_gas: Option<u64>) -> Message {
    Message::Call {
        id,
        reply,
        method: format!("method.{}", id),
        body: Value::Unsigned(id),
        max_gas,
    }
}

fn result_with(data: &[u8], messages: Vec<Message>) -> ExecutionOk {
    ExecutionOk {
        data: data.to_vec(),
        messages,
    }
}

fn expect_call(step: Step) -> (PendingCall, ChildCall) {
    match step {
        Step::Call(pending, call) => (pending, call),
        Step::Reply(_, reply) => panic!("a call should be next, not the reply {:?}", reply),
        Step::Done(data) => panic!("a call should be next, not the end with {:?}", data),
    }
}

fn expect_reply(step: Step) -> (PendingReply, Reply) {
    match step {
        Step::Reply(pending, reply) => (pending, reply),
        Step::Call(_, call) => panic!("a reply should be next, not a call of {}", call.method),
        Step::Done(data) => panic!("a reply should be next, not the end with {:?}", data),
    }
}

fn expect_done(step: Step) -> Vec<u8> {
    match step {
        Step::Done(data) => data,
        Step::Call(_, call) => panic!("the end should be next, not a call of {}", call.method),
        Step::Reply(_, reply) => panic!("the end should be next, not the reply {:?}", reply),
    }
}

fn success() -> CallResult {
    CallResult::Success(Value::TextString("fine".to_string()))
}

fn failure() -> CallResult {
    CallResult::Failed {
        module: "other".to_string(),
        code: 5,
    }
}

#[test]
fn result_without_messages_returns_its_data() {
    let mut ctx = subcall_context(1_000);
    let step = process_execution_result(
        &mut ctx,
        &Parameters::default(),
        &running_contract(),
        result_with(b"data", vec![]),
    )
    .unwrap();
    assert_eq!(expect_done(step), b"data".to_vec());
    assert_eq!(ctx.gas.gas_used(), 0);
    assert_eq!(ctx.depth, 0);
}

#[test]
fn messages_are_dispatched_in_the_order_of_emission() {
    let mut ctx = subcall_context(10_000);
    let params = Parameters::default();
    let messages = vec![
        call_message(1, NotifyReply::Never, None),
        call_message(2, NotifyReply::Never, None),
        call_message(3, NotifyReply::Never, None),
    ];
    let mut step =
        process_execution_result(&mut ctx, &params, &running_contract(), result_with(b"d", messages))
            .unwrap();
    assert_eq!(ctx.gas.gas_used(), 300);
    for id in 1..=3u64 {
        let (pending, call) = expect_call(step);
        assert_eq!(call.method, format!("method.{}", id));
        assert_eq!(call.body, Value::Unsigned(id));
        step = pending.finish(&mut ctx, call.ctx, success()).unwrap();
    }
    assert_eq!(expect_done(step), b"d".to_vec());
}

#[test]
fn child_runs_one_level_deeper_on_behalf_of_the_contract() {
    let mut ctx = subcall_context(10_000);
    ctx.depth = 2;
    ctx.state
        .instance_insert(InstanceId(3), StoreKind::Public, b"k", b"v");
    let contract = running_contract();
    let step = process_execution_result(
        &mut ctx,
        &Parameters::default(),
        &contract,
        result_with(b"", vec![call_message(1, NotifyReply::Never, None)]),
    )
    .unwrap();
    let (_, call) = expect_call(step);
    assert_eq!(call.ctx.depth, 3);
    assert_eq!(call.ctx.caller, contract.instance_info.address());
    assert_eq!(call.ctx.caller, Instance::address_for(InstanceId(3)));
    assert_eq!(call.ctx.gas.gas_used(), 0);
    assert!(call.ctx.tags.is_empty());
    assert!(call.ctx.messages.is_empty());
    assert_eq!(
        call.ctx.state.instance_get(InstanceId(3), StoreKind::Public, b"k"),
        Some(b"v".to_vec())
    );
    // The depth of the parent stays what it was.
    assert_eq!(ctx.depth, 2);
}

#[test]
fn child_gets_what_the_message_allows_and_never_more_than_is_left() {
    let params = Parameters::default();
    for (max_gas, expected) in [(None, 900), (Some(500), 500), (Some(900), 900), (Some(901), 900)]
    {
        let mut ctx = subcall_context(1_000);
        let step = process_execution_result(
            &mut ctx,
            &params,
            &running_contract(),
            result_with(b"", vec![call_message(1, NotifyReply::Never, max_gas)]),
        )
        .unwrap();
        assert_eq!(ctx.gas.remaining_gas(), 900);
        let (_, call) = expect_call(step);
        assert_eq!(call.ctx.gas.gas_limit(), expected);
        assert_eq!(call.ctx.gas.remaining_gas(), expected);
    }
}

#[test]
fn parent_is_charged_what_the_child_used() {
    let mut ctx = subcall_context(1_000);
    let step = process_execution_result(
        &mut ctx,
        &Parameters::default(),
        &running_contract(),
        result_with(b"", vec![call_message(1, NotifyReply::Never, Some(400))]),
    )
    .unwrap();
    let (pending, mut call) = expect_call(step);
    call.ctx.gas.use_gas(150).unwrap();
    assert_eq!(call.ctx.gas.remaining_gas(), 250);
    let before = ctx.gas.remaining_gas();
    let step = pending.finish(&mut ctx, call.ctx, success()).unwrap();
    // The parent's gas goes down by exactly the allowance less what the child has left.
    assert_eq!(before - ctx.gas.remaining_gas(), 400 - 250);
    assert_eq!(ctx.gas.gas_used(), 100 + 150);
    expect_done(step);
}

#[test]
fn parent_is_charged_for_a_failed_child_too() {
    let mut ctx = subcall_context(1_000);
    let step = process_execution_result(
        &mut ctx,
        &Parameters::default(),
        &running_contract(),
        result_with(b"", vec![call_message(1, NotifyReply::Never, None)]),
    )
    .unwrap();
    let (pending, mut call) = expect_call(step);
    call.ctx.gas.use_gas(900).unwrap();
    pending.finish(&mut ctx, call.ctx, failure()).unwrap();
    assert_eq!(ctx.gas.remaining_gas(), 0);
}

#[test]
fn charge_for_the_child_can_exhaust_the_parent() {
    let mut ctx = subcall_context(1_000);
    let step = process_execution_result(
        &mut ctx,
        &Parameters::default(),
        &running_contract(),
        result_with(b"", vec![call_message(1, NotifyReply::Never, Some(400))]),
    )
    .unwrap();
    let (pending, mut call) = expect_call(step);
    call.ctx.gas.use_gas(300).unwrap();
    // Gas that the parent spent in the meantime is gone.
    ctx.gas.use_gas(700).unwrap();
    let result = pending.finish(&mut ctx, call.ctx, success());
    assert!(matches!(result, Err(Error::Core(CoreError::OutOfGas))));
    assert_eq!(ctx.gas.gas_used(), 800);
}

fn touched_child(mut child: Context) -> Context {
    child
        .state
        .instance_insert(InstanceId(9), StoreKind::Public, b"key", b"value");
    child.emit_tag(Tag {
        key: b"tag".to_vec(),
        value: b"1".to_vec(),
    });
    child.emit_message(b"runtime message".to_vec());
    child
}

#[test]
fn successful_child_is_committed() {
    let mut ctx = subcall_context(1_000);
    ctx.emit_tag(Tag {
        key: b"first".to_vec(),
        value: vec![],
    });
    let step = process_execution_result(
        &mut ctx,
        &Parameters::default(),
        &running_contract(),
        result_with(b"", vec![call_message(1, NotifyReply::Never, None)]),
    )
    .unwrap();
    let (pending, call) = expect_call(step);
    let child = touched_child(call.ctx);
    // Nothing is seen before the commit.
    assert_eq!(
        ctx.state.instance_get(InstanceId(9), StoreKind::Public, b"key"),
        None
    );
    pending.finish(&mut ctx, child, success()).unwrap();
    assert_eq!(
        ctx.state.instance_get(InstanceId(9), StoreKind::Public, b"key"),
        Some(b"value".to_vec())
    );
    assert_eq!(ctx.tags.len(), 2);
    assert_eq!(ctx.tags[0].key, b"first".to_vec());
    assert_eq!(ctx.tags[1].key, b"tag".to_vec());
    assert_eq!(ctx.messages, vec![b"runtime message".to_vec()]);
}

#[test]
fn aborted_child_leaves_nothing_behind() {
    let mut ctx = subcall_context(1_000);
    ctx.emit_tag(Tag {
        key: b"first".to_vec(),
        value: vec![],
    });
    ctx.state
        .instance_insert(InstanceId(9), StoreKind::Public, b"old", b"kept");
    let step = process_execution_result(
        &mut ctx,
        &Parameters::default(),
        &running_contract(),
        result_with(b"mine", vec![call_message(1, NotifyReply::Never, None)]),
    )
    .unwrap();
    let (pending, call) = expect_call(step);
    let mut child = touched_child(call.ctx);
    child
        .state
        .instance_remove(InstanceId(9), StoreKind::Public, b"old");
    let step = pending.finish(&mut ctx, child, failure()).unwrap();
    assert_eq!(
        ctx.state.instance_get(InstanceId(9), StoreKind::Public, b"key"),
        None
    );
    assert_eq!(
        ctx.state.instance_get(InstanceId(9), StoreKind::Public, b"old"),
        Some(b"kept".to_vec())
    );
    assert_eq!(ctx.tags.len(), 1);
    assert!(ctx.messages.is_empty());
    assert_eq!(expect_done(step), b"mine".to_vec());
}

#[test]
fn replies_are_delivered_as_the_contract_asked() {
    let cases = [
        (NotifyReply::Never, true, false),
        (NotifyReply::Never, false, false),
        (NotifyReply::OnError, true, false),
        (NotifyReply::OnError, false, true),
        (NotifyReply::OnSuccess, true, true),
        (NotifyReply::OnSuccess, false, false),
        (NotifyReply::Always, true, true),
        (NotifyReply::Always, false, true),
    ];
    for (notify, succeeded, delivered) in cases {
        assert_eq!(notify.wants_reply(succeeded), delivered);
        let mut ctx = subcall_context(1_000);
        let step = process_execution_result(
            &mut ctx,
            &Parameters::default(),
            &running_contract(),
            result_with(b"mine", vec![call_message(42, notify, None)]),
        )
        .unwrap();
        let (pending, call) = expect_call(step);
        let outcome = if succeeded { success() } else { failure() };
        let step = pending.finish(&mut ctx, call.ctx, outcome).unwrap();
        if delivered {
            let (_, reply) = expect_reply(step);
            let expected = if succeeded {
                contracts::message::CallResult::Success(Value::TextString("fine".to_string()))
            } else {
                contracts::message::CallResult::Failed {
                    module: "other".to_string(),
                    code: 5,
                }
            };
            assert_eq!(
                reply,
                Reply::Call {
                    id: 42,
                    result: expected
                }
            );
        } else {
            assert_eq!(expect_done(step), b"mine".to_vec());
        }
    }
}

#[test]
fn reply_that_returns_data_overwrites_the_data() {
    let mut ctx = subcall_context(1_000);
    let params = Parameters::default();
    let step = process_execution_result(
        &mut ctx,
        &params,
        &running_contract(),
        result_with(b"own data", vec![call_message(1, NotifyReply::Always, None)]),
    )
    .unwrap();
    let (pending, call) = expect_call(step);
    let step = pending.finish(&mut ctx, call.ctx, success()).unwrap();
    let (pending, _) = expect_reply(step);
    let step = pending
        .finish(&mut ctx, &params, Ok(result_with(b"from the reply", vec![])))
        .unwrap();
    assert_eq!(expect_done(step), b"from the reply".to_vec());
}

#[test]
fn reply_that_returns_nothing_leaves_the_data() {
    let mut ctx = subcall_context(1_000);
    let params = Parameters::default();
    let step = process_execution_result(
        &mut ctx,
        &params,
        &running_contract(),
        result_with(b"own data", vec![call_message(1, NotifyReply::Always, None)]),
    )
    .unwrap();
    let (pending, call) = expect_call(step);
    let step = pending.finish(&mut ctx, call.ctx, failure()).unwrap();
    let (pending, _) = expect_reply(step);
    let step = pending
        .finish(&mut ctx, &params, Ok(result_with(b"", vec![])))
        .unwrap();
    assert_eq!(expect_done(step), b"own data".to_vec());
}

#[test]
fn reply_is_handled_before_the_next_message() {
    let mut ctx = subcall_context(10_000);
    let params = Parameters::default();
    let messages = vec![
        call_message(1, NotifyReply::Always, None),
        call_message(2, NotifyReply::Never, None),
    ];
    let step = process_execution_result(
        &mut ctx,
        &params,
        &running_contract(),
        result_with(b"own data", messages),
    )
    .unwrap();
    let (pending, call) = expect_call(step);
    assert_eq!(call.method, "method.1");
    let step = pending.finish(&mut ctx, call.ctx, success()).unwrap();
    let (pending, reply) = expect_reply(step);
    assert!(matches!(reply, Reply::Call { id: 1, .. }));
    // The reply handler emits a message of its own, which comes before the second message.
    let step = pending
        .finish(
            &mut ctx,
            &params,
            Ok(result_with(
                b"first reply",
                vec![call_message(10, NotifyReply::OnSuccess, None)],
            )),
        )
        .unwrap();
    let (pending, call) = expect_call(step);
    assert_eq!(call.method, "method.10");
    let step = pending.finish(&mut ctx, call.ctx, success()).unwrap();
    let (pending, reply) = expect_reply(step);
    assert!(matches!(reply, Reply::Call { id: 10, .. }));
    let step = pending
        .finish(&mut ctx, &params, Ok(result_with(b"nested reply", vec![])))
        .unwrap();
    // The nested reply overwrote the data of the first reply, which overwrote the data of the contract.
    let (pending, call) = expect_call(step);
    assert_eq!(call.method, "method.2");
    let step = pending.finish(&mut ctx, call.ctx, failure()).unwrap();
    assert_eq!(expect_done(step), b"nested reply".to_vec());
    // Three results with messages were admitted: two with one message, one with two.
    assert_eq!(ctx.gas.gas_used(), 200 + 100 + 0);
}

#[test]
fn error_of_the_reply_handler_ends_the_processing() {
    let mut ctx = subcall_context(1_000);
    let params = Parameters::default();
    let step = process_execution_result(
        &mut ctx,
        &params,
        &running_contract(),
        result_with(b"own data", vec![call_message(1, NotifyReply::Always, None)]),
    )
    .unwrap();
    let (pending, call) = expect_call(step);
    let step = pending.finish(&mut ctx, call.ctx, success()).unwrap();
    let (pending, _) = expect_reply(step);
    let result = pending.finish(
        &mut ctx,
        &params,
        Err(Error::ExecutionFailed("unreachable".to_string())),
    );
    assert!(matches!(result, Err(Error::ExecutionFailed(cause)) if cause == "unreachable"));
}

#[test]
fn depth_at_the_limit_admits_no_messages() {
    let params = Parameters::default();
    // One level below the limit messages are admitted.
    let mut ctx = subcall_context(1_000);
    ctx.depth = params.max_subcall_depth - 1;
    let step = process_execution_result(
        &mut ctx,
        &params,
        &running_contract(),
        result_with(b"", vec![call_message(1, NotifyReply::Never, None)]),
    )
    .unwrap();
    let (_, call) = expect_call(step);
    assert_eq!(call.ctx.depth, params.max_subcall_depth);

    // At the limit they are not.
    let mut ctx = subcall_context(1_000);
    ctx.depth = params.max_subcall_depth;
    let result = process_execution_result(
        &mut ctx,
        &params,
        &running_contract(),
        result_with(b"", vec![call_message(1, NotifyReply::Never, None)]),
    );
    assert!(matches!(result, Err(Error::CallDepthExceeded(9, 8))));
    assert_eq!(ctx.gas.gas_used(), 0);

    // A result without messages is fine at any depth.
    let step = process_execution_result(
        &mut ctx,
        &params,
        &running_contract(),
        result_with(b"data", vec![]),
    )
    .unwrap();
    assert_eq!(expect_done(step), b"data".to_vec());
}

#[test]
fn count_at_the_limit_is_admitted_and_one_more_is_not() {
    let params = Parameters::default();
    let many = |count: u64| -> Vec<Message> {
        (0..count)
            .map(|id| call_message(id, NotifyReply::Never, None))
            .collect()
    };
    let mut ctx = subcall_context(10_000);
    let step =
        process_execution_result(&mut ctx, &params, &running_contract(), result_with(b"", many(16)))
            .unwrap();
    expect_call(step);
    assert_eq!(ctx.gas.gas_used(), 1_600);

    let mut ctx = subcall_context(10_000);
    let result =
        process_execution_result(&mut ctx, &params, &running_contract(), result_with(b"", many(17)));
    assert!(matches!(result, Err(Error::TooManySubcalls(17, 16))));
    // The gas for dispatching is charged before the messages are counted.
    assert_eq!(ctx.gas.gas_used(), 1_700);
}

#[test]
fn dispatch_is_charged_before_any_message_runs() {
    let params = Parameters {
        gas_costs: GasCosts {
            subcall_dispatch: 250,
            ..GasCosts::default()
        },
        ..Parameters::default()
    };
    let messages = vec![
        call_message(1, NotifyReply::Never, None),
        call_message(2, NotifyReply::Never, None),
    ];
    let mut ctx = subcall_context(499);
    let result =
        process_execution_result(&mut ctx, &params, &running_contract(), result_with(b"", messages));
    assert!(matches!(result, Err(Error::Core(CoreError::OutOfGas))));
    assert_eq!(ctx.gas.gas_used(), 0);

    let messages = vec![
        call_message(1, NotifyReply::Never, None),
        call_message(2, NotifyReply::Never, None),
    ];
    let mut ctx = subcall_context(500);
    let step =
        process_execution_result(&mut ctx, &params, &running_contract(), result_with(b"", messages))
            .unwrap();
    let (_, call) = expect_call(step);
    assert_eq!(ctx.gas.remaining_gas(), 0);
    assert_eq!(call.ctx.gas.gas_limit(), 0);
}

#[test]
fn messages_of_a_reply_are_held_to_the_limits_too() {
    let params = Parameters {
        max_subcall_count: 1,
        ..Parameters::default()
    };
    let mut ctx = subcall_context(10_000);
    let step = process_execution_result(
        &mut ctx,
        &params,
        &running_contract(),
        result_with(b"", vec![call_message(1, NotifyReply::Always, None)]),
    )
    .unwrap();
    let (pending, call) = expect_call(step);
    let step = pending.finish(&mut ctx, call.ctx, success()).unwrap();
    let (pending, _) = expect_reply(step);
    let result = pending.finish(
        &mut ctx,
        &params,
        Ok(result_with(
            b"",
            vec![
                call_message(2, NotifyReply::Never, None),
                call_message(3, NotifyReply::Never, None),
            ],
        )),
    );
    assert!(matches!(result, Err(Error::TooManySubcalls(2, 1))));
}

#[test]
fn depth_of_the_outermost_context_stays_zero() {
    let mut ctx = subcall_context(10_000);
    let params = Parameters::default();
    assert_eq!(ctx.depth, 0);
    let step = process_execution_result(
        &mut ctx,
        &params,
        &running_contract(),
        result_with(b"", vec![call_message(1, NotifyReply::Always, None)]),
    )
    .unwrap();
    assert_eq!(ctx.depth, 0);
    let (pending, call) = expect_call(step);
    assert_eq!(call.ctx.depth, 1);
    let step = pending.finish(&mut ctx, call.ctx, success()).unwrap();
    assert_eq!(ctx.depth, 0);
    let (pending, _) = expect_reply(step);
    let step = pending
        .finish(&mut ctx, &params, Ok(result_with(b"", vec![])))
        .unwrap();
    expect_done(step);
    assert_eq!(ctx.depth, 0);
}

fn out_of_gas() -> CallResult {
    CallResult::Failed {
        module: "core".to_string(),
        code: 12,
    }
}

#[test]
fn child_that_ran_out_of_gas_ends_the_processing() {
    for notify in [
        NotifyReply::Never,
        NotifyReply::OnError,
        NotifyReply::OnSuccess,
        NotifyReply::Always,
    ] {
        let mut ctx = subcall_context(1_000);
        let messages = vec![
            call_message(1, notify, Some(400)),
            call_message(2, NotifyReply::Never, None),
        ];
        let step = process_execution_result(
            &mut ctx,
            &Parameters::default(),
            &running_contract(),
            result_with(b"own data", messages),
        )
        .unwrap();
        let (pending, mut call) = expect_call(step);
        call.ctx.gas.use_gas(400).unwrap();
        let child = touched_child(call.ctx);
        let result = pending.finish(&mut ctx, child, out_of_gas());
        assert!(matches!(result, Err(Error::Core(CoreError::OutOfGas))));
        // The parent pays for what the child used, and sees nothing of what it did.
        assert_eq!(ctx.gas.gas_used(), 200 + 400);
        assert!(ctx.tags.is_empty());
        assert!(ctx.messages.is_empty());
        assert_eq!(
            ctx.state.instance_get(InstanceId(9), StoreKind::Public, b"key"),
            None
        );
    }
}

#[test]
fn other_failures_of_the_metering_module_are_failures_like_any_other() {
    assert!(out_of_gas().is_out_of_gas());
    assert!(!failure().is_out_of_gas());
    assert!(!success().is_out_of_gas());
    let other_code = CallResult::Failed {
        module: "core".to_string(),
        code: 11,
    };
    let other_module = CallResult::Failed {
        module: "contracts".to_string(),
        code: 12,
    };
    for result in [other_code, other_module] {
        assert!(!result.is_out_of_gas());
        let mut ctx = subcall_context(1_000);
        let step = process_execution_result(
            &mut ctx,
            &Parameters::default(),
            &running_contract(),
            result_with(b"own data", vec![call_message(1, NotifyReply::OnError, None)]),
        )
        .unwrap();
        let (pending, call) = expect_call(step);
        let step = pending.finish(&mut ctx, call.ctx, result).unwrap();
        expect_reply(step);
    }
}

#[test]
fn refused_results_are_charged_as_far_as_they_got() {
    let params = Parameters::default();
    // Too deep: nothing is charged.
    let mut ctx = subcall_context(10_000);
    ctx.depth = 8;
    let result = process_execution_result(
        &mut ctx,
        &params,
        &running_contract(),
        result_with(b"", vec![call_message(1, NotifyReply::Never, None)]),
    );
    assert!(matches!(result, Err(Error::CallDepthExceeded(9, 8))));
    assert_eq!(ctx.gas.gas_used(), 0);
    // Not enough gas for the dispatch: nothing is charged.
    let mut ctx = subcall_context(99);
    let result = process_execution_result(
        &mut ctx,
        &params,
        &running_contract(),
        result_with(b"", vec![call_message(1, NotifyReply::Never, None)]),
    );
    assert!(matches!(result, Err(Error::Core(CoreError::OutOfGas))));
    assert_eq!(ctx.gas.gas_used(), 0);
    // Too many messages in the result of a reply handler: the dispatch is charged.
    let params = Parameters {
        max_subcall_count: 1,
        ..Parameters::default()
    };
    let mut ctx = subcall_context(10_000);
    let step = process_execution_result(
        &mut ctx,
        &params,
        &running_contract(),
        result_with(b"", vec![call_message(1, NotifyReply::Always, None)]),
    )
    .unwrap();
    let (pending, call) = expect_call(step);
    let step = pending.finish(&mut ctx, call.ctx, success()).unwrap();
    let (pending, _) = expect_reply(step);
    let used = ctx.gas.gas_used();
    let result = pending.finish(
        &mut ctx,
        &params,
        Ok(result_with(
            b"",
            vec![
                call_message(2, NotifyReply::Never, None),
                call_message(3, NotifyReply::Never, None),
            ],
        )),
    );
    assert!(matches!(result, Err(Error::TooManySubcalls(2, 1))));
    assert_eq!(ctx.gas.gas_used(), used + 200);
}
