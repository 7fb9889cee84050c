use contracts::address::Address;
use contracts::context::Context;
use contracts::dispatch::{DispatchResult, Dispatched, Metadata, VERSION};
use contracts::module::{Module, PendingUpload};
use contracts::state::State;
use contracts::transaction::CallResult;
use contracts::types::{Code, CodeId, Instance, InstanceId, Policy, UploadResult, ABI};
use contracts::value::Value;
use contracts::wasm::Contract;
use contracts::{CoreError, Error, GasCosts, Genesis, Parameters};

fn text_value(s: &str) -> Value {
    Value::TextString(s.to_string())
}

fn map_value(pairs: Vec<(&str, Value)>) -> Value {
    Value::Dict(pairs.into_iter().map(|(k, v)| (text_value(k), v)).collect())
}

fn dispatch_context() -> Context {
    let params = Parameters {
        gas_costs: GasCosts {
            tx_upload: 2,
            tx_upload_per_byte: 1,
            tx_instantiate: 3,
            tx_call: 4,
            tx_upgrade: 5,
            ..GasCosts::default()
        },
        ..Parameters::default()
    };
    Context::new(Address::default(), 1_000, State::new(params))
}

fn handled(result: DispatchResult<Value, Dispatched>) -> Dispatched {
    match result {
        DispatchResult::Handled(dispatched) => dispatched,
        DispatchResult::Unhandled(body) => panic!("the call should be handled: {:?}", body),
    }
}

fn failed(module: &str, code: u32) -> Dispatched {
    Dispatched::Done(CallResult::Failed {
        module: module.to_string(),
        code,
    })
}

#[test]
fn methods_of_other_modules_are_not_handled() {
    let mut ctx = dispatch_context();
    let result = Module::dispatch_call(&mut ctx, "accounts.Transfer", Value::Unsigned(1));
    assert_eq!(result, DispatchResult::Unhandled(Value::Unsigned(1)));
    let result = Module::dispatch_call(&mut ctx, "contracts.upload", text_value("x"));
    assert_eq!(result, DispatchResult::Unhandled(text_value("x")));
    assert_eq!(ctx.gas.gas_used(), 0);
    let result = Module::dispatch_query(&ctx, "contracts.Upload", Value::Unsigned(1));
    assert_eq!(result, DispatchResult::Unhandled(Value::Unsigned(1)));
}

#[test]
fn bodies_that_cannot_be_read_are_invalid_arguments() {
    for method in [
        "contracts.Upload",
        "contracts.Instantiate",
        "contracts.Call",
        "contracts.Upgrade",
    ] {
        let mut ctx = dispatch_context();
        let result = Module::dispatch_call(&mut ctx, method, text_value("instantiate"));
        assert_eq!(handled(result), failed("contracts", 1));
        assert_eq!(ctx.gas.gas_used(), 0);
    }
}

#[test]
fn upload_is_dispatched_to_its_first_stage() {
    let mut ctx = dispatch_context();
    let body = map_value(vec![
        ("abi", Value::Unsigned(1)),
        ("code", Value::ByteString(vec![0; 10])),
        ("instantiate_policy", text_value("any")),
    ]);
    let result = Module::dispatch_call(&mut ctx, "contracts.Upload", body);
    assert_eq!(
        handled(result),
        Dispatched::Upload(
            PendingUpload {
                abi: ABI::OasisV1,
                instantiate_policy: Policy::Everyone,
                code_size: 10
            },
            contracts::types::Upload {
                abi: ABI::OasisV1,
                instantiate_policy: Policy::Everyone,
                code: vec![0; 10]
            }
        )
    );
    assert_eq!(ctx.gas.gas_used(), 12);
}

#[test]
fn checked_upload_is_answered_at_once() {
    let mut ctx = dispatch_context();
    ctx.check_only = true;
    let body = map_value(vec![
        ("abi", Value::Unsigned(1)),
        ("code", Value::ByteString(vec![0; 10])),
        ("instantiate_policy", text_value("any")),
    ]);
    let result = Module::dispatch_call(&mut ctx, "contracts.Upload", body);
    assert_eq!(
        handled(result),
        Dispatched::Done(CallResult::Success(map_value(vec![("id", Value::Unsigned(0))])))
    );
}

#[test]
fn errors_of_the_first_stage_become_failed_results() {
    let mut ctx = dispatch_context();
    let body = map_value(vec![
        ("data", Value::ByteString(vec![])),
        ("tokens", Value::Array(vec![])),
        ("code_id", Value::Unsigned(7)),
        ("upgrades_policy", text_value("nobody")),
    ]);
    let result = Module::dispatch_call(&mut ctx, "contracts.Instantiate", body);
    assert_eq!(handled(result), failed("contracts", 9));
    assert_eq!(ctx.gas.gas_used(), 3);

    let body = map_value(vec![
        ("id", Value::Unsigned(7)),
        ("data", Value::ByteString(vec![])),
        ("tokens", Value::Array(vec![])),
    ]);
    let result = Module::dispatch_call(&mut ctx, "contracts.Call", body);
    assert_eq!(handled(result), failed("contracts", 10));
    assert_eq!(ctx.gas.gas_used(), 7);
}

#[test]
fn upgrade_is_answered_as_not_supported() {
    let mut ctx = dispatch_context();
    let body = || {
        map_value(vec![
            ("id", Value::Unsigned(7)),
            ("data", Value::ByteString(vec![])),
            ("tokens", Value::Array(vec![])),
            ("code_id", Value::Unsigned(1)),
        ])
    };
    let result = Module::dispatch_call(&mut ctx, "contracts.Upgrade", body());
    assert_eq!(handled(result), failed("contracts", 14));
    assert_eq!(ctx.gas.gas_used(), 5);
    let state = std::mem::replace(&mut ctx.state, State::new(Parameters::default()));
    let mut ctx = Context::new(Address::default(), 4, state);
    let result = Module::dispatch_call(&mut ctx, "contracts.Upgrade", body());
    assert_eq!(handled(result), failed("core", 12));
}

fn stored_contract(ctx: &mut Context) -> Contract {
    let code_info = Code {
        id: CodeId(0),
        hash: contracts::crypto::Hash::digest_bytes(b"code"),
        abi: ABI::OasisV1,
        instantiate_policy: Policy::Everyone,
    };
    let instance_info = Instance {
        id: InstanceId(0),
        code_id: CodeId(0),
        creator: Address::default(),
        upgrades_policy: Policy::Nobody,
    };
    Module::store_code_info(ctx, code_info).unwrap();
    Module::store_code(ctx, CodeId(0), b"code").unwrap();
    Module::store_instance_info(ctx, instance_info).unwrap();
    Contract {
        code_info,
        code: b"code".to_vec(),
        instance_info,
    }
}

#[test]
fn instantiation_and_call_are_dispatched_to_the_contract() {
    let mut ctx = dispatch_context();
    let contract = stored_contract(&mut ctx);
    let body = map_value(vec![
        ("id", Value::Unsigned(0)),
        ("data", Value::ByteString(vec![])),
        ("tokens", Value::Array(vec![])),
    ]);
    let result = Module::dispatch_call(&mut ctx, "contracts.Call", body);
    match handled(result) {
        Dispatched::Call(handed, body) => {
            assert_eq!(handed, contract);
            assert_eq!(body.id, InstanceId(0));
        }
        other => panic!("the contract should be called: {:?}", other),
    }
    let body = map_value(vec![
        ("data", Value::ByteString(vec![])),
        ("tokens", Value::Array(vec![])),
        ("code_id", Value::Unsigned(0)),
        ("upgrades_policy", text_value("any")),
    ]);
    let result = Module::dispatch_call(&mut ctx, "contracts.Instantiate", body);
    match handled(result) {
        Dispatched::Instantiate(handed, body) => {
            assert_eq!(body.code_id, CodeId(0));
            assert_eq!(handed.code, contract.code);
            assert_eq!(handed.instance_info.id, InstanceId(0));
            assert_eq!(handed.instance_info.upgrades_policy, Policy::Everyone);
        }
        other => panic!("the contract should be instantiated: {:?}", other),
    }
}

#[test]
fn results_of_the_last_stages() {
    let mut ctx = dispatch_context();
    let contract = stored_contract(&mut ctx);
    assert_eq!(
        Module::upload_result(Ok(UploadResult { id: CodeId(4) })),
        CallResult::Success(map_value(vec![("id", Value::Unsigned(4))]))
    );
    assert_eq!(
        Module::upload_result(Err(Error::CodeMalformed)),
        CallResult::Failed {
            module: "contracts".to_string(),
            code: 3
        }
    );
    assert_eq!(
        Module::instantiate_result(&contract, Ok(b"ignored".to_vec())),
        CallResult::Success(map_value(vec![("id", Value::Unsigned(0))]))
    );
    assert_eq!(
        Module::instantiate_result(&contract, Err(Error::Core(CoreError::OutOfGas))),
        CallResult::Failed {
            module: "core".to_string(),
            code: 12
        }
    );
    assert_eq!(
        Module::call_result(Ok(b"returned".to_vec())),
        CallResult::Success(Value::ByteString(b"returned".to_vec()))
    );
    assert_eq!(
        Module::call_result(Err(Error::ExecutionFailed("stack overflow".to_string()))),
        CallResult::Failed {
            module: "contracts".to_string(),
            code: 12
        }
    );
}

#[test]
fn queries_for_code_and_instances_are_answered() {
    let mut ctx = dispatch_context();
    let contract = stored_contract(&mut ctx);
    let by_id = |id: u64| map_value(vec![("id", Value::Unsigned(id))]);
    assert_eq!(
        Module::dispatch_query(&ctx, "contracts.Code", by_id(0)),
        DispatchResult::Handled(Ok(contract.code_info.into_cbor_value()))
    );
    assert_eq!(
        Module::dispatch_query(&ctx, "contracts.Code", by_id(1)),
        DispatchResult::Handled(Err(Error::CodeNotFound))
    );
    assert_eq!(
        Module::dispatch_query(&ctx, "contracts.Instance", by_id(0)),
        DispatchResult::Handled(Ok(contract.instance_info.into_cbor_value()))
    );
    assert_eq!(
        Module::dispatch_query(&ctx, "contracts.Instance", by_id(1)),
        DispatchResult::Handled(Err(Error::InstanceNotFound))
    );
    assert_eq!(
        Module::dispatch_query(&ctx, "contracts.Code", Value::Unsigned(0)),
        DispatchResult::Handled(Err(Error::InvalidArgument))
    );
}

#[test]
fn other_queries_are_not_supported() {
    let ctx = dispatch_context();
    let storage = map_value(vec![
        ("id", Value::Unsigned(0)),
        ("key", Value::ByteString(vec![])),
    ]);
    assert_eq!(
        Module::dispatch_query(&ctx, "contracts.InstanceStorage", storage),
        DispatchResult::Handled(Err(Error::Unsupported))
    );
    let key = map_value(vec![("id", Value::Unsigned(0)), ("kind", text_value("tx"))]);
    assert_eq!(
        Module::dispatch_query(&ctx, "contracts.PublicKey", key),
        DispatchResult::Handled(Err(Error::Unsupported))
    );
    let custom = map_value(vec![
        ("id", Value::Unsigned(0)),
        ("data", Value::ByteString(vec![])),
        ("method", text_value("m")),
    ]);
    assert_eq!(
        Module::dispatch_query(&ctx, "contracts.Custom", custom),
        DispatchResult::Handled(Err(Error::Unsupported))
    );
    for method in [
        "contracts.InstanceStorage",
        "contracts.PublicKey",
        "contracts.Custom",
    ] {
        assert_eq!(
            Module::dispatch_query(&ctx, method, Value::Unsigned(0)),
            DispatchResult::Handled(Err(Error::InvalidArgument))
        );
    }
}

#[test]
fn state_is_initialised_once() {
    let mut ctx = Context::new(Address::default(), 1_000, State::new(Parameters::default()));
    let mut meta = Metadata::new();
    assert_eq!(meta.version_of("contracts"), 0);
    let genesis = Genesis {
        parameters: Parameters {
            max_subcall_depth: 3,
            ..Parameters::default()
        },
    };
    assert!(Module::init_or_migrate(&mut ctx, &mut meta, genesis));
    assert_eq!(ctx.state.params().max_subcall_depth, 3);
    assert_eq!(meta.version_of("contracts"), VERSION);
    assert_eq!(VERSION, 1);
    assert_eq!(meta.version_of("accounts"), 0);
    // The state is there now: nothing is initialised and nothing is migrated.
    assert!(!Module::init_or_migrate(&mut ctx, &mut meta, Genesis::default()));
    assert_eq!(ctx.state.params().max_subcall_depth, 3);
    assert!(!Module::migrate(&mut ctx, 1));
    Module::init(&mut ctx, Genesis::default());
    assert_eq!(ctx.state.params(), Parameters::default());
    meta.set_version("accounts", 2);
    meta.set_version("accounts", 3);
    assert_eq!(meta.version_of("accounts"), 3);
    assert_eq!(meta.version_of("contracts"), 1);
}
