use contracts::address::Address;
use contracts::context::Context;
use contracts::execution::{Envelope, ExecutionOk, Payload};
use contracts::message::{CallResult, Reply};
use contracts::state::State;
use contracts::token::{BaseUnits, Denomination};
use contracts::types::{Code, CodeId, Instance, InstanceId, Policy, ABI};
use contracts::value::Value;
use contracts::wasm::{read_result, trap_to_error, Contract, Phase, Trap};
use contracts::{ContractError, CoreError, Error, Parameters};

fn value_text(s: &str) -> Value {
    Value::TextString(s.to_string())
}

fn value_map(pairs: Vec<(&str, Value)>) -> Value {
    Value::Dict(pairs.into_iter().map(|(k, v)| (value_text(k), v)).collect())
}

fn ok_result(data: &[u8]) -> Value {
    value_map(vec![(
        "ok",
        value_map(vec![
            ("data", Value::ByteString(data.to_vec())),
            ("messages", Value::Array(vec![])),
        ]),
    )])
}

#[test]
fn result_of_the_largest_size_is_read() {
    let params = Parameters::default();
    let result = read_result(&params, 1024, Some(ok_result(b"hello tester (1)")));
    assert_eq!(
        result,
        Ok(ExecutionOk {
            data: b"hello tester (1)".to_vec(),
            messages: vec![]
        })
    );
}

#[test]
fn result_one_byte_over_the_limit_is_too_large() {
    let params = Parameters::default();
    let result = read_result(&params, 1025, Some(ok_result(b"data")));
    assert_eq!(result, Err(Error::ResultTooLarge(1025, 1024)));
    let result = read_result(&params, 2_000_000, None);
    assert_eq!(result, Err(Error::ResultTooLarge(2_000_000, 1024)));
}

#[test]
fn error_of_the_contract_is_carried_verbatim() {
    let params = Parameters::default();
    let value = value_map(vec![(
        "fail",
        value_map(vec![
            ("code", Value::Unsigned(1)),
            ("module", value_text("contracts.1")),
            ("message", value_text("bad request")),
        ]),
    )]);
    let error = read_result(&params, 40, Some(value)).unwrap_err();
    assert_eq!(
        error,
        Error::Contract(ContractError {
            module: "contracts.1".to_string(),
            code: 1,
            message: "bad request".to_string()
        })
    );
    assert_eq!(error.module_name(), "contracts.1");
    assert_eq!(error.code(), 1);
}

#[test]
fn bytes_that_hold_no_result_fail_the_execution() {
    let params = Parameters::default();
    assert_eq!(
        read_result(&params, 3, None),
        Err(Error::ExecutionFailed("parsing failed".to_string()))
    );
    assert_eq!(
        read_result(&params, 3, Some(value_text("instantiate"))),
        Err(Error::ExecutionFailed("unknown field".to_string()))
    );
    assert_eq!(
        read_result(&params, 3, Some(value_map(vec![("ok", Value::Unsigned(1))]))),
        Err(Error::ExecutionFailed("unexpected type".to_string()))
    );
}

#[test]
fn running_out_of_gas_stays_an_error_of_the_core_module() {
    for phase in [Phase::Allocation, Phase::Execution] {
        let error = trap_to_error(Trap::OutOfGas, phase);
        assert_eq!(error, Error::Core(CoreError::OutOfGas));
        assert_eq!(error.module_name(), "core");
        assert_eq!(error.code(), 12);
    }
}

#[test]
fn division_by_zero_in_allocate_fails_the_execution() {
    let error = trap_to_error(
        Trap::Aborted("division by zero".to_string()),
        Phase::Allocation,
    );
    assert_eq!(
        error,
        Error::ExecutionFailed("region allocation failed: division by zero".to_string())
    );
    assert_eq!(error.module_name(), "contracts");
    assert_eq!(error.code(), 12);
}

#[test]
fn stack_overflow_fails_the_execution() {
    let error = trap_to_error(Trap::Aborted("stack overflow".to_string()), Phase::Allocation);
    assert_eq!(
        error,
        Error::ExecutionFailed("region allocation failed: stack overflow".to_string())
    );
    let error = trap_to_error(Trap::Aborted("stack overflow".to_string()), Phase::Execution);
    assert_eq!(error, Error::ExecutionFailed("stack overflow".to_string()));
}

fn invoked_contract() -> Contract {
    Contract {
        code_info: Code {
            id: CodeId(1),
            hash: contracts::crypto::Hash::empty_hash(),
            abi: ABI::OasisV1,
            instantiate_policy: Policy::Everyone,
        },
        code: vec![],
        instance_info: Instance {
            id: InstanceId(1),
            code_id: CodeId(1),
            creator: Address::default(),
            upgrades_policy: Policy::Everyone,
        },
    }
}

#[test]
fn envelopes_name_caller_instance_and_tokens() {
    let caller = Address::from_module_raw("keys", b"alice");
    let ctx = Context::new(caller, 1_000, State::new(Parameters::default()));
    let tokens = vec![BaseUnits::new(5, Denomination::native())];
    let envelope = invoked_contract().request_envelope(&ctx, &tokens, b"instantiate");
    assert_eq!(
        envelope,
        Envelope {
            caller,
            instance: InstanceId(1),
            tokens_received: vec![BaseUnits::new(5, Denomination::native())],
            payload: Payload::Request(b"instantiate".to_vec()),
        }
    );
    let reply = || Reply::Call {
        id: 9,
        result: CallResult::Failed {
            module: "m".to_string(),
            code: 2,
        },
    };
    let envelope = invoked_contract().reply_envelope(&ctx, reply());
    assert_eq!(
        envelope,
        Envelope {
            caller,
            instance: InstanceId(1),
            tokens_received: vec![],
            payload: Payload::Reply(reply()),
        }
    );
}

#[test]
fn code_that_does_not_load_fails_as_such() {
    let error = trap_to_error(Trap::LoadingFailed, Phase::Execution);
    assert_eq!(error, Error::ModuleLoadingFailed);
    assert_eq!(error.code(), 11);
}
