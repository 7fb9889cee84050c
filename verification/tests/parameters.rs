use contracts::codec::DecodeError;
use contracts::{
    ContractError, CoreError, Error, GasCosts, Genesis, Parameters, CORE_MODULE_NAME, MODULE_NAME,
};

#[test]
fn default_gas_costs() {
    let costs = GasCosts::default();
    assert_eq!(
        costs,
        GasCosts {
            tx_upload: 0,
            tx_upload_per_byte: 0,
            tx_instantiate: 0,
            tx_call: 0,
            tx_upgrade: 0,
            subcall_dispatch: 100,
            wasm_storage_get_base: 10,
            wasm_storage_insert_base: 10,
            wasm_storage_remove_base: 10,
        }
    );
}

#[test]
fn default_parameters() {
    let params = Parameters::default();
    assert_eq!(params.max_code_size, 262_144);
    assert_eq!(params.max_stack_size, 61_440);
    assert_eq!(params.max_memory_pages, 20);
    assert_eq!(params.max_subcall_depth, 8);
    assert_eq!(params.max_subcall_count, 16);
    assert_eq!(params.max_result_size_bytes, 1024);
    assert_eq!(params.gas_costs, GasCosts::default());
    assert_eq!(Genesis::default().parameters, params);
}

#[test]
fn module_names() {
    assert_eq!(MODULE_NAME, "contracts");
    assert_eq!(CORE_MODULE_NAME, "core");
}

#[test]
fn every_error_has_its_code() {
    let errors = vec![
        (Error::InvalidArgument, 1),
        (Error::CodeTooLarge(2, 1), 2),
        (Error::CodeMalformed, 3),
        (Error::UnsupportedABI, 4),
        (Error::CodeMissingRequiredExport("call".to_string()), 5),
        (Error::CodeDeclaresReservedExport("gas_limit".to_string()), 6),
        (Error::CodeDeclaresStartFunction, 7),
        (Error::CodeDeclaresTooManyMemories, 8),
        (Error::CodeNotFound, 9),
        (Error::InstanceNotFound, 10),
        (Error::ModuleLoadingFailed, 11),
        (Error::ExecutionFailed("division by zero".to_string()), 12),
        (Error::Forbidden, 13),
        (Error::Unsupported, 14),
        (Error::InsufficientCallerBalance, 15),
        (Error::CallDepthExceeded(9, 8), 16),
        (Error::ResultTooLarge(1025, 1024), 17),
        (Error::TooManySubcalls(17, 16), 18),
    ];
    for (error, code) in errors {
        assert_eq!(error.code(), code);
        assert_eq!(error.module_name(), "contracts");
    }
}

#[test]
fn out_of_gas_is_an_error_of_the_core_module() {
    let error = Error::Core(CoreError::OutOfGas);
    assert_eq!(error.code(), 12);
    assert_eq!(error.module_name(), "core");
    assert_eq!(CoreError::OutOfGas.code(), 12);
}

#[test]
fn contract_errors_are_carried_verbatim() {
    let error = Error::Contract(ContractError {
        module: "contracts.1".to_string(),
        code: 1,
        message: "bad request".to_string(),
    });
    assert_eq!(error.code(), 1);
    assert_eq!(error.module_name(), "contracts.1");
}

#[test]
fn failed_call_result_names_module_and_code() {
    let result = Error::CodeNotFound.to_call_result();
    assert_eq!(
        result,
        contracts::transaction::CallResult::Failed {
            module: "contracts".to_string(),
            code: 9
        }
    );
    assert!(!result.is_success());
    let result = Error::Core(CoreError::OutOfGas).to_call_result();
    assert_eq!(
        result,
        contracts::transaction::CallResult::Failed {
            module: "core".to_string(),
            code: 12
        }
    );
}

#[test]
fn decode_errors_say_what_went_wrong() {
    assert_eq!(DecodeError::ParsingFailed.message(), "parsing failed");
    assert_eq!(DecodeError::UnexpectedType.message(), "unexpected type");
    assert_eq!(DecodeError::MissingField.message(), "missing field");
    assert_eq!(DecodeError::UnknownField.message(), "unknown field");
    assert_eq!(
        DecodeError::UnexpectedIntegerSize.message(),
        "unexpected integer size"
    );
}
