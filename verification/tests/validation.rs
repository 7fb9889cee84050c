use contracts::abi::{exports_name, find_reserved, starts_with, validate, ModuleInfo};
use contracts::address::Address;
use contracts::context::Context;
use contracts::module::{Module, PendingUpload, Transformed, UploadStep};
use contracts::state::State;
use contracts::types::{Policy, Upload, ABI};
use contracts::{Error, Parameters};

fn module_with(exports: &[&str], has_start: bool, memories: u32) -> ModuleInfo {
    ModuleInfo {
        exports: exports.iter().map(|name| name.to_string()).collect(),
        has_start,
        memories,
    }
}

fn required_exports() -> Vec<&'static str> {
    vec!["allocate", "deallocate", "instantiate", "call"]
}

fn validation_context() -> Context {
    Context::new(Address::default(), 1_000_000, State::new(Parameters::default()))
}

fn validate_and_transform(
    ctx: &mut Context,
    code: &[u8],
    parsed: Option<ModuleInfo>,
) -> Result<(), Error> {
    let body = Upload {
        abi: ABI::OasisV1,
        instantiate_policy: Policy::Everyone,
        code: code.to_vec(),
    };
    let pending = match Module::tx_upload(ctx, &body)? {
        UploadStep::Transform(pending) => pending,
        UploadStep::Done(_) => panic!("the upload is not only checked"),
    };
    let transformed = parsed.map(|info| Transformed {
        info,
        code: code.to_vec(),
    });
    pending.finish(ctx, transformed).map(|_| ())
}

#[test]
fn test_validate_and_transform() {
    let mut ctx = validation_context();

    // Non-WASM code.
    let result = validate_and_transform(&mut ctx, &[], None);
    assert!(
        matches!(result, Err(Error::CodeMalformed)),
        "malformed code shoud fail validation"
    );

    // WASM code but without the required exports.
    let code = [
        0x00, 0x61, 0x73, 0x6d, 0x01, 0x00, 0x00, 0x00, 0x01, 0x06, 0x01, 0x60, 0x01, 0x7f,
        0x01, 0x7f, 0x03, 0x02, 0x01, 0x00, 0x07, 0x07, 0x01, 0x03, 0x66, 0x69, 0x62, 0x00,
        0x00, 0x0a, 0x1f, 0x01, 0x1d, 0x00, 0x20, 0x00, 0x41, 0x02, 0x49, 0x04, 0x40, 0x20,
        0x00, 0x0f, 0x0b, 0x20, 0x00, 0x41, 0x02, 0x6b, 0x10, 0x00, 0x20, 0x00, 0x41, 0x01,
        0x6b, 0x10, 0x00, 0x6a, 0x0f, 0x0b,
    ];
    let result = validate_and_transform(&mut ctx, &code, Some(module_with(&["fib"], false, 0)));
    assert!(
        matches!(result, Err(Error::CodeMissingRequiredExport(_))),
        "valid WASM, but non-ABI conformant code should fail validation"
    );

    // WASM code with required exports.
    let code = b"module with the required exports";
    let result = validate_and_transform(
        &mut ctx,
        code,
        Some(module_with(&required_exports(), false, 0)),
    );
    assert!(
        result.is_ok(),
        "valid WASM with required exports should be ok"
    );

    // WASM code with reserved exports.
    let mut exports = required_exports();
    exports.push("gas_limit");
    let result = validate_and_transform(&mut ctx, code, Some(module_with(&exports, false, 0)));
    assert!(
        matches!(result, Err(Error::CodeDeclaresReservedExport(_))),
        "valid WASM, but non-ABI conformant code should fail validation"
    );

    // WASM code with start function defined.
    let result = validate_and_transform(
        &mut ctx,
        code,
        Some(module_with(&required_exports(), true, 0)),
    );
    assert!(
        matches!(result, Err(Error::CodeDeclaresStartFunction)),
        "WASM with start function defined should fail validation"
    );

    // WASM code with multiple memories defined.
    let result = validate_and_transform(
        &mut ctx,
        code,
        Some(module_with(&required_exports(), false, 2)),
    );
    assert!(
        matches!(result, Err(Error::CodeDeclaresTooManyMemories)),
        "WASM with multiple memories defined should fail validation"
    );
}

#[test]
fn reserved_export_is_named_in_the_error() {
    let mut exports = required_exports();
    exports.push("gas_limit");
    let result = validate(ABI::OasisV1, &module_with(&exports, false, 1));
    assert_eq!(
        result,
        Err(Error::CodeDeclaresReservedExport("gas_limit".to_string()))
    );
}

#[test]
fn names_that_begin_with_the_reserved_prefix_are_reserved() {
    let mut exports = required_exports();
    exports.push("memory");
    exports.push("gas_limit_exhausted");
    exports.push("gas_limit");
    let result = validate(ABI::OasisV1, &module_with(&exports, false, 1));
    assert_eq!(
        result,
        Err(Error::CodeDeclaresReservedExport(
            "gas_limit_exhausted".to_string()
        ))
    );
    let mut exports = required_exports();
    exports.push("gas_limi");
    exports.push("my_gas_limit");
    assert_eq!(validate(ABI::OasisV1, &module_with(&exports, false, 1)), Ok(()));
}

#[test]
fn two_memories_are_too_many() {
    let result = validate(ABI::OasisV1, &module_with(&required_exports(), false, 2));
    assert_eq!(result, Err(Error::CodeDeclaresTooManyMemories));
}

#[test]
fn one_memory_or_none_is_accepted() {
    for memories in [0, 1] {
        let result = validate(ABI::OasisV1, &module_with(&required_exports(), false, memories));
        assert_eq!(result, Ok(()));
    }
}

#[test]
fn handle_reply_and_memory_exports_are_optional() {
    let mut exports = required_exports();
    assert_eq!(validate(ABI::OasisV1, &module_with(&exports, false, 1)), Ok(()));
    exports.push("handle_reply");
    exports.push("memory");
    assert_eq!(validate(ABI::OasisV1, &module_with(&exports, false, 1)), Ok(()));
}

#[test]
fn each_required_export_is_missed_by_name() {
    for missing in required_exports() {
        let exports: Vec<&str> = required_exports()
            .into_iter()
            .filter(|name| *name != missing)
            .collect();
        let result = validate(ABI::OasisV1, &module_with(&exports, false, 1));
        assert_eq!(
            result,
            Err(Error::CodeMissingRequiredExport(missing.to_string()))
        );
    }
}

#[test]
fn the_first_missing_export_is_reported() {
    let result = validate(ABI::OasisV1, &module_with(&["call"], false, 1));
    assert_eq!(
        result,
        Err(Error::CodeMissingRequiredExport("allocate".to_string()))
    );
    let result = validate(ABI::OasisV1, &module_with(&["allocate", "call"], false, 1));
    assert_eq!(
        result,
        Err(Error::CodeMissingRequiredExport("deallocate".to_string()))
    );
}

#[test]
fn rules_are_held_in_their_order() {
    // A start function is refused before anything else is looked at.
    let result = validate(ABI::OasisV1, &module_with(&["gas_limit"], true, 3));
    assert_eq!(result, Err(Error::CodeDeclaresStartFunction));
    // Then the number of memories.
    let result = validate(ABI::OasisV1, &module_with(&["gas_limit"], false, 3));
    assert_eq!(result, Err(Error::CodeDeclaresTooManyMemories));
    // Then the required exports, and the reserved ones last.
    let result = validate(ABI::OasisV1, &module_with(&["gas_limit"], false, 1));
    assert_eq!(
        result,
        Err(Error::CodeMissingRequiredExport("allocate".to_string()))
    );
}

#[test]
fn validation_gives_the_same_verdict_again() {
    let mut exports = required_exports();
    exports.push("gas_limit");
    let info = module_with(&exports, false, 1);
    assert_eq!(validate(ABI::OasisV1, &info), validate(ABI::OasisV1, &info));
    let info = module_with(&required_exports(), false, 1);
    assert_eq!(validate(ABI::OasisV1, &info), Ok(()));
    assert_eq!(validate(ABI::OasisV1, &info), Ok(()));
}

#[test]
fn helpers_of_the_rules() {
    assert!(starts_with("gas_limit", "gas_limit"));
    assert!(starts_with("gas_limit_x", "gas_limit"));
    assert!(!starts_with("gas_limi", "gas_limit"));
    assert!(!starts_with("xgas_limit", "gas_limit"));
    assert!(starts_with("anything", ""));
    let exports = vec!["a".to_string(), "gas_limit2".to_string()];
    assert!(exports_name(&exports, "a"));
    assert!(!exports_name(&exports, "b"));
    assert_eq!(find_reserved(&exports), Some("gas_limit2".to_string()));
    assert_eq!(find_reserved(&vec!["a".to_string()]), None);
}

#[test]
fn malformed_code_ends_the_upload() {
    let mut ctx = validation_context();
    let pending = PendingUpload {
        abi: ABI::OasisV1,
        instantiate_policy: Policy::Everyone,
        code_size: 0,
    };
    assert_eq!(pending.finish(&mut ctx, None), Err(Error::CodeMalformed));
    assert_eq!(ctx.state.next_code_id().as_u64(), 0);
}
