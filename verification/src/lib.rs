//! Deterministic core of a smart-contract execution module: the rules by
//! which code is accepted, instances are created and called, gas is charged
//! and the messages that contracts emit are carried out.
use vstd::prelude::*;

pub mod abi;
pub mod accounts;
pub mod address;
pub mod bytes;
pub mod codec;
pub mod context;
pub mod crypto;
pub mod dispatch;
pub mod execution;
pub mod gas;
pub mod memory;
pub mod message;
pub mod message_codec;
pub mod module;
pub mod persist;
pub mod request_codec;
pub mod state;
pub mod storage;
pub mod store;
pub mod subcalls;
pub mod token;
pub mod trace;
pub mod transaction;
pub mod types;
pub mod value;
pub mod wasm;
pub mod wire;

verus! {

/// Unique module name.
pub const MODULE_NAME: &'static str = "contracts";

/// Name of the module that meters gas.
pub const CORE_MODULE_NAME: &'static str = "core";

/// Errors of the metering module that pass through this module unchanged.
#[derive(Clone, Copy, Debug, PartialEq, Eq, Structural)]
pub enum CoreError {
    /// The gas limit of the transaction is used up.
    OutOfGas,
}

impl CoreError {
    /// Numeric code of the error on the wire.
    pub open spec fn spec_code(self) -> u32 {
        12
    }

    /// Numeric code of the error on the wire.
    pub fn code(&self) -> (code: u32)
        ensures
            code == self.spec_code(),
    {
        12
    }
}

/// An error that a contract returned, carried verbatim.
#[derive(Debug, PartialEq, Eq)]
pub struct ContractError {
    pub module: String,
    pub code: u32,
    pub message: String,
}

/// Errors emitted by the contracts module.
#[derive(Debug, PartialEq, Eq)]
pub enum Error {
    /// The body of a request cannot be read.
    InvalidArgument,
    /// The code is larger than allowed, with its size and the limit.
    CodeTooLarge(u32, u32),
    /// The code does not parse.
    CodeMalformed,
    /// The specified ABI is not supported.
    UnsupportedABI,
    /// The code lacks the named required export.
    CodeMissingRequiredExport(String),
    /// The code declares the named export, which is reserved.
    CodeDeclaresReservedExport(String),
    /// The code declares a start function.
    CodeDeclaresStartFunction,
    /// The code declares more than one memory.
    CodeDeclaresTooManyMemories,
    /// There is no code with the identifier.
    CodeNotFound,
    /// There is no instance with the identifier.
    InstanceNotFound,
    /// The engine refused to load the code.
    ModuleLoadingFailed,
    /// The contract was stopped, with the cause.
    ExecutionFailed(String),
    /// The policy does not allow the action.
    Forbidden,
    /// The function is not supported.
    Unsupported,
    /// The caller holds less than was attached to the call.
    InsufficientCallerBalance,
    /// Messages were emitted too deep in a chain of sub-calls, with the
    /// depth that a sub-call would have and the limit.
    CallDepthExceeded(u16, u16),
    /// The contract returned more bytes than allowed, with their number and
    /// the limit.
    ResultTooLarge(u32, u32),
    /// Too many messages were emitted at once, with their number and the
    /// limit.
    TooManySubcalls(u16, u16),
    /// An error of the metering module.
    Core(CoreError),
    /// An error of the contract's own.
    Contract(ContractError),
}

impl Error {
    /// Numeric code of the error on the wire.
    pub fn code(&self) -> (code: u32)
        ensures
            code == self@.code(),
    {
        match self {
            Error::InvalidArgument => 1,
            Error::CodeTooLarge(_, _) => 2,
            Error::CodeMalformed => 3,
            Error::UnsupportedABI => 4,
            Error::CodeMissingRequiredExport(_) => 5,
            Error::CodeDeclaresReservedExport(_) => 6,
            Error::CodeDeclaresStartFunction => 7,
            Error::CodeDeclaresTooManyMemories => 8,
            Error::CodeNotFound => 9,
            Error::InstanceNotFound => 10,
            Error::ModuleLoadingFailed => 11,
            Error::ExecutionFailed(_) => 12,
            Error::Forbidden => 13,
            Error::Unsupported => 14,
            Error::InsufficientCallerBalance => 15,
            Error::CallDepthExceeded(_, _) => 16,
            Error::ResultTooLarge(_, _) => 17,
            Error::TooManySubcalls(_, _) => 18,
            Error::Core(e) => e.code(),
            Error::Contract(e) => e.code,
        }
    }

    /// Name of the module that the error belongs to.
    pub fn module_name(&self) -> (name: String)
        ensures
            name@ == self@.module_name(),
    {
        match self {
            Error::Core(_) => CORE_MODULE_NAME.to_owned(),
            Error::Contract(e) => e.module.clone(),
            _ => MODULE_NAME.to_owned(),
        }
    }

    /// The result of a call that failed with this error.
    pub fn to_call_result(&self) -> (result: transaction::CallResult)
        ensures
            result@ == self@.call_result(),
    {
        transaction::CallResult::Failed { module: self.module_name(), code: self.code() }
    }
}

/// What an [`Error`] holds.
pub enum ErrorView {
    InvalidArgument,
    CodeTooLarge(u32, u32),
    CodeMalformed,
    UnsupportedABI,
    CodeMissingRequiredExport(Seq<char>),
    CodeDeclaresReservedExport(Seq<char>),
    CodeDeclaresStartFunction,
    CodeDeclaresTooManyMemories,
    CodeNotFound,
    InstanceNotFound,
    ModuleLoadingFailed,
    ExecutionFailed(Seq<char>),
    Forbidden,
    Unsupported,
    InsufficientCallerBalance,
    CallDepthExceeded(u16, u16),
    ResultTooLarge(u32, u32),
    TooManySubcalls(u16, u16),
    Core(CoreError),
    Contract { module: Seq<char>, code: u32, message: Seq<char> },
}

impl ErrorView {
    /// Numeric code of the error on the wire.
    pub open spec fn code(self) -> u32 {
        match self {
            ErrorView::InvalidArgument => 1,
            ErrorView::CodeTooLarge(_, _) => 2,
            ErrorView::CodeMalformed => 3,
            ErrorView::UnsupportedABI => 4,
            ErrorView::CodeMissingRequiredExport(_) => 5,
            ErrorView::CodeDeclaresReservedExport(_) => 6,
            ErrorView::CodeDeclaresStartFunction => 7,
            ErrorView::CodeDeclaresTooManyMemories => 8,
            ErrorView::CodeNotFound => 9,
            ErrorView::InstanceNotFound => 10,
            ErrorView::ModuleLoadingFailed => 11,
            ErrorView::ExecutionFailed(_) => 12,
            ErrorView::Forbidden => 13,
            ErrorView::Unsupported => 14,
            ErrorView::InsufficientCallerBalance => 15,
            ErrorView::CallDepthExceeded(_, _) => 16,
            ErrorView::ResultTooLarge(_, _) => 17,
            ErrorView::TooManySubcalls(_, _) => 18,
            ErrorView::Core(e) => e.spec_code(),
            ErrorView::Contract { module, code, message } => code,
        }
    }

    /// Name of the module that the error belongs to.
    pub open spec fn module_name(self) -> Seq<char> {
        match self {
            ErrorView::Core(_) => CORE_MODULE_NAME@,
            ErrorView::Contract { module, code, message } => module,
            _ => MODULE_NAME@,
        }
    }

    /// The result of a call that failed with the error: the module and the
    /// code of the error.
    pub open spec fn call_result(self) -> transaction::CallResultView {
        transaction::CallResultView::Failed { module: self.module_name(), code: self.code() }
    }
}

impl View for Error {
    type V = ErrorView;

    open spec fn view(&self) -> ErrorView {
        match self {
            Error::InvalidArgument => ErrorView::InvalidArgument,
            Error::CodeTooLarge(size, max) => ErrorView::CodeTooLarge(*size, *max),
            Error::CodeMalformed => ErrorView::CodeMalformed,
            Error::UnsupportedABI => ErrorView::UnsupportedABI,
            Error::CodeMissingRequiredExport(name) => ErrorView::CodeMissingRequiredExport(name@),
            Error::CodeDeclaresReservedExport(name) => ErrorView::CodeDeclaresReservedExport(
                name@,
            ),
            Error::CodeDeclaresStartFunction => ErrorView::CodeDeclaresStartFunction,
            Error::CodeDeclaresTooManyMemories => ErrorView::CodeDeclaresTooManyMemories,
            Error::CodeNotFound => ErrorView::CodeNotFound,
            Error::InstanceNotFound => ErrorView::InstanceNotFound,
            Error::ModuleLoadingFailed => ErrorView::ModuleLoadingFailed,
            Error::ExecutionFailed(cause) => ErrorView::ExecutionFailed(cause@),
            Error::Forbidden => ErrorView::Forbidden,
            Error::Unsupported => ErrorView::Unsupported,
            Error::InsufficientCallerBalance => ErrorView::InsufficientCallerBalance,
            Error::CallDepthExceeded(depth, max) => ErrorView::CallDepthExceeded(*depth, *max),
            Error::ResultTooLarge(size, max) => ErrorView::ResultTooLarge(*size, *max),
            Error::TooManySubcalls(count, max) => ErrorView::TooManySubcalls(*count, *max),
            Error::Core(e) => ErrorView::Core(*e),
            Error::Contract(e) => ErrorView::Contract {
                module: e.module@,
                code: e.code,
                message: e.message@,
            },
        }
    }
}

/// Events emitted by the contracts module. There are none: the one variant
/// holds a value of a type without values, so that no event can be built.
#[derive(Debug)]
pub enum Event {
    Never(core::convert::Infallible),
}

/// Gas costs.
#[derive(Clone, Copy, Debug, PartialEq, Eq, Structural)]
pub struct GasCosts {
    pub tx_upload: u64,
    pub tx_upload_per_byte: u64,
    pub tx_instantiate: u64,
    pub tx_call: u64,
    pub tx_upgrade: u64,
    pub subcall_dispatch: u64,
    pub wasm_storage_get_base: u64,
    pub wasm_storage_insert_base: u64,
    pub wasm_storage_remove_base: u64,
}

impl Default for GasCosts {
    fn default() -> (costs: GasCosts)
        ensures
            costs == (GasCosts {
                tx_upload: 0,
                tx_upload_per_byte: 0,
                tx_instantiate: 0,
                tx_call: 0,
                tx_upgrade: 0,
                subcall_dispatch: 100,
                wasm_storage_get_base: 10,
                wasm_storage_insert_base: 10,
                wasm_storage_remove_base: 10,
            }),
    {
        GasCosts {
            tx_upload: 0,
            tx_upload_per_byte: 0,
            tx_instantiate: 0,
            tx_call: 0,
            tx_upgrade: 0,
            subcall_dispatch: 100,
            wasm_storage_get_base: 10,
            wasm_storage_insert_base: 10,
            wasm_storage_remove_base: 10,
        }
    }
}

/// Parameters for the contracts module.
#[derive(Clone, Copy, Debug, PartialEq, Eq, Structural)]
pub struct Parameters {
    pub max_code_size: u32,
    pub max_stack_size: u32,
    pub max_memory_pages: u32,
    pub max_subcall_depth: u16,
    pub max_subcall_count: u16,
    pub max_result_size_bytes: u32,
    pub gas_costs: GasCosts,
}

impl Parameters {
    /// The parameters that hold where none are set.
    pub open spec fn spec_default() -> Parameters {
        Parameters {
            max_code_size: 262144,
            max_stack_size: 61440,
            max_memory_pages: 20,
            max_subcall_depth: 8,
            max_subcall_count: 16,
            max_result_size_bytes: 1024,
            gas_costs: GasCosts {
                tx_upload: 0,
                tx_upload_per_byte: 0,
                tx_instantiate: 0,
                tx_call: 0,
                tx_upgrade: 0,
                subcall_dispatch: 100,
                wasm_storage_get_base: 10,
                wasm_storage_insert_base: 10,
                wasm_storage_remove_base: 10,
            },
        }
    }
}

impl Default for Parameters {
    fn default() -> (params: Parameters)
        ensures
            params == Parameters::spec_default(),
    {
        Parameters {
            max_code_size: 256 * 1024,
            max_stack_size: 60 * 1024,
            max_memory_pages: 20,
            max_subcall_depth: 8,
            max_subcall_count: 16,
            max_result_size_bytes: 1024,
            gas_costs: GasCosts::default(),
        }
    }
}

/// Genesis state for the contracts module.
#[derive(Clone, Copy, Debug, PartialEq, Eq, Structural)]
pub struct Genesis {
    pub parameters: Parameters,
}

impl Default for Genesis {
    fn default() -> (genesis: Genesis)
        ensures
            genesis.parameters == Parameters::spec_default(),
    {
        Genesis { parameters: Parameters::default() }
    }
}

/// Interface that can be called from other modules.
pub trait API {

}

} // verus!
