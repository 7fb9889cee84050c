//! Results of dispatched transaction calls.
use vstd::prelude::*;
use crate::value::{Value, ValueView};
use crate::{CoreError, CORE_MODULE_NAME};

verus! {

/// Call result.
#[derive(Debug, PartialEq, Eq)]
pub enum CallResult {
    Success(Value),
    Failed { module: String, code: u32 },
}

/// What a [`CallResult`] holds.
pub enum CallResultView {
    Success(ValueView),
    Failed { module: Seq<char>, code: u32 },
}

impl View for CallResult {
    type V = CallResultView;

    open spec fn view(&self) -> CallResultView {
        match self {
            CallResult::Success(value) => CallResultView::Success(value@),
            CallResult::Failed { module, code } => CallResultView::Failed {
                module: module@,
                code: *code,
            },
        }
    }
}

impl CallResultView {
    /// Whether the call failed because the gas ran out: the error of the
    /// metering module that is never recovered from.
    pub open spec fn is_out_of_gas(self) -> bool {
        self == (CallResultView::Failed {
            module: CORE_MODULE_NAME@,
            code: CoreError::OutOfGas.spec_code(),
        })
    }
}

impl CallResult {
    /// Whether the call failed because the gas ran out.
    pub fn is_out_of_gas(&self) -> (out_of_gas: bool)
        ensures
            out_of_gas == self@.is_out_of_gas(),
    {
        match self {
            CallResult::Success(_) => false,
            CallResult::Failed { module, code } => {
                let core: String = CORE_MODULE_NAME.to_owned();
                *code == CoreError::OutOfGas.code() && *module == core
            },
        }
    }

    /// Check whether the call result indicates a successful operation or not.
    pub fn is_success(&self) -> (success: bool)
        ensures
            success == (self is Success),
    {
        match self {
            CallResult::Success(_) => true,
            CallResult::Failed { .. } => false,
        }
    }
}

} // verus!
