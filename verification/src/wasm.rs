//! The contract that an invocation runs, what is handed to it and what is
//! made of what it returns.
use vstd::prelude::*;
use crate::codec::DecodeError;
use crate::context::Context;
use crate::execution::{Envelope, EnvelopeView, Payload, PayloadView};
use crate::execution::{ExecutionOk, ExecutionResult, ExecutionResultView};
use crate::message::Reply;
use crate::token::{tokens_view, BaseUnits};
use crate::types::{Code, Instance};
use crate::value::{Value, ValueView};
use crate::{ContractError, CoreError, Error, ErrorView, Parameters};

verus! {

/// Everything needed to run a contract: the stored code, its information
/// and the instance that runs it.
#[derive(Debug, PartialEq, Eq)]
pub struct Contract {
    pub code_info: Code,
    pub code: Vec<u8>,
    pub instance_info: Instance,
}

/// What an invocation failed with before its result could be read.
#[derive(Debug, PartialEq, Eq)]
pub enum Trap {
    /// The engine refused to load the code.
    LoadingFailed,
    /// The gas of the transaction ran out.
    OutOfGas,
    /// The contract was stopped for another cause, such as a division by
    /// zero or a stack overflow.
    Aborted(String),
}

/// What went before a trap.
#[derive(Clone, Copy, Debug, PartialEq, Eq, Structural)]
pub enum Phase {
    /// A region of the contract's memory was being allocated for the
    /// request.
    Allocation,
    /// The entry point was running.
    Execution,
}

/// What is put before the cause of a trap during allocation.
pub const ALLOCATION_FAILED: &'static str = "region allocation failed: ";

/// The error for a result of the given size under the given limit, if it
/// is too large.
pub open spec fn result_size_error(len: nat, max: u32) -> Option<ErrorView> {
    if len > u32::MAX {
        Some(ErrorView::ResultTooLarge(u32::MAX, max))
    } else if len > max {
        Some(ErrorView::ResultTooLarge(len as u32, max))
    } else {
        None
    }
}

/// The error that a trap is surfaced as: code that the engine refused to
/// load and gas that ran out stay what they are, and every other cause makes
/// a failed execution, marked where it happened while a region was
/// allocated.
pub open spec fn trap_error(trap: Trap, phase: Phase) -> ErrorView {
    match trap {
        Trap::LoadingFailed => ErrorView::ModuleLoadingFailed,
        Trap::OutOfGas => ErrorView::Core(CoreError::OutOfGas),
        Trap::Aborted(cause) => match phase {
            Phase::Allocation => ErrorView::ExecutionFailed(ALLOCATION_FAILED@ + cause@),
            Phase::Execution => ErrorView::ExecutionFailed(cause@),
        },
    }
}

/// What the result of an invocation is made of: the number of bytes that
/// the contract returned and the value that they hold, if they hold one. A
/// result that is too large fails as such; bytes that hold no value, or not
/// the result of an execution, make a failed execution; an error of the
/// contract's own is carried verbatim.
pub open spec fn invocation_result(params: Parameters, size: nat, parsed: Option<ValueView>)
    -> Result<crate::execution::ExecutionOkView, ErrorView> {
    if result_size_error(size, params.max_result_size_bytes) is Some {
        Err(result_size_error(size, params.max_result_size_bytes)->Some_0)
    } else {
        match parsed {
            None => Err(ErrorView::ExecutionFailed(DecodeError::ParsingFailed.spec_message())),
            Some(value) => match ExecutionResult::spec_decode(value) {
                Err(e) => Err(ErrorView::ExecutionFailed(e.spec_message())),
                Ok(ExecutionResultView::Success(ok)) => Ok(ok),
                Ok(ExecutionResultView::Failed { module, code, message }) => Err(
                    ErrorView::Contract { module, code, message },
                ),
            },
        }
    }
}

/// Surfaces a trap as an error.
pub fn trap_to_error(trap: Trap, phase: Phase) -> (error: Error)
    ensures
        error@ == trap_error(trap, phase),
{
    match trap {
        Trap::LoadingFailed => Error::ModuleLoadingFailed,
        Trap::OutOfGas => Error::Core(CoreError::OutOfGas),
        Trap::Aborted(cause) => match phase {
            Phase::Allocation => {
                let mut text: String = ALLOCATION_FAILED.to_owned();
                text.append(cause.as_str());
                Error::ExecutionFailed(text)
            },
            Phase::Execution => Error::ExecutionFailed(cause),
        },
    }
}

/// Reads the result of an invocation from the number of bytes that the
/// contract returned and the value that they hold, if they hold one.
pub fn read_result(params: &Parameters, size: usize, parsed: Option<Value>) -> (result: Result<
    ExecutionOk,
    Error,
>)
    ensures
        invocation_result(*params, size as nat, option_value_view(parsed)) matches Ok(ok) ==> (
        result matches Ok(out) && out@ == ok),
        invocation_result(*params, size as nat, option_value_view(parsed)) matches Err(e) ==> (
        result matches Err(err) && err@ == e),
{
    if size > u32::MAX as usize {
        return Err(Error::ResultTooLarge(u32::MAX, params.max_result_size_bytes));
    }
    if size as u32 > params.max_result_size_bytes {
        return Err(Error::ResultTooLarge(size as u32, params.max_result_size_bytes));
    }
    let value = match parsed {
        None => {
            return Err(Error::ExecutionFailed(DecodeError::ParsingFailed.message()));
        },
        Some(value) => value,
    };
    match ExecutionResult::try_from_cbor_value(value) {
        Err(e) => Err(Error::ExecutionFailed(e.message())),
        Ok(ExecutionResult::Success(ok)) => Ok(ok),
        Ok(ExecutionResult::Failed { module, code, message }) => Err(
            Error::Contract(ContractError { module, code, message }),
        ),
    }
}

/// What a value that may be missing holds.
pub open spec fn option_value_view(value: Option<Value>) -> Option<ValueView> {
    match value {
        Some(value) => Some(value@),
        None => None,
    }
}

/// A list of the same amounts.
pub fn duplicate_tokens(tokens: &Vec<BaseUnits>) -> (copy: Vec<BaseUnits>)
    ensures
        tokens_view(copy@) == tokens_view(tokens@),
{
    let mut copy: Vec<BaseUnits> = Vec::new();
    let mut i: usize = 0;
    proof {
        assert(tokens_view(copy@) =~= tokens_view(tokens@).take(0));
    }
    while i < tokens.len()
        invariant
            i <= tokens.len(),
            tokens_view(copy@) == tokens_view(tokens@).take(i as int),
        decreases tokens.len() - i,
    {
        let ghost before = tokens_view(copy@);
        let units = tokens[i].duplicate();
        copy.push(units);
        i += 1;
        proof {
            assert(tokens_view(copy@) =~= before.push(units@));
            assert(tokens_view(copy@) =~= tokens_view(tokens@).take(i as int));
        }
    }
    proof {
        assert(tokens_view(tokens@).take(i as int) =~= tokens_view(tokens@));
    }
    copy
}

impl Contract {
    /// The envelope of a request to the contract: an instantiation or a
    /// call by the caller of the transaction, with the tokens that came with
    /// it.
    pub fn request_envelope(&self, ctx: &Context, tokens: &Vec<BaseUnits>, data: &[u8]) -> (envelope:
        Envelope)
        ensures
            envelope@ == (EnvelopeView {
                caller: ctx.caller@,
                instance: self.instance_info.id,
                tokens_received: tokens_view(tokens@),
                payload: PayloadView::Request(data@),
            }),
    {
        Envelope {
            caller: ctx.tx_caller_address(),
            instance: self.instance_info.id,
            tokens_received: duplicate_tokens(tokens),
            payload: Payload::Request(crate::bytes::copy_bytes(data)),
        }
    }

    /// The envelope of a reply to the contract: no tokens come with it.
    pub fn reply_envelope(&self, ctx: &Context, reply: Reply) -> (envelope: Envelope)
        ensures
            envelope@ == (EnvelopeView {
                caller: ctx.caller@,
                instance: self.instance_info.id,
                tokens_received: Seq::<(u128, Seq<u8>)>::empty(),
                payload: PayloadView::Reply(reply@),
            }),
    {
        let envelope = Envelope {
            caller: ctx.tx_caller_address(),
            instance: self.instance_info.id,
            tokens_received: Vec::new(),
            payload: Payload::Reply(reply),
        };
        assert(tokens_view(envelope.tokens_received@) =~= Seq::<(u128, Seq<u8>)>::empty());
        envelope
    }
}

} // verus!
