//! What a contract returns from an entry point.
use vstd::prelude::*;
use crate::address::Address;
use crate::message::{messages_view, Message, MessageView, Reply, ReplyView};
use crate::token::{tokens_view, BaseUnits};
use crate::types::InstanceId;

verus! {

/// Result of a successful contract execution.
#[derive(Debug, PartialEq, Eq)]
pub struct ExecutionOk {
    /// Raw data returned from the contract.
    pub data: Vec<u8>,
    /// Messages emitted from the contract, in the order of emission.
    pub messages: Vec<Message>,
}

/// What an [`ExecutionOk`] holds.
pub struct ExecutionOkView {
    pub data: Seq<u8>,
    pub messages: Seq<MessageView>,
}

impl ExecutionOkView {
    /// The result as a level of processing: its data, and all its messages
    /// pending.
    pub open spec fn into_level(self) -> crate::subcalls::LevelView {
        crate::subcalls::LevelView { data: self.data, pending: self.messages }
    }
}

impl View for ExecutionOk {
    type V = ExecutionOkView;

    open spec fn view(&self) -> ExecutionOkView {
        ExecutionOkView { data: self.data@, messages: messages_view(self.messages@) }
    }
}

/// Result of a contract execution.
#[derive(Debug, PartialEq, Eq)]
pub enum ExecutionResult {
    /// The contract succeeded.
    Success(ExecutionOk),
    /// The contract failed with an error of its own.
    Failed { module: String, code: u32, message: String },
}

/// What an [`ExecutionResult`] holds.
pub enum ExecutionResultView {
    Success(ExecutionOkView),
    Failed { module: Seq<char>, code: u32, message: Seq<char> },
}

impl View for ExecutionResult {
    type V = ExecutionResultView;

    open spec fn view(&self) -> ExecutionResultView {
        match self {
            ExecutionResult::Success(ok) => ExecutionResultView::Success(ok@),
            ExecutionResult::Failed { module, code, message } => ExecutionResultView::Failed {
                module: module@,
                code: *code,
                message: message@,
            },
        }
    }
}

/// What an entry point is called for.
#[derive(Debug, PartialEq, Eq)]
pub enum Payload {
    /// The arguments of an instantiation or of a call.
    Request(Vec<u8>),
    /// The reply to a message that the contract emitted.
    Reply(Reply),
}

/// What a [`Payload`] holds.
pub enum PayloadView {
    Request(Seq<u8>),
    Reply(ReplyView),
}

impl View for Payload {
    type V = PayloadView;

    open spec fn view(&self) -> PayloadView {
        match self {
            Payload::Request(data) => PayloadView::Request(data@),
            Payload::Reply(reply) => PayloadView::Reply(reply@),
        }
    }
}

/// What is handed to an entry point of a contract: who calls, which
/// instance runs, the tokens that came with the call, and the request or
/// the reply.
#[derive(Debug, PartialEq, Eq)]
pub struct Envelope {
    pub caller: Address,
    pub instance: InstanceId,
    pub tokens_received: Vec<BaseUnits>,
    pub payload: Payload,
}

/// What an [`Envelope`] holds.
pub struct EnvelopeView {
    pub caller: Seq<u8>,
    pub instance: InstanceId,
    pub tokens_received: Seq<(u128, Seq<u8>)>,
    pub payload: PayloadView,
}

impl View for Envelope {
    type V = EnvelopeView;

    open spec fn view(&self) -> EnvelopeView {
        EnvelopeView {
            caller: self.caller@,
            instance: self.instance,
            tokens_received: tokens_view(self.tokens_received@),
            payload: self.payload@,
        }
    }
}

} // verus!
