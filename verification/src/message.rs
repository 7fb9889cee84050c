//! Messages that contracts emit and the replies they receive.
use vstd::prelude::*;
use crate::value::{Value, ValueView};

verus! {

/// Specifies when the emitting contract wants to be notified of a reply.
#[derive(Clone, Copy, Debug, PartialEq, Eq, Structural)]
pub enum NotifyReply {
    Never,
    OnError,
    OnSuccess,
    Always,
}

impl NotifyReply {
    /// Whether a sub-call that ended with the given success bit passes this
    /// filter.
    pub open spec fn selects(self, success: bool) -> bool {
        match self {
            NotifyReply::Never => false,
            NotifyReply::OnError => !success,
            NotifyReply::OnSuccess => success,
            NotifyReply::Always => true,
        }
    }

    /// Decides whether a reply is delivered for a sub-call that ended with
    /// the given success bit.
    pub fn wants_reply(self, success: bool) -> (deliver: bool)
        ensures
            deliver == self.selects(success),
    {
        match self {
            NotifyReply::Never => false,
            NotifyReply::OnError => !success,
            NotifyReply::OnSuccess => success,
            NotifyReply::Always => true,
        }
    }

    /// The number that stands for the filter on the wire.
    pub open spec fn spec_number(self) -> u64 {
        match self {
            NotifyReply::Never => 0,
            NotifyReply::OnError => 1,
            NotifyReply::OnSuccess => 2,
            NotifyReply::Always => 3,
        }
    }
}

/// Messages can be emitted by contracts and are processed after the contract
/// execution completes.
#[derive(Debug, PartialEq, Eq)]
pub enum Message {
    /// Calls an arbitrary runtime method handler in a child context with an
    /// optional gas limit.
    ///
    /// The call is executed in the context of the smart contract as the
    /// caller within the same transaction.
    Call { id: u64, reply: NotifyReply, method: String, body: Value, max_gas: Option<u64> },
}

/// What a [`Message`] holds.
pub enum MessageView {
    Call { id: u64, reply: NotifyReply, method: Seq<char>, body: ValueView, max_gas: Option<u64> },
}

impl View for Message {
    type V = MessageView;

    open spec fn view(&self) -> MessageView {
        match self {
            Message::Call { id, reply, method, body, max_gas } => MessageView::Call {
                id: *id,
                reply: *reply,
                method: method@,
                body: body@,
                max_gas: *max_gas,
            },
        }
    }
}

/// What a list of messages holds.
pub open spec fn messages_view(messages: Seq<Message>) -> Seq<MessageView> {
    Seq::new(messages.len(), |i: int| messages[i]@)
}

/// Call result.
#[derive(Debug, PartialEq, Eq)]
pub enum CallResult {
    Success(Value),
    Failed { module: String, code: u32 },
}

/// What a [`CallResult`] holds.
pub enum CallResultView {
    Success(ValueView),
    Failed { module: Seq<char>, code: u32 },
}

impl View for CallResult {
    type V = CallResultView;

    open spec fn view(&self) -> CallResultView {
        match self {
            CallResult::Success(value) => CallResultView::Success(value@),
            CallResult::Failed { module, code } => CallResultView::Failed {
                module: module@,
                code: *code,
            },
        }
    }
}

impl CallResult {
    /// Check whether the call result indicates a successful operation or not.
    pub fn is_success(&self) -> (success: bool)
        ensures
            success == (self is Success),
    {
        match self {
            CallResult::Success(_) => true,
            CallResult::Failed { .. } => false,
        }
    }
}

impl From<crate::transaction::CallResult> for CallResult {
    fn from(r: crate::transaction::CallResult) -> (result: CallResult) {
        match r {
            crate::transaction::CallResult::Success(value) => CallResult::Success(value),
            crate::transaction::CallResult::Failed { module, code } => CallResult::Failed {
                module,
                code,
            },
        }
    }
}

impl vstd::std_specs::convert::FromSpecImpl<crate::transaction::CallResult> for CallResult {
    open spec fn obeys_from_spec() -> bool {
        true
    }

    open spec fn from_spec(r: crate::transaction::CallResult) -> CallResult {
        match r {
            crate::transaction::CallResult::Success(value) => CallResult::Success(value),
            crate::transaction::CallResult::Failed { module, code } => CallResult::Failed {
                module,
                code,
            },
        }
    }
}

/// Replies to delivered messages.
#[derive(Debug, PartialEq, Eq)]
pub enum Reply {
    /// Reply from a call message.
    Call { id: u64, result: CallResult },
}

/// What a [`Reply`] holds.
pub enum ReplyView {
    Call { id: u64, result: CallResultView },
}

impl View for Reply {
    type V = ReplyView;

    open spec fn view(&self) -> ReplyView {
        match self {
            Reply::Call { id, result } => ReplyView::Call { id: *id, result: result@ },
        }
    }
}

} // verus!
