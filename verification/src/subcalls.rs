//! Processing of execution results: the messages that a contract emitted
//! are carried out one after the other, each in a child context, and the
//! replies that the contract asked for are handed back to it.
//!
//! The work outside this module (dispatching a call, running the contract's
//! reply handler) is done by the caller between the steps: each step says
//! what is to be done next, and the caller hands in what came of it.
use vstd::prelude::*;
use crate::context::{is_child_of, Context};
use crate::execution::ExecutionOk;
use crate::gas::{saturating_mul, spec_saturating_mul};
use crate::message::{
    messages_view, CallResultView, Message, MessageView, NotifyReply, Reply, ReplyView,
};
use crate::transaction;
use crate::types::{instance_address, Instance};
use crate::value::{Value, ValueView};
use crate::{CoreError, Error, Parameters};

verus! {

/// The gas charged for dispatching `count` messages.
pub open spec fn dispatch_cost(params: Parameters, count: nat) -> u64 {
    if count > u64::MAX {
        u64::MAX
    } else {
        spec_saturating_mul(params.gas_costs.subcall_dispatch, count as u64)
    }
}

/// The gas charged for dispatching messages is the cost of one dispatch for
/// each message, as long as that fits in 64 bits.
pub proof fn lemma_dispatch_cost(params: Parameters, count: nat)
    requires
        count <= u64::MAX,
        params.gas_costs.subcall_dispatch * count <= u64::MAX,
    ensures
        dispatch_cost(params, count) == params.gas_costs.subcall_dispatch * count,
{
}

/// Whether a result with `count` messages is admitted at the given depth
/// with the given gas left: the depth is checked first, then the gas for
/// dispatching the messages is charged, then the number of messages is
/// checked.
pub open spec fn admission(depth: u16, remaining: int, params: Parameters, count: nat) -> Result<
    (),
    Error,
> {
    if count > 0 && depth >= params.max_subcall_depth {
        Err(Error::CallDepthExceeded((depth + 1) as u16, params.max_subcall_depth))
    } else if dispatch_cost(params, count) > remaining {
        Err(Error::Core(CoreError::OutOfGas))
    } else if count > u16::MAX {
        Err(Error::TooManySubcalls(u16::MAX, params.max_subcall_count))
    } else if count > params.max_subcall_count {
        Err(Error::TooManySubcalls(count as u16, params.max_subcall_count))
    } else {
        Ok(())
    }
}

/// The gas that is charged where a result is refused: nothing where the
/// depth is exceeded or the gas does not cover the dispatch, and the cost
/// of the dispatch where there are too many messages, since the messages
/// are counted after the dispatch is charged.
pub open spec fn refusal_charge(error: Error, params: Parameters, count: nat) -> int {
    if error is TooManySubcalls {
        dispatch_cost(params, count) as int
    } else {
        0
    }
}

/// The gas that a child may use: what the message allows, and never more
/// than is left.
pub open spec fn allowance(max_gas: Option<u64>, remaining: u64) -> u64 {
    match max_gas {
        Some(gas) => if gas > remaining {
            remaining
        } else {
            gas
        },
        None => remaining,
    }
}

/// The gas that the parent is charged for a child: what the child was
/// allowed less what it has left.
pub open spec fn child_charge(allowed: u64, child_remaining: int) -> u64 {
    if child_remaining >= allowed {
        0
    } else {
        (allowed - child_remaining) as u64
    }
}

/// An execution result under processing: the data to return and the
/// messages that are still to be dispatched, in the order of emission.
#[derive(Debug, PartialEq, Eq)]
pub struct Level {
    pub data: Vec<u8>,
    pub pending: Vec<Message>,
}

/// What a [`Level`] holds.
pub struct LevelView {
    pub data: Seq<u8>,
    pub pending: Seq<MessageView>,
}

impl View for Level {
    type V = LevelView;

    open spec fn view(&self) -> LevelView {
        LevelView { data: self.data@, pending: messages_view(self.pending@) }
    }
}

/// What a stack of levels holds.
pub open spec fn levels_view(levels: Seq<Level>) -> Seq<LevelView> {
    Seq::new(levels.len(), |i: int| levels[i]@)
}

/// What a [`Frames`] holds.
pub struct FramesView {
    /// The contract whose messages are processed.
    pub contract: Instance,
    /// The call depth at which the contract runs.
    pub depth: u16,
    /// The execution results under processing: the contract's own result
    /// first, then the result of each reply handler that is being processed.
    pub levels: Seq<LevelView>,
}

/// The execution results of one contract invocation that are under
/// processing.
pub struct Frames {
    contract: Instance,
    depth: u16,
    levels: Vec<Level>,
}

impl View for Frames {
    type V = FramesView;

    closed spec fn view(&self) -> FramesView {
        FramesView {
            contract: self.contract,
            depth: self.depth,
            levels: levels_view(self.levels@),
        }
    }
}

impl Frames {
    #[verifier::type_invariant]
    spec fn well_formed(self) -> bool {
        self.depth < u16::MAX && self.levels@.len() > 0
    }
}

/// A dispatched call that has not returned yet.
pub struct PendingCall {
    frames: Frames,
    id: u64,
    reply: NotifyReply,
    max_gas: u64,
}

/// What a [`PendingCall`] holds.
pub struct PendingCallView {
    pub frames: FramesView,
    /// The identifier that the contract gave the message.
    pub id: u64,
    /// When the contract wants a reply.
    pub reply: NotifyReply,
    /// The gas that the call was allowed.
    pub max_gas: u64,
}

impl View for PendingCall {
    type V = PendingCallView;

    closed spec fn view(&self) -> PendingCallView {
        PendingCallView {
            frames: self.frames@,
            id: self.id,
            reply: self.reply,
            max_gas: self.max_gas,
        }
    }
}

/// A reply that the contract has not handled yet.
pub struct PendingReply {
    frames: Frames,
}

impl View for PendingReply {
    type V = FramesView;

    closed spec fn view(&self) -> FramesView {
        self.frames@
    }
}

/// A call to dispatch in a child context.
pub struct ChildCall {
    /// The child context in which the call runs.
    pub ctx: Context,
    /// The method to call.
    pub method: String,
    /// The body of the call.
    pub body: Value,
}

/// What is to be done next.
pub enum Step {
    /// Dispatch the call in its child context, then hand the context and the
    /// result to [`PendingCall::finish`].
    Call(PendingCall, ChildCall),
    /// Run the contract's reply handler on the reply, then hand what it
    /// returned to [`PendingReply::finish`].
    Reply(PendingReply, Reply),
    /// Nothing: all messages are processed and this is the data to return.
    Done(Vec<u8>),
}

/// What a [`Step`] asks for.
pub enum StepView {
    Call {
        frames: FramesView,
        id: u64,
        reply: NotifyReply,
        max_gas: u64,
        method: Seq<char>,
        body: ValueView,
    },
    Reply { frames: FramesView, delivery: ReplyView },
    Done(Seq<u8>),
}

impl Step {
    /// What the step asks for. The child context of a call is left out.
    pub open spec fn view(self) -> StepView {
        match self {
            Step::Call(pending, call) => StepView::Call {
                frames: pending@.frames,
                id: pending@.id,
                reply: pending@.reply,
                max_gas: pending@.max_gas,
                method: call.method@,
                body: call.body@,
            },
            Step::Reply(pending, reply) => StepView::Reply { frames: pending@, delivery: reply@ },
            Step::Done(data) => StepView::Done(data@),
        }
    }

    /// Whether the child context of a call, where the step is one, is a
    /// fresh child of `parent` that runs on behalf of the contract, one level
    /// deeper, with the gas that the call was allowed.
    pub open spec fn child_is_fresh(self, parent: Context) -> bool {
        match self {
            Step::Call(pending, call) => {
                &&& call.ctx.caller@ == instance_address(pending@.frames.contract.id)
                &&& is_child_of(
                    call.ctx,
                    parent,
                    call.ctx.caller,
                    pending@.max_gas,
                    (pending@.frames.depth + 1) as u16,
                )
            },
            _ => true,
        }
    }
}

/// The levels after every finished level but the first has handed its data
/// to the level below it: data that is not empty takes the place of the data
/// below, empty data leaves it.
pub open spec fn unwind(levels: Seq<LevelView>) -> Seq<LevelView>
    decreases levels.len(),
{
    if levels.len() <= 1 || levels.last().pending.len() > 0 {
        levels
    } else {
        let done = levels.last();
        let below = levels[levels.len() - 2];
        let below = if done.data.len() > 0 {
            LevelView { data: done.data, pending: below.pending }
        } else {
            below
        };
        unwind(levels.take(levels.len() - 2).push(below))
    }
}

/// The next step for the given levels with the given gas left: the first
/// pending message of the innermost unfinished level is dispatched; where no
/// level has a pending message, the data of the first level is returned.
pub open spec fn next_step(frames: FramesView, remaining: u64) -> StepView {
    let levels = unwind(frames.levels);
    if levels.len() == 0 {
        StepView::Done(Seq::empty())
    } else if levels.last().pending.len() == 0 {
        StepView::Done(levels.last().data)
    } else {
        let top = levels.last();
        match top.pending[0] {
            MessageView::Call { id, reply, method, body, max_gas } => StepView::Call {
                frames: FramesView {
                    contract: frames.contract,
                    depth: frames.depth,
                    levels: levels.drop_last().push(
                        LevelView { data: top.data, pending: top.pending.drop_first() },
                    ),
                },
                id,
                reply,
                max_gas: allowance(max_gas, remaining),
                method,
                body,
            },
        }
    }
}

/// The step after a call has returned with any result but that the gas ran
/// out: where the contract asked to hear of such an outcome, the reply is
/// delivered; otherwise processing goes on.
pub open spec fn step_after_call(
    pending: PendingCallView,
    result: transaction::CallResultView,
    remaining: u64,
) -> StepView {
    if pending.reply.selects(result is Success) {
        StepView::Reply {
            frames: pending.frames,
            delivery: ReplyView::Call {
                id: pending.id,
                result: match result {
                    transaction::CallResultView::Success(value) => CallResultView::Success(value),
                    transaction::CallResultView::Failed { module, code } => CallResultView::Failed {
                        module,
                        code,
                    },
                },
            },
        }
    } else {
        next_step(pending.frames, remaining)
    }
}

/// The frames with the result of a reply handler on top.
pub open spec fn with_level(frames: FramesView, data: Seq<u8>, pending: Seq<MessageView>)
    -> FramesView {
    FramesView {
        contract: frames.contract,
        depth: frames.depth,
        levels: frames.levels.push(LevelView { data, pending }),
    }
}

/// Whether two contexts differ in nothing but the gas used.
pub open spec fn same_but_gas(before: Context, after: Context) -> bool {
    &&& after.caller == before.caller
    &&& after.check_only == before.check_only
    &&& after.expensive_queries == before.expensive_queries
    &&& after.depth == before.depth
    &&& after.gas.limit() == before.gas.limit()
    &&& after.state == before.state
    &&& after.tags == before.tags
    &&& after.messages == before.messages
}

/// Checks whether `count` messages are admitted at `depth` and charges the
/// gas for dispatching them.
fn check_admission(ctx: &mut Context, params: &Parameters, depth: u16, count: usize) -> (result: Result<
    (),
    Error,
>)
    requires
        depth < u16::MAX || count == 0,
    ensures
        result == admission(depth, old(ctx).gas.remaining(), *params, count as nat),
        same_but_gas(*old(ctx), *final(ctx)),
        count > 0 && depth >= params.max_subcall_depth ==> final(ctx).gas.used() == old(
            ctx,
        ).gas.used(),
        !(count > 0 && depth >= params.max_subcall_depth) && dispatch_cost(*params, count as nat)
            <= old(ctx).gas.remaining() ==> final(ctx).gas.used() == old(ctx).gas.used()
            + dispatch_cost(*params, count as nat),
        dispatch_cost(*params, count as nat) > old(ctx).gas.remaining() ==> final(ctx).gas.used()
            == old(ctx).gas.used(),
{
    if count > 0 && depth >= params.max_subcall_depth {
        return Err(Error::CallDepthExceeded(depth + 1, params.max_subcall_depth));
    }
    let cost = saturating_mul(params.gas_costs.subcall_dispatch, count as u64);
    match ctx.gas.use_gas(cost) {
        Err(e) => {
            return Err(Error::Core(e));
        },
        Ok(()) => {},
    }
    if count > u16::MAX as usize {
        return Err(Error::TooManySubcalls(u16::MAX, params.max_subcall_count));
    }
    let message_count: u16 = count as u16;
    if message_count > params.max_subcall_count {
        return Err(Error::TooManySubcalls(message_count, params.max_subcall_count));
    }
    Ok(())
}

/// Finds the next step: finished levels hand their data down, and the first
/// pending message of the innermost unfinished level is made ready for
/// dispatch in a fresh child context.
fn advance(frames: Frames, ctx: &Context) -> (step: Step)
    ensures
        step@ == next_step(frames@, ctx.gas.remaining() as u64),
        step.child_is_fresh(*ctx),
{
    proof {
        use_type_invariant(&frames);
    }
    let remaining = ctx.gas.remaining_gas();
    let ghost target = next_step(frames@, remaining);
    let Frames { contract, depth, levels } = frames;
    let mut levels = levels;
    loop
        invariant
            levels@.len() > 0,
            depth < u16::MAX,
            remaining == ctx.gas.remaining(),
            target == next_step(frames@, remaining),
            next_step(
                FramesView { contract, depth, levels: levels_view(levels@) },
                remaining,
            ) == target,
        decreases levels@.len(),
    {
        let ghost before = levels_view(levels@);
        assert(next_step(FramesView { contract, depth, levels: before }, remaining) == target);
        let n: usize = levels.len();
        let mut top = levels.pop().unwrap();
        assert(top@ == before.last());
        assert(levels_view(levels@) =~= before.drop_last());
        if top.pending.len() > 0 {
            let ghost pending_before = messages_view(top.pending@);
            let message = top.pending.remove(0);
            assert(messages_view(top.pending@) =~= pending_before.drop_first());
            assert(message@ == pending_before[0]);
            levels.push(top);
            assert(levels_view(levels@) =~= before.drop_last().push(
                LevelView { data: before.last().data, pending: pending_before.drop_first() },
            ));
            assert(unwind(before) == before);
            assert(before.last().pending.len() > 0);
            match message {
                Message::Call { id, reply, method, body, max_gas } => {
                    let max_gas: u64 = match max_gas {
                        Some(gas) => if gas > remaining {
                            remaining
                        } else {
                            gas
                        },
                        None => remaining,
                    };
                    let caller = Instance::address_for(contract.id);
                    let child = ctx.with_child(caller, max_gas, depth + 1);
                    let frames = Frames { contract, depth, levels };
                    return Step::Call(
                        PendingCall { frames, id, reply, max_gas },
                        ChildCall { ctx: child, method, body },
                    );
                },
            }
        }
        if n == 1 {
            assert(unwind(before) == before);
            assert(before.last().pending.len() == 0);
            return Step::Done(top.data);
        }
        let mut below = levels.pop().unwrap();
        assert(below@ == before[n - 2]);
        assert(levels_view(levels@) =~= before.take(n - 2));
        if top.data.len() > 0 {
            below.data = top.data;
        }
        levels.push(below);
        proof {
            let below_view = if before.last().data.len() > 0 {
                LevelView { data: before.last().data, pending: before[n - 2].pending }
            } else {
                before[n - 2]
            };
            assert(levels_view(levels@) =~= before.take(n - 2).push(below_view));
            assert(unwind(before) == unwind(before.take(n - 2).push(below_view)));
        }
    }
}

/// Processes the result of a contract execution: checks that its messages
/// are admitted, charges the gas for dispatching them and says what is to be
/// done first.
///
/// Where the result has messages, the depth of the context has to be below
/// the largest depth there is, so that the depth of a child can be told.
pub fn process_execution_result(
    ctx: &mut Context,
    params: &Parameters,
    contract: &crate::wasm::Contract,
    result: ExecutionOk,
) -> (outcome: Result<Step, Error>)
    requires
        old(ctx).depth < u16::MAX || result.messages@.len() == 0,
    ensures
        same_but_gas(*old(ctx), *final(ctx)),
        admission(
            old(ctx).depth,
            old(ctx).gas.remaining(),
            *params,
            result.messages@.len(),
        ) matches Err(e) ==> outcome == Err::<Step, Error>(e),
        admission(
            old(ctx).depth,
            old(ctx).gas.remaining(),
            *params,
            result.messages@.len(),
        ) matches Err(e) ==> final(ctx).gas.used() == old(ctx).gas.used() + refusal_charge(
            e,
            *params,
            result.messages@.len(),
        ),
        admission(old(ctx).depth, old(ctx).gas.remaining(), *params, result.messages@.len())
            is Ok ==> final(ctx).gas.used() == old(ctx).gas.used() + dispatch_cost(
            *params,
            result.messages@.len(),
        ) && (outcome matches Ok(step) && step@ == next_step(
            FramesView {
                contract: contract.instance_info,
                depth: old(ctx).depth,
                levels: seq![result@.into_level()],
            },
            final(ctx).gas.remaining() as u64,
        ) && step.child_is_fresh(*final(ctx))),
{
    let depth = ctx.depth;
    match check_admission(ctx, params, depth, result.messages.len()) {
        Err(e) => {
            return Err(e);
        },
        Ok(()) => {},
    }
    let ExecutionOk { data, messages } = result;
    if messages.len() == 0 {
        proof {
            let level = LevelView { data: data@, pending: messages_view(messages@) };
            assert(unwind(seq![level]) == seq![level]);
        }
        return Ok(Step::Done(data));
    }
    let mut levels: Vec<Level> = Vec::new();
    levels.push(Level { data, pending: messages });
    assert(levels_view(levels@) =~= seq![result@.into_level()]);
    let frames = Frames { contract: contract.instance_info, depth, levels };
    Ok(advance(frames, ctx))
}

impl PendingCall {
    /// Takes the outcome of the dispatched call: what the child context
    /// holds after the call, and the result of the call.
    ///
    /// Where the call succeeded, the child's state takes the place of the
    /// parent's and the tags and runtime messages of the child are forwarded.
    /// Where it failed, all three are dropped. Either way the parent is
    /// charged the gas that the child used of what it was allowed.
    ///
    /// A call that ran out of gas ends the processing: running out of gas is
    /// not recovered from, so no reply is delivered for it and no further
    /// message is dispatched.
    pub fn finish(
        self,
        ctx: &mut Context,
        child: Context,
        result: transaction::CallResult,
    ) -> (outcome: Result<Step, Error>)
        ensures
            final(ctx).caller == old(ctx).caller,
            final(ctx).check_only == old(ctx).check_only,
            final(ctx).expensive_queries == old(ctx).expensive_queries,
            final(ctx).depth == old(ctx).depth,
            final(ctx).gas.limit() == old(ctx).gas.limit(),
            result is Success ==> final(ctx).state@ == child.state@,
            !(result is Success) ==> final(ctx).state@ == old(ctx).state@ && final(ctx).tags@
                == old(ctx).tags@ && final(ctx).messages@ == old(ctx).messages@,
            child_charge(self@.max_gas, child.gas.remaining()) > old(ctx).gas.remaining() ==> {
                &&& outcome == Err::<Step, Error>(Error::Core(CoreError::OutOfGas))
                &&& final(ctx).gas.used() == old(ctx).gas.used()
                &&& final(ctx).tags@ == old(ctx).tags@
                &&& final(ctx).messages@ == old(ctx).messages@
            },
            result@.is_out_of_gas() ==> outcome == Err::<Step, Error>(
                Error::Core(CoreError::OutOfGas),
            ),
            child_charge(self@.max_gas, child.gas.remaining()) <= old(ctx).gas.remaining() ==> {
                &&& final(ctx).gas.used() == old(ctx).gas.used() + child_charge(
                    self@.max_gas,
                    child.gas.remaining(),
                )
                &&& result is Success ==> final(ctx).tags@ == old(ctx).tags@ + child.tags@
                    && final(ctx).messages@ == old(ctx).messages@ + child.messages@
                &&& !result@.is_out_of_gas() ==> (outcome matches Ok(step) && step@
                    == step_after_call(self@, result@, final(ctx).gas.remaining() as u64)
                    && step.child_is_fresh(*final(ctx)))
            },
    {
        let PendingCall { frames, id, reply, max_gas } = self;
        let gas = child.gas.remaining_gas();
        let success = result.is_success();
        let Context { state, tags, messages, .. } = child;
        let mut tags = tags;
        let mut messages = messages;
        if success {
            ctx.state = state;
        }
        let charge: u64 = if gas >= max_gas {
            0
        } else {
            max_gas - gas
        };
        match ctx.gas.use_gas(charge) {
            Err(e) => {
                return Err(Error::Core(e));
            },
            Ok(()) => {},
        }
        if success {
            ctx.tags.append(&mut tags);
            ctx.messages.append(&mut messages);
        }
        if result.is_out_of_gas() {
            // Out of gas is never recovered from.
            return Err(Error::Core(CoreError::OutOfGas));
        }
        if reply.wants_reply(success) {
            let result = match result {
                transaction::CallResult::Success(value) => crate::message::CallResult::Success(
                    value,
                ),
                transaction::CallResult::Failed { module, code } => crate::message::CallResult::Failed {
                    module,
                    code,
                },
            };
            Ok(Step::Reply(PendingReply { frames }, Reply::Call { id, result }))
        } else {
            Ok(advance(frames, ctx))
        }
    }
}

impl PendingReply {
    /// Takes what the contract's reply handler returned. An error ends the
    /// processing. A result is processed like the contract's own: it is
    /// checked and charged for, its messages are dispatched first, and its
    /// data, where it is not empty, takes the place of the data that was to
    /// be returned.
    pub fn finish(
        self,
        ctx: &mut Context,
        params: &Parameters,
        result: Result<ExecutionOk, Error>,
    ) -> (outcome: Result<Step, Error>)
        ensures
            same_but_gas(*old(ctx), *final(ctx)),
            result matches Err(e) ==> outcome == Err::<Step, Error>(e) && final(ctx).gas.used()
                == old(ctx).gas.used(),
            result matches Ok(reply_result) ==> {
                &&& admission(
                    self@.depth,
                    old(ctx).gas.remaining(),
                    *params,
                    reply_result.messages@.len(),
                ) matches Err(e) ==> outcome == Err::<Step, Error>(e) && final(ctx).gas.used()
                    == old(ctx).gas.used() + refusal_charge(
                    e,
                    *params,
                    reply_result.messages@.len(),
                )
                &&& admission(
                    self@.depth,
                    old(ctx).gas.remaining(),
                    *params,
                    reply_result.messages@.len(),
                ) is Ok ==> final(ctx).gas.used() == old(ctx).gas.used() + dispatch_cost(
                    *params,
                    reply_result.messages@.len(),
                ) && (outcome matches Ok(step) && step@ == next_step(
                    with_level(self@, reply_result@.data, reply_result@.messages),
                    final(ctx).gas.remaining() as u64,
                ) && step.child_is_fresh(*final(ctx)))
            },
    {
        let PendingReply { frames } = self;
        proof {
            use_type_invariant(&frames);
        }
        let reply_result = match result {
            Err(e) => {
                return Err(e);
            },
            Ok(reply_result) => reply_result,
        };
        let Frames { contract, depth, levels } = frames;
        let mut levels = levels;
        match check_admission(ctx, params, depth, reply_result.messages.len()) {
            Err(e) => {
                return Err(e);
            },
            Ok(()) => {},
        }
        let ghost before = levels_view(levels@);
        let ExecutionOk { data, messages } = reply_result;
        levels.push(Level { data, pending: messages });
        assert(levels_view(levels@) =~= before.push(
            LevelView { data: data@, pending: messages_view(messages@) },
        ));
        let frames = Frames { contract, depth, levels };
        Ok(advance(frames, ctx))
    }
}

} // verus!
