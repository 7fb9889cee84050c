//! The context in which a transaction runs.
use vstd::prelude::*;
use crate::address::Address;
use crate::gas::GasMeter;
use crate::state::State;

verus! {

/// A tag that a transaction emits.
#[derive(Debug, PartialEq, Eq)]
pub struct Tag {
    pub key: Vec<u8>,
    pub value: Vec<u8>,
}

impl View for Tag {
    type V = (Seq<u8>, Seq<u8>);

    open spec fn view(&self) -> (Seq<u8>, Seq<u8>) {
        (self.key@, self.value@)
    }
}

/// The context of one transaction: who calls, what gas is left, how deep in
/// a chain of sub-calls it runs, the state that it works on, and the tags and
/// runtime messages that it has emitted.
pub struct Context {
    /// The caller of the transaction.
    pub caller: Address,
    /// Whether the transaction is only checked, not executed.
    pub check_only: bool,
    /// Whether a check may do expensive work.
    pub expensive_queries: bool,
    /// The number of sub-calls between the outermost transaction and this
    /// one.
    pub depth: u16,
    /// The gas counter.
    pub gas: GasMeter,
    /// The state that the transaction reads and changes.
    pub state: State,
    /// The tags emitted so far.
    pub tags: Vec<Tag>,
    /// The runtime messages emitted so far.
    pub messages: Vec<Vec<u8>>,
}

impl Context {
    /// The context of an outermost transaction.
    pub fn new(caller: Address, gas_limit: u64, state: State) -> (ctx: Context)
        ensures
            ctx.caller == caller,
            !ctx.check_only,
            !ctx.expensive_queries,
            ctx.depth == 0,
            ctx.gas.limit() == gas_limit,
            ctx.gas.used() == 0,
            ctx.state == state,
            ctx.tags@ == Seq::<Tag>::empty(),
            ctx.messages@ == Seq::<Vec<u8>>::empty(),
    {
        Context {
            caller,
            check_only: false,
            expensive_queries: false,
            depth: 0,
            gas: GasMeter::new(gas_limit),
            state,
            tags: Vec::new(),
            messages: Vec::new(),
        }
    }

    /// The caller of the transaction.
    pub fn tx_caller_address(&self) -> (caller: Address)
        ensures
            caller == self.caller,
    {
        self.caller
    }

    /// Whether the transaction is only checked, not executed.
    pub fn is_check_only(&self) -> (check_only: bool)
        ensures
            check_only == self.check_only,
    {
        self.check_only
    }

    /// Whether a check may do expensive work.
    pub fn are_expensive_queries_allowed(&self) -> (allowed: bool)
        ensures
            allowed == self.expensive_queries,
    {
        self.expensive_queries
    }

    /// Emits a tag.
    pub fn emit_tag(&mut self, tag: Tag)
        ensures
            final(self).tags@ == old(self).tags@.push(tag),
            final(self).caller == old(self).caller,
            final(self).check_only == old(self).check_only,
            final(self).expensive_queries == old(self).expensive_queries,
            final(self).depth == old(self).depth,
            final(self).gas == old(self).gas,
            final(self).state == old(self).state,
            final(self).messages == old(self).messages,
    {
        self.tags.push(tag);
    }

    /// Emits a runtime message.
    pub fn emit_message(&mut self, message: Vec<u8>)
        ensures
            final(self).messages@ == old(self).messages@.push(message),
            final(self).caller == old(self).caller,
            final(self).check_only == old(self).check_only,
            final(self).expensive_queries == old(self).expensive_queries,
            final(self).depth == old(self).depth,
            final(self).gas == old(self).gas,
            final(self).state == old(self).state,
            final(self).tags == old(self).tags,
    {
        self.messages.push(message);
    }
}

/// Whether `child` is a fresh child of `parent`: it runs one level deeper on
/// behalf of `caller` with its own gas limit, starts from the parent's state
/// and has emitted nothing yet.
pub open spec fn is_child_of(
    child: Context,
    parent: Context,
    caller: Address,
    gas_limit: u64,
    depth: u16,
) -> bool {
    &&& child.caller == caller
    &&& child.check_only == parent.check_only
    &&& child.expensive_queries == parent.expensive_queries
    &&& child.depth == depth
    &&& child.gas.limit() == gas_limit
    &&& child.gas.used() == 0
    &&& child.state@ == parent.state@
    &&& child.tags@.len() == 0
    &&& child.messages@.len() == 0
}

impl Context {
    /// Opens a child context for a call made by `caller` at the given depth
    /// under its own gas limit. The child works on a copy of the state, so
    /// that nothing it does is seen here before it is committed.
    pub fn with_child(&self, caller: Address, gas_limit: u64, depth: u16) -> (child: Context)
        ensures
            is_child_of(child, *self, caller, gas_limit, depth),
    {
        Context {
            caller,
            check_only: self.check_only,
            expensive_queries: self.expensive_queries,
            depth,
            gas: GasMeter::new(gas_limit),
            state: self.state.duplicate(),
            tags: Vec::new(),
            messages: Vec::new(),
        }
    }
}

} // verus!
