//! The transactions and queries of the contracts module.
//!
//! A transaction that needs work from outside (validating and instrumenting
//! code, running a contract) is carried out in stages: each stage says what
//! is needed, and the next stage takes what came of it.
use vstd::prelude::*;
use crate::abi::{validate, verdict, ModuleInfo};
use crate::accounts::LedgerView;
use crate::address::Address;
use crate::context::Context;
use crate::crypto::sha512_256;
use crate::gas::{saturating_mul, spec_saturating_mul};
use crate::state::{code_key, StateView};
use crate::token::BaseUnits;
use crate::types::{
    instance_address, Call, Code, CodeId, CodeQuery, CustomQuery, CustomQueryResult, Instance,
    InstanceId, InstanceQuery, InstanceStorageQuery, InstanceStorageQueryResult, Instantiate,
    InstantiateResult, Policy, PublicKeyQuery, PublicKeyQueryResult, Upgrade, Upload,
    UploadResult, ABI,
};
use crate::wasm::Contract;
use crate::{CoreError, Error, ErrorView, Genesis, Parameters};

verus! {

/// The contracts module.
pub struct Module;

/// The error for code of the given length under the given limit, if it is
/// too large.
pub open spec fn size_error(len: nat, max: u32) -> Option<ErrorView> {
    if len > u32::MAX {
        Some(ErrorView::CodeTooLarge(u32::MAX, max))
    } else if len > max {
        Some(ErrorView::CodeTooLarge(len as u32, max))
    } else {
        None
    }
}

/// The gas charged per byte for code of the given length.
pub open spec fn per_byte_cost(params: Parameters, len: nat) -> u64 {
    if len > u64::MAX {
        u64::MAX
    } else {
        spec_saturating_mul(params.gas_costs.tx_upload_per_byte, len as u64)
    }
}

/// Whether only fast checks are allowed in the context.
pub open spec fn fast_check_only(ctx: Context) -> bool {
    ctx.check_only && !ctx.expensive_queries
}

/// Whether two contexts differ in nothing but the gas used and the state.
pub open spec fn same_but_gas_and_state(before: Context, after: Context) -> bool {
    &&& after.caller == before.caller
    &&& after.check_only == before.check_only
    &&& after.expensive_queries == before.expensive_queries
    &&& after.depth == before.depth
    &&& after.gas.limit() == before.gas.limit()
    &&& after.tags == before.tags
    &&& after.messages == before.messages
}

/// Checks code of the given length against the limit.
fn check_code_size(len: usize, max: u32) -> (result: Result<u32, Error>)
    ensures
        size_error(len as nat, max) is None ==> result == Ok::<u32, Error>(len as u32),
        size_error(len as nat, max) matches Some(e) ==> (result matches Err(err) && err@ == e),
{
    if len > u32::MAX as usize {
        return Err(Error::CodeTooLarge(u32::MAX, max));
    }
    let size: u32 = len as u32;
    if size > max {
        return Err(Error::CodeTooLarge(size, max));
    }
    Ok(size)
}

/// An upload whose code is being validated and instrumented.
#[derive(Debug, PartialEq, Eq)]
pub struct PendingUpload {
    /// The ABI that the code is uploaded for.
    pub abi: ABI,
    /// Who is allowed to instantiate the code.
    pub instantiate_policy: Policy,
    /// The size of the code as it was uploaded.
    pub code_size: u32,
}

/// What an upload needs next.
#[derive(Debug, PartialEq, Eq)]
pub enum UploadStep {
    /// Nothing: the upload was only checked.
    Done(UploadResult),
    /// The uploaded code is to be parsed and instrumented; what came of it
    /// goes to [`PendingUpload::finish`].
    Transform(PendingUpload),
}

/// Uploaded code after it was parsed and instrumented.
#[derive(Debug, PartialEq, Eq)]
pub struct Transformed {
    /// What the rules read of the module as it was uploaded.
    pub info: ModuleInfo,
    /// The instrumented code.
    pub code: Vec<u8>,
}

/// The gas charged for what instrumentation added to the code.
pub open spec fn instrumentation_cost(params: Parameters, code_size: u32, inst_size: nat) -> u64 {
    if inst_size <= code_size {
        0
    } else {
        per_byte_cost(params, (inst_size - code_size) as nat)
    }
}

/// The first error that ends an upload at its first stage, if any: the
/// code is too large, or the gas does not cover the base cost and the cost
/// per byte.
pub open spec fn upload_error(params: Parameters, remaining: int, len: nat) -> Option<ErrorView> {
    if size_error(len, params.max_code_size) is Some {
        size_error(len, params.max_code_size)
    } else if params.gas_costs.tx_upload + per_byte_cost(params, len) > remaining {
        Some(ErrorView::Core(CoreError::OutOfGas))
    } else {
        None
    }
}

/// The first error that ends an upload at its last stage, if any: the code
/// did not parse, breaks a rule, is too large after instrumentation, or the
/// gas does not cover what instrumentation added.
pub open spec fn transformed_error(
    params: Parameters,
    remaining: int,
    code_size: u32,
    transformed: Option<Transformed>,
) -> Option<ErrorView> {
    match transformed {
        None => Some(ErrorView::CodeMalformed),
        Some(t) => if verdict(t.info) is Some {
            verdict(t.info)
        } else if size_error(t.code@.len(), params.max_code_size) is Some {
            size_error(t.code@.len(), params.max_code_size)
        } else if instrumentation_cost(params, code_size, t.code@.len()) > remaining {
            Some(ErrorView::Core(CoreError::OutOfGas))
        } else {
            None
        },
    }
}

/// Whether the last stage of an upload stores the code and so assigns a
/// code identifier: nothing ends the upload before, and it is more than a
/// check.
pub open spec fn upload_assigns(ctx: Context, code_size: u32, transformed: Option<Transformed>)
    -> bool {
    transformed_error(ctx.state@.parameters, ctx.gas.remaining(), code_size, transformed)
        is None && !ctx.check_only
}

impl Module {
    /// Loads code information for the specified code identifier.
    pub fn load_code_info(ctx: &Context, code_id: CodeId) -> (result: Result<Code, Error>)
        ensures
            ctx.state@.code_info.contains_key(code_id.0) ==> result == Ok::<Code, Error>(
                ctx.state@.code_info[code_id.0],
            ),
            !ctx.state@.code_info.contains_key(code_id.0) ==> result == Err::<Code, Error>(
                Error::CodeNotFound,
            ),
    {
        ctx.state.load_code_info(code_id)
    }

    /// Stores specified code information.
    pub fn store_code_info(ctx: &mut Context, code_info: Code) -> (result: Result<(), Error>)
        ensures
            result is Ok,
            same_but_gas_and_state(*old(ctx), *final(ctx)),
            final(ctx).gas == old(ctx).gas,
            final(ctx).state@ == (StateView {
                code_info: old(ctx).state@.code_info.insert(code_info.id.0, code_info),
                ..old(ctx).state@
            }),
    {
        ctx.state.store_code_info(code_info);
        Ok(())
    }

    /// Loads code with the specified code identifier.
    pub fn load_code(ctx: &Context, code_id: CodeId) -> (result: Result<Vec<u8>, Error>)
        ensures
            ctx.state@.raw.contains_key(code_key(code_id)) ==> (result matches Ok(code) && code@
                == ctx.state@.raw[code_key(code_id)]),
            !ctx.state@.raw.contains_key(code_key(code_id)) ==> result == Err::<Vec<u8>, Error>(
                Error::CodeNotFound,
            ),
    {
        ctx.state.load_code(code_id)
    }

    /// Stores code with the specified code identifier.
    pub fn store_code(ctx: &mut Context, code_id: CodeId, code: &[u8]) -> (result: Result<
        (),
        Error,
    >)
        ensures
            result is Ok,
            same_but_gas_and_state(*old(ctx), *final(ctx)),
            final(ctx).gas == old(ctx).gas,
            final(ctx).state@ == (StateView {
                raw: old(ctx).state@.raw.insert(code_key(code_id), code@),
                ..old(ctx).state@
            }),
    {
        ctx.state.store_code(code_id, code);
        Ok(())
    }

    /// Loads specified instance information.
    pub fn load_instance_info(ctx: &Context, instance_id: InstanceId) -> (result: Result<
        Instance,
        Error,
    >)
        ensures
            ctx.state@.instance_info.contains_key(instance_id.0) ==> result == Ok::<
                Instance,
                Error,
            >(ctx.state@.instance_info[instance_id.0]),
            !ctx.state@.instance_info.contains_key(instance_id.0) ==> result == Err::<
                Instance,
                Error,
            >(Error::InstanceNotFound),
    {
        ctx.state.load_instance_info(instance_id)
    }

    /// Stores specified instance information.
    pub fn store_instance_info(ctx: &mut Context, instance_info: Instance) -> (result: Result<
        (),
        Error,
    >)
        ensures
            result is Ok,
            same_but_gas_and_state(*old(ctx), *final(ctx)),
            final(ctx).gas == old(ctx).gas,
            final(ctx).state@ == (StateView {
                instance_info: old(ctx).state@.instance_info.insert(
                    instance_info.id.0,
                    instance_info,
                ),
                ..old(ctx).state@
            }),
    {
        ctx.state.store_instance_info(instance_info);
        Ok(())
    }

    /// The first stage of an upload: the size of the code is checked and
    /// the gas for the upload is charged, the base cost first and then the
    /// cost per byte.
    pub fn tx_upload(ctx: &mut Context, body: &Upload) -> (result: Result<UploadStep, Error>)
        ensures
            Module::upload_post(*old(ctx), *final(ctx), *body, result),
    {
        let params = ctx.state.params();
        let code_size = match check_code_size(body.code.len(), params.max_code_size) {
            Err(e) => {
                return Err(e);
            },
            Ok(size) => size,
        };
        match ctx.gas.use_gas(params.gas_costs.tx_upload) {
            Err(e) => {
                return Err(Error::Core(e));
            },
            Ok(()) => {},
        }
        let per_byte = saturating_mul(params.gas_costs.tx_upload_per_byte, body.code.len() as u64);
        match ctx.gas.use_gas(per_byte) {
            Err(e) => {
                return Err(Error::Core(e));
            },
            Ok(()) => {},
        }
        if ctx.is_check_only() && !ctx.are_expensive_queries_allowed() {
            // Only fast checks are allowed.
            return Ok(UploadStep::Done(UploadResult::default()));
        }
        Ok(
            UploadStep::Transform(
                PendingUpload {
                    abi: body.abi,
                    instantiate_policy: body.instantiate_policy,
                    code_size,
                },
            ),
        )
    }
}

impl PendingUpload {
    /// Tells whether the last stage of the upload stores the code and so
    /// assigns a code identifier.
    pub fn assigns(&self, ctx: &Context, transformed: &Option<Transformed>) -> (assigns: bool)
        ensures
            assigns == upload_assigns(*ctx, self.code_size, *transformed),
    {
        let params = ctx.state.params();
        let transformed = match transformed {
            None => {
                return false;
            },
            Some(transformed) => transformed,
        };
        if validate(self.abi, &transformed.info).is_err() {
            return false;
        }
        let inst_code_size = match check_code_size(transformed.code.len(), params.max_code_size) {
            Err(_) => {
                return false;
            },
            Ok(size) => size,
        };
        let added: u32 = if inst_code_size > self.code_size {
            inst_code_size - self.code_size
        } else {
            0
        };
        let cost = saturating_mul(params.gas_costs.tx_upload_per_byte, added as u64);
        proof {
            assert(params.gas_costs.tx_upload_per_byte * 0 == 0) by (nonlinear_arith);
            assert(cost == instrumentation_cost(params, self.code_size, transformed.code@.len()));
        }
        cost <= ctx.gas.remaining_gas() && !ctx.is_check_only()
    }

    /// The last stage of an upload. `transformed` is `None` where the code
    /// did not parse. Otherwise the module is held to the rules of its ABI,
    /// the instrumented code is measured against the size limit and charged
    /// for what instrumentation added, and the code is stored with the
    /// digest of its instrumented bytes under the next code identifier.
    ///
    /// Where the code is stored, there has to be a code identifier left to
    /// assign; [`PendingUpload::assigns`] tells whether it is.
    pub fn finish(self, ctx: &mut Context, transformed: Option<Transformed>) -> (result: Result<
        UploadResult,
        Error,
    >)
        requires
            upload_assigns(*old(ctx), self.code_size, transformed) ==> old(
                ctx,
            ).state@.next_code_id < u64::MAX,
        ensures
            same_but_gas_and_state(*old(ctx), *final(ctx)),
            transformed_error(
                old(ctx).state@.parameters,
                old(ctx).gas.remaining(),
                self.code_size,
                transformed,
            ) matches Some(e) ==> {
                &&& result matches Err(err) && err@ == e
                &&& final(ctx).gas.used() == old(ctx).gas.used()
                &&& final(ctx).state@ == old(ctx).state@
            },
            transformed_error(
                old(ctx).state@.parameters,
                old(ctx).gas.remaining(),
                self.code_size,
                transformed,
            ) is None ==> {
                let code = transformed->Some_0.code@;
                let id = old(ctx).state@.next_code_id;
                &&& final(ctx).gas.used() == old(ctx).gas.used() + instrumentation_cost(
                    old(ctx).state@.parameters,
                    self.code_size,
                    code.len(),
                )
                &&& old(ctx).check_only ==> (result matches Ok(done) && done.id.0 == 0)
                    && final(ctx).state@ == old(ctx).state@
                &&& !old(ctx).check_only ==> {
                    &&& result matches Ok(done) && done.id.0 == id
                    &&& final(ctx).state@.code_info.contains_key(id)
                    &&& final(ctx).state@ == old(ctx).state@.with_code(
                        final(ctx).state@.code_info[id],
                        code,
                    )
                    &&& final(ctx).state@.code_info[id].id.0 == id
                    &&& final(ctx).state@.code_info[id].hash@ == sha512_256(code)
                    &&& final(ctx).state@.code_info[id].abi == self.abi
                    &&& final(ctx).state@.code_info[id].instantiate_policy
                        == self.instantiate_policy
                }
            },
    {
        let params = ctx.state.params();
        let transformed = match transformed {
            None => {
                return Err(Error::CodeMalformed);
            },
            Some(transformed) => transformed,
        };
        // Make sure the code conforms to the specified ABI.
        match validate(self.abi, &transformed.info) {
            Err(e) => {
                return Err(e);
            },
            Ok(()) => {},
        }
        let code = transformed.code;
        let hash = crate::crypto::Hash::digest_bytes(code.as_slice());
        // Validate code size again and account for any instrumentation, so that nothing is
        // gained by code that gets maximally inflated by instrumentation.
        let inst_code_size = match check_code_size(code.len(), params.max_code_size) {
            Err(e) => {
                return Err(e);
            },
            Ok(size) => size,
        };
        let added: u32 = if inst_code_size > self.code_size {
            inst_code_size - self.code_size
        } else {
            0
        };
        let cost = saturating_mul(params.gas_costs.tx_upload_per_byte, added as u64);
        proof {
            assert(params.gas_costs.tx_upload_per_byte * 0 == 0) by (nonlinear_arith);
            assert(cost == instrumentation_cost(params, self.code_size, code@.len()));
        }
        match ctx.gas.use_gas(cost) {
            Err(e) => {
                return Err(Error::Core(e));
            },
            Ok(()) => {},
        }
        if ctx.is_check_only() {
            return Ok(UploadResult::default());
        }
        // Assign next identifier.
        let id = ctx.state.assign_code_id();
        // Store information about uploaded code.
        let info = Code { id, hash, abi: self.abi, instantiate_policy: self.instantiate_policy };
        ctx.state.store_code_info(info);
        ctx.state.store_code(id, code.as_slice());
        assert(ctx.state@ == old(ctx).state@.with_code(info, code@));
        Ok(UploadResult { id })
    }
}

/// The ledger after the given amounts have been moved from `from` to `to`
/// one after the other, up to and including the first transfer that fails,
/// and whether all of them succeeded.
pub open spec fn transfer_all(ledger: LedgerView, from: Seq<u8>, to: Seq<u8>, tokens: Seq<BaseUnits>)
    -> (LedgerView, bool)
    decreases tokens.len(),
{
    if tokens.len() == 0 {
        (ledger, true)
    } else {
        let first = tokens[0];
        let after = ledger.after_transfer(from, to, first.1@, first.0);
        if ledger.transfer_result(from, to, first.1@, first.0) is Ok {
            transfer_all(after, from, to, tokens.drop_first())
        } else {
            (after, false)
        }
    }
}

/// Transfers the tokens attached to a call from the caller to the instance.
fn transfer_tokens(ctx: &mut Context, from: &Address, to: &Address, tokens: &Vec<BaseUnits>) -> (result:
    Result<(), Error>)
    ensures
        same_but_gas_and_state(*old(ctx), *final(ctx)),
        final(ctx).gas == old(ctx).gas,
        final(ctx).state@ == old(ctx).state@.with_ledger(
            transfer_all(old(ctx).state@.ledger, from@, to@, tokens@).0,
        ),
        transfer_all(old(ctx).state@.ledger, from@, to@, tokens@).1 ==> result is Ok,
        !transfer_all(old(ctx).state@.ledger, from@, to@, tokens@).1 ==> result == Err::<
            (),
            Error,
        >(Error::InsufficientCallerBalance),
{
    let mut i: usize = 0;
    proof {
        assert(tokens@.skip(0) =~= tokens@);
        assert(ctx.state@ == old(ctx).state@.with_ledger(old(ctx).state@.ledger));
    }
    while i < tokens.len()
        invariant
            i <= tokens.len(),
            same_but_gas_and_state(*old(ctx), *ctx),
            ctx.gas == old(ctx).gas,
            ctx.state@ == old(ctx).state@.with_ledger(ctx.state@.ledger),
            transfer_all(old(ctx).state@.ledger, from@, to@, tokens@) == transfer_all(
                ctx.state@.ledger,
                from@,
                to@,
                tokens@.skip(i as int),
            ),
        decreases tokens.len() - i,
    {
        proof {
            assert(tokens@.skip(i as int).drop_first() =~= tokens@.skip(i + 1));
            assert(tokens@.skip(i as int)[0] == tokens@[i as int]);
        }
        match ctx.state.transfer(from, to, &tokens[i]) {
            Err(_) => {
                return Err(Error::InsufficientCallerBalance);
            },
            Ok(()) => {},
        }
        i += 1;
    }
    Ok(())
}

/// What an instantiation needs next.
#[derive(Debug, PartialEq, Eq)]
pub enum InstantiateStep {
    /// Nothing: the transaction was only checked.
    Done(InstantiateResult),
    /// The contract's `instantiate` entry point is to be run; what it
    /// returns is processed by
    /// [`process_execution_result`](crate::subcalls::process_execution_result).
    Execute(Contract),
}

/// What a call needs next.
#[derive(Debug, PartialEq, Eq)]
pub enum CallStep {
    /// Nothing: the transaction was only checked.
    Done(crate::types::CallResult),
    /// The contract's `call` entry point is to be run; what it returns is
    /// processed by
    /// [`process_execution_result`](crate::subcalls::process_execution_result).
    Execute(Contract),
}

/// The instance that an instantiation creates.
pub open spec fn new_instance(state: StateView, caller: Address, body: Instantiate) -> Instance {
    Instance {
        id: InstanceId(state.next_instance_id),
        code_id: body.code_id,
        creator: caller,
        upgrades_policy: body.upgrades_policy,
    }
}

/// The first error that ends an instantiation before the contract runs, if
/// any, where more than a fast check is asked for.
pub open spec fn instantiate_error(
    state: StateView,
    caller: Address,
    remaining: int,
    body: Instantiate,
) -> Option<ErrorView> {
    if state.parameters.gas_costs.tx_instantiate > remaining {
        Some(ErrorView::Core(CoreError::OutOfGas))
    } else if !state.code_info.contains_key(body.code_id.0) {
        Some(ErrorView::CodeNotFound)
    } else if !state.code_info[body.code_id.0].instantiate_policy.allows(caller) {
        Some(ErrorView::Forbidden)
    } else if !state.raw.contains_key(code_key(body.code_id)) {
        Some(ErrorView::CodeNotFound)
    } else if !transfer_all(
        state.ledger,
        caller@,
        instance_address(InstanceId(state.next_instance_id)),
        body.tokens@,
    ).1 {
        Some(ErrorView::InsufficientCallerBalance)
    } else {
        None
    }
}

/// Whether an instantiation of the code creates an instance and so assigns
/// an instance identifier: the gas covers the base cost, more than a fast
/// check is asked for, the code is there and its policy lets the caller in.
pub open spec fn instantiation_assigns(ctx: Context, code_id: CodeId) -> bool {
    let state = ctx.state@;
    &&& state.parameters.gas_costs.tx_instantiate <= ctx.gas.remaining()
    &&& !fast_check_only(ctx)
    &&& state.code_info.contains_key(code_id.0)
    &&& state.code_info[code_id.0].instantiate_policy.allows(ctx.caller)
    &&& state.raw.contains_key(code_key(code_id))
}

/// The first error that ends a call before the contract runs, if any, where
/// more than a fast check is asked for.
pub open spec fn call_error(state: StateView, caller: Address, remaining: int, body: Call)
    -> Option<ErrorView> {
    if state.parameters.gas_costs.tx_call > remaining {
        Some(ErrorView::Core(CoreError::OutOfGas))
    } else if !state.instance_info.contains_key(body.id.0) {
        Some(ErrorView::InstanceNotFound)
    } else if !state.code_info.contains_key(state.instance_info[body.id.0].code_id.0) {
        Some(ErrorView::CodeNotFound)
    } else if !state.raw.contains_key(code_key(state.instance_info[body.id.0].code_id)) {
        Some(ErrorView::CodeNotFound)
    } else if !transfer_all(
        state.ledger,
        caller@,
        instance_address(state.instance_info[body.id.0].id),
        body.tokens@,
    ).1 {
        Some(ErrorView::InsufficientCallerBalance)
    } else {
        None
    }
}

impl Module {
    /// What the first stage of an upload does to the context and what it
    /// returns: the state stays as it is; code that is too large is refused
    /// before anything is charged; the base cost is charged first and the
    /// cost per byte after it; and where nothing fails, a fast check ends
    /// the upload and anything else asks for the code to be transformed.
    pub open spec fn upload_post(
        before: Context,
        after: Context,
        body: Upload,
        result: Result<UploadStep, Error>,
    ) -> bool {
        let params = before.state@.parameters;
        let len = body.code@.len();
        let remaining = before.gas.remaining();
        let base = params.gas_costs.tx_upload;
        let per_byte = per_byte_cost(params, len);
        &&& same_but_gas_and_state(before, after)
        &&& after.state == before.state
        &&& upload_error(params, remaining, len) matches Some(e) ==> (result matches Err(err)
            && err@ == e)
        &&& size_error(len, params.max_code_size) is Some ==> after.gas.used()
            == before.gas.used()
        &&& size_error(len, params.max_code_size) is None ==> {
            &&& base > remaining ==> after.gas.used() == before.gas.used()
            &&& base <= remaining && base + per_byte > remaining ==> after.gas.used()
                == before.gas.used() + base
            &&& base + per_byte <= remaining ==> after.gas.used() == before.gas.used() + base
                + per_byte
        }
        &&& upload_error(params, remaining, len) is None ==> (if fast_check_only(before) {
            result matches Ok(UploadStep::Done(done)) && done.id.0 == 0
        } else {
            result matches Ok(UploadStep::Transform(pending)) && pending.abi == body.abi
                && pending.instantiate_policy == body.instantiate_policy && pending.code_size
                == len
        })
    }

    /// What the first stage of an instantiation does to the context and
    /// what it returns. Where the gas does not cover the base cost, nothing
    /// is charged or changed. Otherwise the base cost is charged; a fast
    /// check ends there; an error before the tokens are moved leaves the state
    /// as it is; and from then on the instance is stored and the tokens are
    /// moved as far as they could be.
    pub open spec fn instantiate_post(
        before: Context,
        after: Context,
        body: Instantiate,
        result: Result<InstantiateStep, Error>,
    ) -> bool {
        let state = before.state@;
        let caller = before.caller;
        let remaining = before.gas.remaining();
        let cost = state.parameters.gas_costs.tx_instantiate;
        let instance = new_instance(state, caller, body);
        let moved = transfer_all(
            state.ledger,
            caller@,
            instance_address(instance.id),
            body.tokens@,
        );
        let error = instantiate_error(state, caller, remaining, body);
        &&& same_but_gas_and_state(before, after)
        &&& cost > remaining ==> {
            &&& result matches Err(err) && err@ == ErrorView::Core(CoreError::OutOfGas)
            &&& after.gas.used() == before.gas.used()
            &&& after.state@ == state
        }
        &&& cost <= remaining ==> {
            &&& after.gas.used() == before.gas.used() + cost
            &&& fast_check_only(before) ==> {
                &&& result matches Ok(InstantiateStep::Done(done)) && done.id.0 == 0
                &&& after.state@ == state
            }
            &&& !fast_check_only(before) ==> {
                &&& error matches Some(e) ==> (result matches Err(err) && err@ == e)
                &&& error is Some && error != Some(ErrorView::InsufficientCallerBalance)
                    ==> after.state@ == state
                &&& error == Some(ErrorView::InsufficientCallerBalance) || error is None
                    ==> after.state@ == state.with_instance(instance).with_ledger(moved.0)
                &&& error is None ==> {
                    &&& result matches Ok(InstantiateStep::Execute(contract))
                    &&& result->Ok_0->Execute_0.code_info == state.code_info[body.code_id.0]
                    &&& result->Ok_0->Execute_0.code@ == state.raw[code_key(body.code_id)]
                    &&& result->Ok_0->Execute_0.instance_info == instance
                }
            }
        }
    }

    /// What the first stage of a call does to the context and what it
    /// returns. Where the gas does not cover the base cost, nothing is
    /// charged or changed. Otherwise the base cost is charged; a fast check
    /// ends there; an error before the tokens are moved leaves the state as
    /// it is; and from then on the tokens are moved as far as they could be.
    pub open spec fn call_post(
        before: Context,
        after: Context,
        body: Call,
        result: Result<CallStep, Error>,
    ) -> bool {
        let state = before.state@;
        let caller = before.caller;
        let remaining = before.gas.remaining();
        let cost = state.parameters.gas_costs.tx_call;
        let error = call_error(state, caller, remaining, body);
        let instance = state.instance_info[body.id.0];
        let moved = transfer_all(
            state.ledger,
            caller@,
            instance_address(instance.id),
            body.tokens@,
        );
        &&& same_but_gas_and_state(before, after)
        &&& cost > remaining ==> {
            &&& result matches Err(err) && err@ == ErrorView::Core(CoreError::OutOfGas)
            &&& after.gas.used() == before.gas.used()
            &&& after.state@ == state
        }
        &&& cost <= remaining ==> {
            &&& after.gas.used() == before.gas.used() + cost
            &&& fast_check_only(before) ==> {
                &&& result matches Ok(CallStep::Done(done)) && done.0@.len() == 0
                &&& after.state@ == state
            }
            &&& !fast_check_only(before) ==> {
                &&& error matches Some(e) ==> (result matches Err(err) && err@ == e)
                &&& error is Some && error != Some(ErrorView::InsufficientCallerBalance)
                    ==> after.state@ == state
                &&& error == Some(ErrorView::InsufficientCallerBalance) || error is None
                    ==> after.state@ == state.with_ledger(moved.0)
                &&& error is None ==> {
                    &&& result matches Ok(CallStep::Execute(contract))
                    &&& result->Ok_0->Execute_0.instance_info == instance
                    &&& result->Ok_0->Execute_0.code_info == state.code_info[instance.code_id.0]
                    &&& result->Ok_0->Execute_0.code@ == state.raw[code_key(instance.code_id)]
                }
            }
        }
    }

    /// What an upgrade does to the context and what it returns: the gas for
    /// it is charged where there is enough, and the upgrade fails as not
    /// supported.
    pub open spec fn upgrade_post(
        before: Context,
        after: Context,
        body: Upgrade,
        result: Result<(), Error>,
    ) -> bool {
        let cost = before.state@.parameters.gas_costs.tx_upgrade;
        &&& same_but_gas_and_state(before, after)
        &&& after.state == before.state
        &&& cost > before.gas.remaining() ==> result == Err::<(), Error>(
            Error::Core(CoreError::OutOfGas),
        ) && after.gas.used() == before.gas.used()
        &&& cost <= before.gas.remaining() ==> result == Err::<(), Error>(Error::Unsupported)
            && after.gas.used() == before.gas.used() + cost
    }
}

impl Module {
    /// Tells whether an instantiation of the code creates an instance and so
    /// assigns an instance identifier.
    pub fn instantiation_assigns(ctx: &Context, code_id: CodeId) -> (assigns: bool)
        ensures
            assigns == instantiation_assigns(*ctx, code_id),
    {
        let params = ctx.state.params();
        if params.gas_costs.tx_instantiate > ctx.gas.remaining_gas() {
            return false;
        }
        if ctx.is_check_only() && !ctx.are_expensive_queries_allowed() {
            return false;
        }
        let code_info = match Module::load_code_info(ctx, code_id) {
            Err(_) => {
                return false;
            },
            Ok(code_info) => code_info,
        };
        if code_info.instantiate_policy.enforce(ctx).is_err() {
            return false;
        }
        Module::load_code(ctx, code_id).is_ok()
    }

    /// The first stage of an instantiation: gas is charged, the code is
    /// loaded and its instantiation policy enforced, the instance gets the
    /// next instance identifier and is stored, and the attached tokens are
    /// moved from the caller to the instance.
    ///
    /// Where an instance is created, there has to be an instance identifier
    /// left to assign; [`Module::instantiation_assigns`] tells whether one
    /// is.
    pub fn tx_instantiate(ctx: &mut Context, body: &Instantiate) -> (result: Result<
        InstantiateStep,
        Error,
    >)
        requires
            instantiation_assigns(*old(ctx), body.code_id) ==> old(ctx).state@.next_instance_id
                < u64::MAX,
        ensures
            Module::instantiate_post(*old(ctx), *final(ctx), *body, result),
    {
        let params = ctx.state.params();
        let creator = ctx.tx_caller_address();
        match ctx.gas.use_gas(params.gas_costs.tx_instantiate) {
            Err(e) => {
                return Err(Error::Core(e));
            },
            Ok(()) => {},
        }
        if ctx.is_check_only() && !ctx.are_expensive_queries_allowed() {
            // Only fast checks are allowed.
            return Ok(InstantiateStep::Done(InstantiateResult::default()));
        }
        // Load code information, enforce instantiation policy and load the code.
        let code_info = match Module::load_code_info(ctx, body.code_id) {
            Err(e) => {
                return Err(e);
            },
            Ok(code_info) => code_info,
        };
        match code_info.instantiate_policy.enforce(ctx) {
            Err(e) => {
                return Err(e);
            },
            Ok(()) => {},
        }
        let code = match Module::load_code(ctx, body.code_id) {
            Err(e) => {
                return Err(e);
            },
            Ok(code) => code,
        };
        // Assign next identifier.
        let id = ctx.state.assign_instance_id();
        // Store instance information.
        let instance_info = Instance {
            id,
            code_id: body.code_id,
            creator,
            upgrades_policy: body.upgrades_policy,
        };
        ctx.state.store_instance_info(instance_info);
        assert(ctx.state@ == old(ctx).state@.with_instance(instance_info));
        // Transfer any attached tokens.
        let address = instance_info.address();
        match transfer_tokens(ctx, &creator, &address, &body.tokens) {
            Err(e) => {
                return Err(e);
            },
            Ok(()) => {},
        }
        Ok(InstantiateStep::Execute(Contract { code_info, code, instance_info }))
    }

    /// The result of an instantiation whose contract has run and whose
    /// messages are processed.
    pub fn instantiated(contract: &Contract) -> (result: InstantiateResult)
        ensures
            result.id == contract.instance_info.id,
    {
        InstantiateResult { id: contract.instance_info.id }
    }

    /// The first stage of a call: gas is charged, the instance and its code
    /// are loaded, and the attached tokens are moved from the caller to the
    /// instance.
    pub fn tx_call(ctx: &mut Context, body: &Call) -> (result: Result<CallStep, Error>)
        ensures
            Module::call_post(*old(ctx), *final(ctx), *body, result),
    {
        let params = ctx.state.params();
        let caller = ctx.tx_caller_address();
        match ctx.gas.use_gas(params.gas_costs.tx_call) {
            Err(e) => {
                return Err(Error::Core(e));
            },
            Ok(()) => {},
        }
        if ctx.is_check_only() && !ctx.are_expensive_queries_allowed() {
            // Only fast checks are allowed.
            return Ok(CallStep::Done(crate::types::CallResult::default()));
        }
        // Load instance information and code.
        let instance_info = match Module::load_instance_info(ctx, body.id) {
            Err(e) => {
                return Err(e);
            },
            Ok(instance_info) => instance_info,
        };
        let code_info = match Module::load_code_info(ctx, instance_info.code_id) {
            Err(e) => {
                return Err(e);
            },
            Ok(code_info) => code_info,
        };
        let code = match Module::load_code(ctx, instance_info.code_id) {
            Err(e) => {
                return Err(e);
            },
            Ok(code) => code,
        };
        // Transfer any attached tokens.
        let address = instance_info.address();
        match transfer_tokens(ctx, &caller, &address, &body.tokens) {
            Err(e) => {
                return Err(e);
            },
            Ok(()) => {},
        }
        assert(old(ctx).state@.with_ledger(old(ctx).state@.ledger) == old(ctx).state@);
        Ok(CallStep::Execute(Contract { code_info, code, instance_info }))
    }

    /// Upgrades are not supported: the gas for one is charged and the
    /// transaction fails.
    pub fn tx_upgrade(ctx: &mut Context, body: &Upgrade) -> (result: Result<(), Error>)
        ensures
            Module::upgrade_post(*old(ctx), *final(ctx), *body, result),
    {
        let params = ctx.state.params();
        match ctx.gas.use_gas(params.gas_costs.tx_upgrade) {
            Err(e) => {
                return Err(Error::Core(e));
            },
            Ok(()) => {},
        }
        Err(Error::Unsupported)
    }

    /// Information about uploaded code.
    pub fn query_code(ctx: &Context, args: CodeQuery) -> (result: Result<Code, Error>)
        ensures
            ctx.state@.code_info.contains_key(args.id.0) ==> result == Ok::<Code, Error>(
                ctx.state@.code_info[args.id.0],
            ),
            !ctx.state@.code_info.contains_key(args.id.0) ==> result == Err::<Code, Error>(
                Error::CodeNotFound,
            ),
    {
        Module::load_code_info(ctx, args.id)
    }

    /// Information about an instance.
    pub fn query_instance(ctx: &Context, args: InstanceQuery) -> (result: Result<Instance, Error>)
        ensures
            ctx.state@.instance_info.contains_key(args.id.0) ==> result == Ok::<Instance, Error>(
                ctx.state@.instance_info[args.id.0],
            ),
            !ctx.state@.instance_info.contains_key(args.id.0) ==> result == Err::<
                Instance,
                Error,
            >(Error::InstanceNotFound),
    {
        Module::load_instance_info(ctx, args.id)
    }

    /// Queries of an instance's storage are not supported.
    pub fn query_instance_storage(ctx: &Context, args: &InstanceStorageQuery) -> (result: Result<
        InstanceStorageQueryResult,
        Error,
    >)
        ensures
            result matches Err(e) && e@ == ErrorView::Unsupported,
    {
        Err(Error::Unsupported)
    }

    /// Queries of an instance's public key are not supported.
    pub fn query_public_key(ctx: &Context, args: &PublicKeyQuery) -> (result: Result<
        PublicKeyQueryResult,
        Error,
    >)
        ensures
            result matches Err(e) && e@ == ErrorView::Unsupported,
    {
        Err(Error::Unsupported)
    }

    /// Custom queries are not supported.
    pub fn query_custom(ctx: &Context, args: &CustomQuery) -> (result: Result<
        CustomQueryResult,
        Error,
    >)
        ensures
            result matches Err(e) && e@ == ErrorView::Unsupported,
    {
        Err(Error::Unsupported)
    }

    /// Initialize state from genesis.
    pub fn init(ctx: &mut Context, genesis: Genesis)
        ensures
            same_but_gas_and_state(*old(ctx), *final(ctx)),
            final(ctx).gas == old(ctx).gas,
            final(ctx).state@ == (StateView {
                parameters: genesis.parameters,
                ..old(ctx).state@
            }),
    {
        // Set genesis parameters.
        ctx.state.set_params(genesis.parameters);
    }

    /// Migrate state from a previous version.
    pub fn migrate(ctx: &mut Context, from: u32) -> (migrated: bool)
        ensures
            !migrated,
            *final(ctx) == *old(ctx),
    {
        // No migrations currently supported.
        false
    }
}

/// Whether the state holds the given code under its identifier.
pub open spec fn holds_code(state: StateView, info: Code, code: Seq<u8>) -> bool {
    &&& state.code_info.contains_key(info.id.0)
    &&& state.code_info[info.id.0] == info
    &&& state.raw.contains_key(code_key(info.id))
    &&& state.raw[code_key(info.id)] == code
}

/// Storing code makes the state hold it.
pub proof fn lemma_stored_code_is_held(state: StateView, info: Code, code: Seq<u8>)
    ensures
        holds_code(state.with_code(info, code), info, code),
{
}

/// Code stays as it was uploaded: no instance that is created, no entry of
/// an instance's store that is set or removed, no transfer of tokens and no
/// upload under another identifier changes it.
pub proof fn lemma_code_is_kept(
    state: StateView,
    info: Code,
    code: Seq<u8>,
    instance: Instance,
    id: InstanceId,
    kind: crate::state::StoreKind,
    key: Seq<u8>,
    value: Seq<u8>,
    ledger: LedgerView,
    other: Code,
    other_code: Seq<u8>,
)
    requires
        holds_code(state, info, code),
    ensures
        holds_code(state.with_instance(instance), info, code),
        holds_code(state.with_instance_entry(id, kind, key, value), info, code),
        holds_code(state.without_instance_entry(id, kind, key), info, code),
        holds_code(state.with_ledger(ledger), info, code),
        other.id != info.id ==> holds_code(state.with_code(other, other_code), info, code),
{
    crate::state::lemma_instance_state_apart_from_code(id, kind, key, info.id);
    if other.id != info.id {
        if code_key(other.id) == code_key(info.id) {
            crate::state::lemma_code_key_injective(other.id, info.id);
        }
    }
}

/// Code that the state holds can be instantiated: where the policy lets
/// the caller in, the gas covers the base cost and the attached tokens can
/// be moved, the instantiation gets as far as running the contract.
pub proof fn lemma_held_code_instantiates(
    state: StateView,
    info: Code,
    code: Seq<u8>,
    caller: Address,
    remaining: int,
    body: Instantiate,
)
    requires
        holds_code(state, info, code),
        body.code_id == info.id,
        info.instantiate_policy.allows(caller),
        state.parameters.gas_costs.tx_instantiate <= remaining,
        transfer_all(
            state.ledger,
            caller@,
            instance_address(InstanceId(state.next_instance_id)),
            body.tokens@,
        ).1,
    ensures
        instantiate_error(state, caller, remaining, body) is None,
{
}

} // verus!
