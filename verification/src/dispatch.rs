//! Dispatch of calls and queries to the transactions of the module, and the
//! initialisation of its state.
use vstd::prelude::*;
use crate::context::Context;
use crate::module::{
    instantiation_assigns, same_but_gas_and_state, CallStep, InstantiateStep, Module,
    PendingUpload, UploadStep,
};
use crate::state::StateView;
use crate::transaction::{CallResult, CallResultView};
use crate::types::{
    Call, Code, CodeQuery, CustomQuery, Instance, InstanceQuery, InstanceStorageQuery,
    Instantiate, InstantiateResult, PublicKeyQuery, Upgrade, Upload, UploadResult,
};
use crate::value::{Value, ValueView};
use crate::wasm::Contract;
use crate::{Error, ErrorView, Genesis, MODULE_NAME};

verus! {

/// Method name of an upload.
pub const METHOD_UPLOAD: &'static str = "contracts.Upload";

/// Method name of an instantiation.
pub const METHOD_INSTANTIATE: &'static str = "contracts.Instantiate";

/// Method name of a call.
pub const METHOD_CALL: &'static str = "contracts.Call";

/// Method name of an upgrade.
pub const METHOD_UPGRADE: &'static str = "contracts.Upgrade";

/// Method name of the query for code information.
pub const QUERY_CODE: &'static str = "contracts.Code";

/// Method name of the query for instance information.
pub const QUERY_INSTANCE: &'static str = "contracts.Instance";

/// Method name of the query of an instance's storage.
pub const QUERY_INSTANCE_STORAGE: &'static str = "contracts.InstanceStorage";

/// Method name of the query for an instance's public key.
pub const QUERY_PUBLIC_KEY: &'static str = "contracts.PublicKey";

/// Method name of a custom query.
pub const QUERY_CUSTOM: &'static str = "contracts.Custom";

/// Version of the module's state.
pub const VERSION: u32 = 1;

/// Result of dispatching a method: it was handled with a result, or it is
/// not one of this module's and its body is handed back.
#[derive(Debug, PartialEq, Eq)]
pub enum DispatchResult<B, R> {
    Handled(R),
    Unhandled(B),
}

/// What a dispatched call needs next.
#[derive(Debug, PartialEq, Eq)]
pub enum Dispatched {
    /// Nothing: this is the result of the call.
    Done(CallResult),
    /// The code of the upload is to be parsed and instrumented; what
    /// [`PendingUpload::finish`] makes of it goes to
    /// [`Module::upload_result`].
    Upload(PendingUpload, Upload),
    /// The contract's `instantiate` entry point is to be run on the
    /// instantiation and what it returns processed; what comes of it goes to
    /// [`Module::instantiate_result`].
    Instantiate(Contract, Instantiate),
    /// The contract's `call` entry point is to be run on the call and what
    /// it returns processed; what comes of it goes to
    /// [`Module::call_result`].
    Call(Contract, Call),
}

/// Whether two texts are the same.
pub fn same_text(a: &str, b: &str) -> (same: bool)
    ensures
        same == (a@ == b@),
{
    let left: String = a.to_owned();
    let right: String = b.to_owned();
    left == right
}

/// Whether the method is one of the module's calls.
pub open spec fn is_call_method(method: Seq<char>) -> bool {
    method == METHOD_UPLOAD@ || method == METHOD_INSTANTIATE@ || method == METHOD_CALL@ || method
        == METHOD_UPGRADE@
}

/// Whether the method is one of the module's queries.
pub open spec fn is_query_method(method: Seq<char>) -> bool {
    method == QUERY_CODE@ || method == QUERY_INSTANCE@ || method == QUERY_INSTANCE_STORAGE@
        || method == QUERY_PUBLIC_KEY@ || method == QUERY_CUSTOM@
}

/// How the outcome of the first stage of an upload is handed on.
pub open spec fn upload_dispatched(
    staged: Result<UploadStep, Error>,
    args: Upload,
    dispatched: Dispatched,
) -> bool {
    match staged {
        Err(e) => dispatched matches Dispatched::Done(result) && result@ == e@.call_result(),
        Ok(UploadStep::Done(done)) => dispatched matches Dispatched::Done(result) && result@
            == CallResultView::Success(UploadResult::spec_encode(done)),
        Ok(UploadStep::Transform(pending)) => dispatched matches Dispatched::Upload(
            handed,
            body,
        ) && handed == pending && body == args,
    }
}

/// How the outcome of the first stage of an instantiation is handed on.
pub open spec fn instantiate_dispatched(
    staged: Result<InstantiateStep, Error>,
    args: Instantiate,
    dispatched: Dispatched,
) -> bool {
    match staged {
        Err(e) => dispatched matches Dispatched::Done(result) && result@ == e@.call_result(),
        Ok(InstantiateStep::Done(done)) => dispatched matches Dispatched::Done(result) && result@
            == CallResultView::Success(InstantiateResult::spec_encode(done)),
        Ok(InstantiateStep::Execute(contract)) => dispatched matches Dispatched::Instantiate(
            handed,
            body,
        ) && handed == contract && body == args,
    }
}

/// How the outcome of the first stage of a call is handed on.
pub open spec fn call_dispatched(
    staged: Result<CallStep, Error>,
    args: Call,
    dispatched: Dispatched,
) -> bool {
    match staged {
        Err(e) => dispatched matches Dispatched::Done(result) && result@ == e@.call_result(),
        Ok(CallStep::Done(done)) => dispatched matches Dispatched::Done(result) && result@
            == CallResultView::Success(ValueView::ByteString(done.0@)),
        Ok(CallStep::Execute(contract)) => dispatched matches Dispatched::Call(handed, body)
            && handed == contract && body == args,
    }
}

/// Whether a call was refused because its body could not be read: the
/// context is as it was and the result is that of an invalid argument.
pub open spec fn refused(before: Context, after: Context, dispatched: Dispatched) -> bool {
    &&& after == before
    &&& dispatched matches Dispatched::Done(result) && result@
        == ErrorView::InvalidArgument.call_result()
}

impl Module {
    /// What dispatching a call of one of the module's methods does: a body
    /// that cannot be read is refused, and a body that can be read goes
    /// through the first stage of its transaction.
    pub open spec fn dispatch_call_post(
        before: Context,
        after: Context,
        method: Seq<char>,
        body: ValueView,
        dispatched: Dispatched,
    ) -> bool {
        if method == METHOD_UPLOAD@ {
            match Upload::spec_decode(body) {
                Err(_) => refused(before, after, dispatched),
                Ok(decoded) => exists|args: Upload, staged: Result<UploadStep, Error>|
                    args@ == decoded && #[trigger] Module::upload_post(before, after, args, staged)
                        && upload_dispatched(staged, args, dispatched),
            }
        } else if method == METHOD_INSTANTIATE@ {
            match Instantiate::spec_decode(body) {
                Err(_) => refused(before, after, dispatched),
                Ok(decoded) => exists|args: Instantiate, staged: Result<InstantiateStep, Error>|
                    args@ == decoded && #[trigger] Module::instantiate_post(
                        before,
                        after,
                        args,
                        staged,
                    ) && instantiate_dispatched(staged, args, dispatched),
            }
        } else if method == METHOD_CALL@ {
            match Call::spec_decode(body) {
                Err(_) => refused(before, after, dispatched),
                Ok(decoded) => exists|args: Call, staged: Result<CallStep, Error>|
                    args@ == decoded && #[trigger] Module::call_post(before, after, args, staged)
                        && call_dispatched(staged, args, dispatched),
            }
        } else {
            match Upgrade::spec_decode(body) {
                Err(_) => refused(before, after, dispatched),
                Ok(decoded) => exists|args: Upgrade, staged: Result<(), Error>|
                    args@ == decoded && #[trigger] Module::upgrade_post(
                        before,
                        after,
                        args,
                        staged,
                    ) && (dispatched matches Dispatched::Done(result) && result@
                        == staged->Err_0@.call_result()),
            }
        }
    }

    /// Dispatches a call. A method that is not one of the module's is not
    /// handled and its body is handed back.
    ///
    /// An instantiation that creates an instance needs an instance
    /// identifier that is left to assign.
    pub fn dispatch_call(ctx: &mut Context, method: &str, body: Value) -> (result: DispatchResult<
        Value,
        Dispatched,
    >)
        requires
            method@ == METHOD_INSTANTIATE@ ==> (Instantiate::spec_decode(body@) matches Ok(args)
                ==> (instantiation_assigns(*old(ctx), args.code_id) ==> old(
                ctx,
            ).state@.next_instance_id < u64::MAX)),
        ensures
            !is_call_method(method@) ==> *final(ctx) == *old(ctx) && result
                == DispatchResult::<Value, Dispatched>::Unhandled(body),
            is_call_method(method@) ==> (result matches DispatchResult::Handled(dispatched)
                && Module::dispatch_call_post(
                *old(ctx),
                *final(ctx),
                method@,
                body@,
                dispatched,
            )),
    {
        if same_text(method, METHOD_UPLOAD) {
            let args = match Upload::try_from_cbor_value(body) {
                Err(_) => {
                    return DispatchResult::Handled(
                        Dispatched::Done(Error::InvalidArgument.to_call_result()),
                    );
                },
                Ok(args) => args,
            };
            let staged = Module::tx_upload(ctx, &args);
            let ghost witness = staged;
            let ghost sent = args;
            let dispatched = match staged {
                Err(e) => Dispatched::Done(e.to_call_result()),
                Ok(UploadStep::Done(done)) => Dispatched::Done(
                    CallResult::Success(done.into_cbor_value()),
                ),
                Ok(UploadStep::Transform(pending)) => Dispatched::Upload(pending, args),
            };
            proof {
                assert(Module::upload_post(*old(ctx), *ctx, sent, witness) && upload_dispatched(
                    witness,
                    sent,
                    dispatched,
                ));
            }
            DispatchResult::Handled(dispatched)
        } else if same_text(method, METHOD_INSTANTIATE) {
            let args = match Instantiate::try_from_cbor_value(body) {
                Err(_) => {
                    return DispatchResult::Handled(
                        Dispatched::Done(Error::InvalidArgument.to_call_result()),
                    );
                },
                Ok(args) => args,
            };
            let staged = Module::tx_instantiate(ctx, &args);
            let ghost witness = staged;
            let ghost sent = args;
            let dispatched = match staged {
                Err(e) => Dispatched::Done(e.to_call_result()),
                Ok(InstantiateStep::Done(done)) => Dispatched::Done(
                    CallResult::Success(done.into_cbor_value()),
                ),
                Ok(InstantiateStep::Execute(contract)) => Dispatched::Instantiate(contract, args),
            };
            proof {
                assert(Module::instantiate_post(*old(ctx), *ctx, sent, witness)
                    && instantiate_dispatched(witness, sent, dispatched));
            }
            DispatchResult::Handled(dispatched)
        } else if same_text(method, METHOD_CALL) {
            let args = match Call::try_from_cbor_value(body) {
                Err(_) => {
                    return DispatchResult::Handled(
                        Dispatched::Done(Error::InvalidArgument.to_call_result()),
                    );
                },
                Ok(args) => args,
            };
            let staged = Module::tx_call(ctx, &args);
            let ghost witness = staged;
            let ghost sent = args;
            let dispatched = match staged {
                Err(e) => Dispatched::Done(e.to_call_result()),
                Ok(CallStep::Done(done)) => Dispatched::Done(
                    CallResult::Success(done.into_cbor_value()),
                ),
                Ok(CallStep::Execute(contract)) => Dispatched::Call(contract, args),
            };
            proof {
                assert(Module::call_post(*old(ctx), *ctx, sent, witness) && call_dispatched(
                    witness,
                    sent,
                    dispatched,
                ));
            }
            DispatchResult::Handled(dispatched)
        } else if same_text(method, METHOD_UPGRADE) {
            let args = match Upgrade::try_from_cbor_value(body) {
                Err(_) => {
                    return DispatchResult::Handled(
                        Dispatched::Done(Error::InvalidArgument.to_call_result()),
                    );
                },
                Ok(args) => args,
            };
            let staged = Module::tx_upgrade(ctx, &args);
            let ghost witness = staged;
            let dispatched = match staged {
                Err(e) => Dispatched::Done(e.to_call_result()),
                Ok(()) => Dispatched::Done(
                    CallResult::Success(Value::Simple(crate::value::SimpleValue::NullValue)),
                ),
            };
            proof {
                assert(Module::upgrade_post(*old(ctx), *ctx, args, witness));
            }
            DispatchResult::Handled(dispatched)
        } else {
            DispatchResult::Unhandled(body)
        }
    }

    /// The result of an upload whose last stage has ended.
    pub fn upload_result(outcome: Result<UploadResult, Error>) -> (result: CallResult)
        ensures
            outcome matches Ok(done) ==> result@ == CallResultView::Success(
                UploadResult::spec_encode(done),
            ),
            outcome matches Err(e) ==> result@ == e@.call_result(),
    {
        match outcome {
            Ok(done) => CallResult::Success(done.into_cbor_value()),
            Err(e) => e.to_call_result(),
        }
    }

    /// The result of an instantiation whose contract has run and whose
    /// messages are processed: the identifier of the instance, whatever data
    /// the contract returned.
    pub fn instantiate_result(contract: &Contract, outcome: Result<Vec<u8>, Error>) -> (result:
        CallResult)
        ensures
            outcome is Ok ==> result@ == CallResultView::Success(
                InstantiateResult::spec_encode(
                    InstantiateResult { id: contract.instance_info.id },
                ),
            ),
            outcome matches Err(e) ==> result@ == e@.call_result(),
    {
        match outcome {
            Ok(_) => CallResult::Success(Module::instantiated(contract).into_cbor_value()),
            Err(e) => e.to_call_result(),
        }
    }

    /// The result of a call whose contract has run and whose messages are
    /// processed: the data that is returned.
    pub fn call_result(outcome: Result<Vec<u8>, Error>) -> (result: CallResult)
        ensures
            outcome matches Ok(data) ==> result@ == CallResultView::Success(
                ValueView::ByteString(data@),
            ),
            outcome matches Err(e) ==> result@ == e@.call_result(),
    {
        match outcome {
            Ok(data) => CallResult::Success(crate::types::CallResult(data).into_cbor_value()),
            Err(e) => e.to_call_result(),
        }
    }

    /// The answer to a query of one of the module's methods: arguments that
    /// cannot be read are invalid, code and instance information is given
    /// where it is found, and the other queries are not supported.
    pub open spec fn query_answer(state: StateView, method: Seq<char>, args: ValueView) -> Result<
        ValueView,
        ErrorView,
    > {
        if method == QUERY_CODE@ {
            match CodeQuery::spec_decode(args) {
                Err(_) => Err(ErrorView::InvalidArgument),
                Ok(query) => if state.code_info.contains_key(query.id.0) {
                    Ok(Code::spec_encode(state.code_info[query.id.0]@))
                } else {
                    Err(ErrorView::CodeNotFound)
                },
            }
        } else if method == QUERY_INSTANCE@ {
            match InstanceQuery::spec_decode(args) {
                Err(_) => Err(ErrorView::InvalidArgument),
                Ok(query) => if state.instance_info.contains_key(query.id.0) {
                    Ok(Instance::spec_encode(state.instance_info[query.id.0]@))
                } else {
                    Err(ErrorView::InstanceNotFound)
                },
            }
        } else if method == QUERY_INSTANCE_STORAGE@ {
            match InstanceStorageQuery::spec_decode(args) {
                Err(_) => Err(ErrorView::InvalidArgument),
                Ok(_) => Err(ErrorView::Unsupported),
            }
        } else if method == QUERY_PUBLIC_KEY@ {
            match PublicKeyQuery::spec_decode(args) {
                Err(_) => Err(ErrorView::InvalidArgument),
                Ok(_) => Err(ErrorView::Unsupported),
            }
        } else {
            match CustomQuery::spec_decode(args) {
                Err(_) => Err(ErrorView::InvalidArgument),
                Ok(_) => Err(ErrorView::Unsupported),
            }
        }
    }

    /// Dispatches a query. A method that is not one of the module's is not
    /// handled and its arguments are handed back.
    pub fn dispatch_query(ctx: &Context, method: &str, args: Value) -> (result: DispatchResult<
        Value,
        Result<Value, Error>,
    >)
        ensures
            !is_query_method(method@) ==> result == DispatchResult::<
                Value,
                Result<Value, Error>,
            >::Unhandled(args),
            is_query_method(method@) ==> (result matches DispatchResult::Handled(answer) && (
            match Module::query_answer(ctx.state@, method@, args@) {
                Ok(value) => answer matches Ok(out) && out@ == value,
                Err(e) => answer matches Err(err) && err@ == e,
            })),
    {
        if same_text(method, QUERY_CODE) {
            let query = match CodeQuery::try_from_cbor_value(args) {
                Err(_) => {
                    return DispatchResult::Handled(Err(Error::InvalidArgument));
                },
                Ok(query) => query,
            };
            match Module::query_code(ctx, query) {
                Err(e) => DispatchResult::Handled(Err(e)),
                Ok(code) => DispatchResult::Handled(Ok(code.into_cbor_value())),
            }
        } else if same_text(method, QUERY_INSTANCE) {
            let query = match InstanceQuery::try_from_cbor_value(args) {
                Err(_) => {
                    return DispatchResult::Handled(Err(Error::InvalidArgument));
                },
                Ok(query) => query,
            };
            match Module::query_instance(ctx, query) {
                Err(e) => DispatchResult::Handled(Err(e)),
                Ok(instance) => DispatchResult::Handled(Ok(instance.into_cbor_value())),
            }
        } else if same_text(method, QUERY_INSTANCE_STORAGE) {
            let query = match InstanceStorageQuery::try_from_cbor_value(args) {
                Err(_) => {
                    return DispatchResult::Handled(Err(Error::InvalidArgument));
                },
                Ok(query) => query,
            };
            match Module::query_instance_storage(ctx, &query) {
                Err(e) => DispatchResult::Handled(Err(e)),
                Ok(_) => DispatchResult::Handled(Err(Error::Unsupported)),
            }
        } else if same_text(method, QUERY_PUBLIC_KEY) {
            let query = match PublicKeyQuery::try_from_cbor_value(args) {
                Err(_) => {
                    return DispatchResult::Handled(Err(Error::InvalidArgument));
                },
                Ok(query) => query,
            };
            match Module::query_public_key(ctx, &query) {
                Err(e) => DispatchResult::Handled(Err(e)),
                Ok(_) => DispatchResult::Handled(Err(Error::Unsupported)),
            }
        } else if same_text(method, QUERY_CUSTOM) {
            let query = match CustomQuery::try_from_cbor_value(args) {
                Err(_) => {
                    return DispatchResult::Handled(Err(Error::InvalidArgument));
                },
                Ok(query) => query,
            };
            match Module::query_custom(ctx, &query) {
                Err(e) => DispatchResult::Handled(Err(e)),
                Ok(_) => DispatchResult::Handled(Err(Error::Unsupported)),
            }
        } else {
            DispatchResult::Unhandled(args)
        }
    }
}

/// The version under which a module's state is kept.
#[derive(Debug, PartialEq, Eq)]
pub struct ModuleVersion {
    pub name: String,
    pub version: u32,
}

/// The versions that a list of entries stands for: an entry overrides every
/// entry before it that has the same name.
pub open spec fn versions_map(entries: Seq<ModuleVersion>) -> Map<Seq<char>, u32>
    decreases entries.len(),
{
    if entries.len() == 0 {
        Map::empty()
    } else {
        versions_map(entries.drop_last()).insert(entries.last().name@, entries.last().version)
    }
}

/// The versions under which the modules keep their state.
#[derive(Debug, PartialEq, Eq)]
pub struct Metadata {
    pub versions: Vec<ModuleVersion>,
}

impl View for Metadata {
    type V = Map<Seq<char>, u32>;

    open spec fn view(&self) -> Map<Seq<char>, u32> {
        versions_map(self.versions@)
    }
}

impl Metadata {
    /// The version of the state of the named module, zero where it has none.
    pub open spec fn spec_version_of(self, name: Seq<char>) -> u32 {
        if self@.contains_key(name) {
            self@[name]
        } else {
            0
        }
    }

    /// Metadata without versions.
    pub fn new() -> (meta: Metadata)
        ensures
            meta@ == Map::<Seq<char>, u32>::empty(),
    {
        Metadata { versions: Vec::new() }
    }

    /// The version of the state of the named module, zero where it has none.
    pub fn version_of(&self, name: &str) -> (version: u32)
        ensures
            version == self.spec_version_of(name@),
    {
        let mut i: usize = self.versions.len();
        proof {
            assert(self.versions@.take(i as int) =~= self.versions@);
        }
        while i > 0
            invariant
                i <= self.versions.len(),
                versions_map(self.versions@).contains_key(name@) <==> versions_map(
                    self.versions@.take(i as int),
                ).contains_key(name@),
                versions_map(self.versions@).contains_key(name@) ==> versions_map(
                    self.versions@,
                )[name@] == versions_map(self.versions@.take(i as int))[name@],
            decreases i,
        {
            proof {
                assert(self.versions@.take(i as int).drop_last() =~= self.versions@.take(i - 1));
            }
            i -= 1;
            if same_text(self.versions[i].name.as_str(), name) {
                return self.versions[i].version;
            }
        }
        proof {
            assert(self.versions@.take(0) =~= Seq::<ModuleVersion>::empty());
        }
        0
    }

    /// Sets the version of the state of the named module.
    pub fn set_version(&mut self, name: &str, version: u32)
        ensures
            final(self)@ == old(self)@.insert(name@, version),
    {
        let entry = ModuleVersion { name: name.to_owned(), version };
        proof {
            assert(self.versions@.push(entry).drop_last() =~= self.versions@);
        }
        self.versions.push(entry);
    }
}

impl Module {
    /// Initialises the state from genesis where the module has no state
    /// yet, and migrates it otherwise. Returns whether the state was
    /// changed.
    pub fn init_or_migrate(ctx: &mut Context, meta: &mut Metadata, genesis: Genesis) -> (changed:
        bool)
        ensures
            same_but_gas_and_state(*old(ctx), *final(ctx)),
            final(ctx).gas == old(ctx).gas,
            changed == (old(meta).spec_version_of(MODULE_NAME@) == 0),
            changed ==> final(ctx).state@ == (StateView {
                parameters: genesis.parameters,
                ..old(ctx).state@
            }) && final(meta)@ == old(meta)@.insert(MODULE_NAME@, VERSION),
            !changed ==> *final(ctx) == *old(ctx) && *final(meta) == *old(meta),
    {
        let version = meta.version_of(MODULE_NAME);
        if version == 0 {
            // Initialize state from genesis.
            Module::init(ctx, genesis);
            meta.set_version(MODULE_NAME, VERSION);
            return true;
        }
        // Perform migration.
        Module::migrate(ctx, version)
    }
}

} // verus!
