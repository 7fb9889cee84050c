//! The storage that the host offers to a running contract: the handlers of
//! the `storage` imports `get`, `insert` and `remove`.
use vstd::prelude::*;
use crate::context::Context;
use crate::module::same_but_gas_and_state;
use crate::state::StoreKind;
use crate::types::InstanceId;
use crate::{CoreError, Error, ErrorView};

verus! {

/// The first error that ends a storage request, if any: the gas does not
/// cover the base cost, the tag names no sub-store, or the sub-store is not
/// backed. Only the public sub-store is backed.
pub open spec fn request_error(cost: u64, remaining: int, store: u32) -> Option<ErrorView> {
    if cost > remaining {
        Some(ErrorView::Core(CoreError::OutOfGas))
    } else if store > 2 {
        Some(ErrorView::InvalidArgument)
    } else if store != 0 {
        Some(ErrorView::Unsupported)
    } else {
        None
    }
}

/// Charges the base cost of a request and finds the sub-store it is for.
fn begin_request(ctx: &mut Context, cost: u64, store: u32) -> (result: Result<StoreKind, Error>)
    ensures
        same_but_gas_and_state(*old(ctx), *final(ctx)),
        final(ctx).state == old(ctx).state,
        cost > old(ctx).gas.remaining() ==> final(ctx).gas.used() == old(ctx).gas.used(),
        cost <= old(ctx).gas.remaining() ==> final(ctx).gas.used() == old(ctx).gas.used() + cost,
        request_error(cost, old(ctx).gas.remaining(), store) matches Some(e) ==> (result matches Err(
            err,
        ) && err@ == e),
        request_error(cost, old(ctx).gas.remaining(), store) is None ==> result == Ok::<
            StoreKind,
            Error,
        >(StoreKind::Public),
{
    match ctx.gas.use_gas(cost) {
        Err(e) => {
            return Err(Error::Core(e));
        },
        Ok(()) => {},
    }
    match StoreKind::from_tag(store) {
        None => Err(Error::InvalidArgument),
        Some(StoreKind::Public) => Ok(StoreKind::Public),
        Some(_) => Err(Error::Unsupported),
    }
}

/// Fetches a given key from the storage of an instance. The base cost is
/// charged first. A key that is absent gives `None`.
pub fn get(ctx: &mut Context, instance: InstanceId, store: u32, key: &[u8]) -> (result: Result<
    Option<Vec<u8>>,
    Error,
>)
    ensures
        same_but_gas_and_state(*old(ctx), *final(ctx)),
        final(ctx).state == old(ctx).state,
        ({
            let cost = old(ctx).state@.parameters.gas_costs.wasm_storage_get_base;
            let remaining = old(ctx).gas.remaining();
            &&& cost > remaining ==> final(ctx).gas.used() == old(ctx).gas.used()
            &&& cost <= remaining ==> final(ctx).gas.used() == old(ctx).gas.used() + cost
            &&& request_error(cost, remaining, store) matches Some(e) ==> (result matches Err(err)
                && err@ == e)
            &&& request_error(cost, remaining, store) is None ==> {
                let entry = old(ctx).state@.instance_entry(instance, StoreKind::Public, key@);
                &&& result is Ok
                &&& entry is None ==> result->Ok_0 is None
                &&& entry matches Some(value) ==> (result->Ok_0 matches Some(v) && v@ == value)
            }
        }),
{
    let cost = ctx.state.params().gas_costs.wasm_storage_get_base;
    let kind = match begin_request(ctx, cost, store) {
        Err(e) => {
            return Err(e);
        },
        Ok(kind) => kind,
    };
    Ok(ctx.state.instance_get(instance, kind, key))
}

/// Inserts a given key/value pair into the storage of an instance. The base
/// cost is charged first.
pub fn insert(ctx: &mut Context, instance: InstanceId, store: u32, key: &[u8], value: &[u8]) -> (result:
    Result<(), Error>)
    ensures
        same_but_gas_and_state(*old(ctx), *final(ctx)),
        ({
            let cost = old(ctx).state@.parameters.gas_costs.wasm_storage_insert_base;
            let remaining = old(ctx).gas.remaining();
            &&& cost > remaining ==> final(ctx).gas.used() == old(ctx).gas.used()
            &&& cost <= remaining ==> final(ctx).gas.used() == old(ctx).gas.used() + cost
            &&& request_error(cost, remaining, store) matches Some(e) ==> (result matches Err(err)
                && err@ == e) && final(ctx).state@ == old(ctx).state@
            &&& request_error(cost, remaining, store) is None ==> result is Ok && final(ctx).state@
                == old(ctx).state@.with_instance_entry(instance, StoreKind::Public, key@, value@)
        }),
{
    let cost = ctx.state.params().gas_costs.wasm_storage_insert_base;
    let kind = match begin_request(ctx, cost, store) {
        Err(e) => {
            return Err(e);
        },
        Ok(kind) => kind,
    };
    ctx.state.instance_insert(instance, kind, key, value);
    Ok(())
}

/// Removes a given key from the storage of an instance. The base cost is
/// charged first.
pub fn remove(ctx: &mut Context, instance: InstanceId, store: u32, key: &[u8]) -> (result: Result<
    (),
    Error,
>)
    ensures
        same_but_gas_and_state(*old(ctx), *final(ctx)),
        ({
            let cost = old(ctx).state@.parameters.gas_costs.wasm_storage_remove_base;
            let remaining = old(ctx).gas.remaining();
            &&& cost > remaining ==> final(ctx).gas.used() == old(ctx).gas.used()
            &&& cost <= remaining ==> final(ctx).gas.used() == old(ctx).gas.used() + cost
            &&& request_error(cost, remaining, store) matches Some(e) ==> (result matches Err(err)
                && err@ == e) && final(ctx).state@ == old(ctx).state@
            &&& request_error(cost, remaining, store) is None ==> result is Ok && final(ctx).state@
                == old(ctx).state@.without_instance_entry(instance, StoreKind::Public, key@)
        }),
{
    let cost = ctx.state.params().gas_costs.wasm_storage_remove_base;
    let kind = match begin_request(ctx, cost, store) {
        Err(e) => {
            return Err(e);
        },
        Ok(kind) => kind,
    };
    ctx.state.instance_remove(instance, kind, key);
    Ok(())
}

} // verus!
