//! The three operations, and the entry points that decode a request before
//! they run one.

use crate::error::ContractError;
use crate::schema::{ExecuteMsg, GetNumResponse, InstantiateMsg, QueryMsg, State};
use crate::store::{entries, load, load_result, save, update, with_state};
use cosmwasm_std::{Empty, Env, MemoryStorage, MessageInfo, Response};
use vstd::prelude::*;

verus! {

/// The block and contract that an invocation runs in, as the host describes them.
#[verifier::external_type_specification]
#[verifier::external_body]
pub struct ExEnv(cosmwasm_std::Env);

/// The sender of an invocation and the funds sent along, as the host describes them.
#[verifier::external_type_specification]
#[verifier::external_body]
pub struct ExMessageInfo(cosmwasm_std::MessageInfo);

/// The marker for "no custom message".
#[verifier::external_type_specification]
#[verifier::external_body]
pub struct ExEmpty(cosmwasm_std::Empty);

/// What a successful invocation hands back to the host.
#[verifier::external_type_specification]
#[verifier::external_body]
#[verifier::reject_recursive_types(T)]
pub struct ExResponse<T>(cosmwasm_std::Response<T>);

/// `Response::new`: a response without messages, attributes, events or data.
/// Nothing is claimed of it here.
#[verifier::external_body]
fn empty_response() -> Response<Empty> {
    Response::new()
}

/// The record after one increment: the counter one higher, or `Overflow` where
/// it already stands at the largest value.
pub open spec fn advanced(state: State) -> Result<State, ContractError> {
    if state.count == i8::MAX {
        Err(ContractError::Overflow)
    } else {
        Ok(State { count: (state.count + 1) as i8 })
    }
}

/// The entries `m` after `instantiate` with `msg`.
pub open spec fn instantiated(m: Map<Seq<u8>, Seq<u8>>, msg: InstantiateMsg) -> Map<
    Seq<u8>,
    Seq<u8>,
> {
    with_state(m, State { count: msg.count })
}

/// The entries `m` after a successful `execute` with `msg`, or the error with
/// which it fails.
pub open spec fn executed(m: Map<Seq<u8>, Seq<u8>>, msg: ExecuteMsg) -> Result<
    Map<Seq<u8>, Seq<u8>>,
    ContractError,
> {
    match msg {
        ExecuteMsg::Increment {  } => match load_result(m) {
            Ok(state) => match advanced(state) {
                Ok(next) => Ok(with_state(m, next)),
                Err(e) => Err(e),
            },
            Err(e) => Err(e),
        },
    }
}

/// The answer of `query` to `msg` on the entries `m`.
pub open spec fn queried(m: Map<Seq<u8>, Seq<u8>>, msg: QueryMsg) -> Result<
    GetNumResponse,
    ContractError,
> {
    match msg {
        QueryMsg::GetNum {  } => match load_result(m) {
            Ok(state) => Ok(GetNumResponse { count: state.count }),
            Err(e) => Err(e),
        },
    }
}

/// Advances the counter by one. At the largest value it fails with `Overflow`
/// rather than wrap around.
pub fn increment(state: State) -> (r: Result<State, ContractError>)
    ensures
        r == advanced(state),
{
    if state.count == i8::MAX {
        Err(ContractError::Overflow)
    } else {
        Ok(State { count: state.count + 1 })
    }
}

/// Writes the first record, with the counter at `msg.count`. A record that is
/// already there is overwritten without complaint.
pub fn instantiate(
    storage: &mut MemoryStorage,
    _env: Env,
    _info: MessageInfo,
    msg: InstantiateMsg,
) -> (r: Result<Response<Empty>, ContractError>)
    ensures
        r is Ok,
        entries(*final(storage)) == instantiated(entries(*old(storage)), msg),
{
    let state = State { count: msg.count };
    save(storage, &state);
    Ok(empty_response())
}

/// Runs one operation on the record. It fails with `NotFound` before the first
/// `instantiate`, with `Decode` where the stored bytes are no record, and with
/// `Overflow` where the counter cannot go higher; a failure changes nothing.
pub fn execute(
    storage: &mut MemoryStorage,
    _env: Env,
    _info: MessageInfo,
    msg: ExecuteMsg,
) -> (r: Result<Response<Empty>, ContractError>)
    ensures
        match executed(entries(*old(storage)), msg) {
            Ok(m) => r is Ok && entries(*final(storage)) == m,
            Err(e) => r is Err && r->Err_0 == e && entries(*final(storage)) == entries(
                *old(storage),
            ),
        },
{
    match msg {
        ExecuteMsg::Increment {  } => {
            match update(storage, increment) {
                Ok(_) => Ok(empty_response()),
                Err(e) => Err(e),
            }
        },
    }
}

/// Answers one question about the record, as an encoded `GetNumResponse`. It
/// fails with `NotFound` before the first `instantiate` and with `Decode` where
/// the stored bytes are no record.
pub fn query(storage: &MemoryStorage, _env: Env, msg: QueryMsg) -> (r: Result<
    Vec<u8>,
    ContractError,
>)
    ensures
        match queried(entries(*storage), msg) {
            Ok(answer) => r is Ok && r->Ok_0@ == answer.wire(),
            Err(e) => r is Err && r->Err_0 == e,
        },
{
    match msg {
        QueryMsg::GetNum {  } => {
            match load(storage) {
                Ok(state) => {
                    let answer = GetNumResponse { count: state.count };
                    Ok(answer.encode())
                },
                Err(e) => Err(e),
            }
        },
    }
}

/// Decodes an `InstantiateMsg` and runs `instantiate` on it. A request that
/// does not decode fails with `Decode` and the store is left as it was.
pub fn instantiate_entry(
    storage: &mut MemoryStorage,
    env: Env,
    info: MessageInfo,
    request: &[u8],
) -> (r: Result<Response<Empty>, ContractError>)
    ensures
        match InstantiateMsg::parse(request@) {
            Ok(msg) => r is Ok && entries(*final(storage)) == instantiated(
                entries(*old(storage)),
                msg,
            ),
            Err(e) => r is Err && r->Err_0 == e && entries(*final(storage)) == entries(
                *old(storage),
            ),
        },
{
    match InstantiateMsg::decode(request) {
        Ok(msg) => instantiate(storage, env, info, msg),
        Err(e) => Err(e),
    }
}

/// Decodes an `ExecuteMsg` and runs `execute` on it. A request that does not
/// decode, an unknown tag among them, fails with `Decode` and the store is
/// left as it was.
pub fn execute_entry(
    storage: &mut MemoryStorage,
    env: Env,
    info: MessageInfo,
    request: &[u8],
) -> (r: Result<Response<Empty>, ContractError>)
    ensures
        match ExecuteMsg::parse(request@) {
            Ok(msg) => match executed(entries(*old(storage)), msg) {
                Ok(m) => r is Ok && entries(*final(storage)) == m,
                Err(e) => r is Err && r->Err_0 == e && entries(*final(storage)) == entries(
                    *old(storage),
                ),
            },
            Err(e) => r is Err && r->Err_0 == e && entries(*final(storage)) == entries(
                *old(storage),
            ),
        },
{
    match ExecuteMsg::decode(request) {
        Ok(msg) => execute(storage, env, info, msg),
        Err(e) => Err(e),
    }
}

/// Decodes a `QueryMsg` and runs `query` on it. A request that does not decode,
/// an unknown tag among them, fails with `Decode`. The store is only read.
pub fn query_entry(storage: &MemoryStorage, env: Env, request: &[u8]) -> (r: Result<
    Vec<u8>,
    ContractError,
>)
    ensures
        match QueryMsg::parse(request@) {
            Ok(msg) => match queried(entries(*storage), msg) {
                Ok(answer) => r is Ok && r->Ok_0@ == answer.wire(),
                Err(e) => r is Err && r->Err_0 == e,
            },
            Err(e) => r is Err && r->Err_0 == e,
        },
{
    match QueryMsg::decode(request) {
        Ok(msg) => query(storage, env, msg),
        Err(e) => Err(e),
    }
}

} // verus!
