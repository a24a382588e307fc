//! What holds of the encodings and of the three operations taken together.

use crate::contract::{executed, instantiated, queried};
use crate::error::ContractError;
use crate::schema::{
    count_record, get_count_wire, increment_wire, lemma_count_record_injective,
    lemma_count_record_solid, lemma_operation_wires_solid, record_count, ExecuteMsg,
    GetNumResponse, InstantiateMsg, QueryMsg, State,
};
use crate::spacing::{compact, solid};
use crate::store::{load_result, state_key, with_state};
use vstd::prelude::*;

verus! {

/// Reading a `{"count":N}` payload gives back the `N` it was written for.
pub proof fn lemma_count_record_round_trip(c: i8)
    ensures
        record_count(count_record(c)) == Some(c),
        record_count(compact(count_record(c))) == Some(c),
{
    lemma_count_record_solid(c);
    let s = count_record(c);
    assert(exists|d: i8| count_record(d) == s);
    let d = choose|d: i8| count_record(d) == s;
    lemma_count_record_injective(d, c);
}

/// Decoding an encoded record gives the record back.
pub proof fn lemma_state_round_trip(x: State)
    ensures
        State::parse(x.wire()) == Ok::<State, ContractError>(x),
{
    lemma_count_record_round_trip(x.count);
}

/// Decoding an encoded `InstantiateMsg` gives the message back.
pub proof fn lemma_instantiate_msg_round_trip(x: InstantiateMsg)
    ensures
        InstantiateMsg::parse(x.wire()) == Ok::<InstantiateMsg, ContractError>(x),
{
    lemma_count_record_round_trip(x.count);
}

/// Decoding an encoded `GetNumResponse` gives the answer back.
pub proof fn lemma_get_num_response_round_trip(x: GetNumResponse)
    ensures
        GetNumResponse::parse(x.wire()) == Ok::<GetNumResponse, ContractError>(x),
{
    lemma_count_record_round_trip(x.count);
}

/// Decoding an encoded `ExecuteMsg` gives the message back.
pub proof fn lemma_execute_msg_round_trip(x: ExecuteMsg)
    ensures
        ExecuteMsg::parse(x.wire()) == Ok::<ExecuteMsg, ContractError>(x),
{
    lemma_operation_wires_solid();
}

/// Decoding an encoded `QueryMsg` gives the message back.
pub proof fn lemma_query_msg_round_trip(x: QueryMsg)
    ensures
        QueryMsg::parse(x.wire()) == Ok::<QueryMsg, ContractError>(x),
{
    lemma_operation_wires_solid();
}

/// A payload decodes to an operation only if, its insignificant whitespace
/// aside, it is the payload of a known one; every other payload, whatever its
/// tag, is a `Decode` error.
pub proof fn lemma_unknown_tag_rejected(s: Seq<u8>)
    ensures
        compact(s) != increment_wire() ==> ExecuteMsg::parse(s) == Err::<
            ExecuteMsg,
            ContractError,
        >(ContractError::Decode),
        compact(s) != get_count_wire() ==> QueryMsg::parse(s) == Err::<QueryMsg, ContractError>(
            ContractError::Decode,
        ),
        ExecuteMsg::parse(s) is Ok <==> compact(s) == increment_wire(),
        QueryMsg::parse(s) is Ok <==> compact(s) == get_count_wire(),
{
}

/// A decoder gives a value for exactly the payloads whose compact form is
/// that value's encoding.
pub proof fn lemma_decodes_exactly_the_encoding(s: Seq<u8>, c: i8, op: ExecuteMsg, ask: QueryMsg)
    ensures
        State::parse(s) == Ok::<State, ContractError>(State { count: c }) <==> compact(s) == (State {
            count: c,
        }).wire(),
        InstantiateMsg::parse(s) == Ok::<InstantiateMsg, ContractError>(InstantiateMsg { count: c })
            <==> compact(s) == (InstantiateMsg { count: c }).wire(),
        GetNumResponse::parse(s) == Ok::<GetNumResponse, ContractError>(GetNumResponse { count: c })
            <==> compact(s) == (GetNumResponse { count: c }).wire(),
        ExecuteMsg::parse(s) == Ok::<ExecuteMsg, ContractError>(op) <==> compact(s) == op.wire(),
        QueryMsg::parse(s) == Ok::<QueryMsg, ContractError>(ask) <==> compact(s) == ask.wire(),
{
    if compact(s) == count_record(c) {
        lemma_count_record_round_trip(c);
    }
}

/// Whitespace that is left in the compact form parts a token, and such a
/// payload decodes to nothing.
pub proof fn lemma_broken_token_rejected(s: Seq<u8>)
    requires
        !solid(compact(s)),
    ensures
        State::parse(s) == Err::<State, ContractError>(ContractError::Decode),
        InstantiateMsg::parse(s) == Err::<InstantiateMsg, ContractError>(ContractError::Decode),
        GetNumResponse::parse(s) == Err::<GetNumResponse, ContractError>(ContractError::Decode),
        ExecuteMsg::parse(s) == Err::<ExecuteMsg, ContractError>(ContractError::Decode),
        QueryMsg::parse(s) == Err::<QueryMsg, ContractError>(ContractError::Decode),
{
    lemma_operation_wires_solid();
    if let Some(c) = record_count(compact(s)) {
        lemma_count_record_solid(c);
    }
    if compact(s) == increment_wire() {
        assert(solid(increment_wire()));
    }
    if compact(s) == get_count_wire() {
        assert(solid(get_count_wire()));
    }
}

/// A record that was saved is the record that is loaded.
pub proof fn lemma_load_after_save(m: Map<Seq<u8>, Seq<u8>>, state: State)
    ensures
        load_result(with_state(m, state)) == Ok::<State, ContractError>(state),
{
    lemma_state_round_trip(state);
}

/// After `instantiate` with a count, `query` answers with that count, whatever
/// the store held before: a second `instantiate` overwrites the first.
pub proof fn lemma_instantiate_then_query(
    m: Map<Seq<u8>, Seq<u8>>,
    msg: InstantiateMsg,
    ask: QueryMsg,
)
    ensures
        queried(instantiated(m, msg), ask) == Ok::<GetNumResponse, ContractError>(
            GetNumResponse { count: msg.count },
        ),
{
    lemma_load_after_save(m, State { count: msg.count });
}

/// After `instantiate` with a count below the largest value, `execute`
/// succeeds and `query` then answers with the count plus one.
pub proof fn lemma_increment_adds_one(
    m: Map<Seq<u8>, Seq<u8>>,
    msg: InstantiateMsg,
    step: ExecuteMsg,
    ask: QueryMsg,
)
    requires
        msg.count < i8::MAX,
    ensures
        executed(instantiated(m, msg), step) is Ok,
        queried(executed(instantiated(m, msg), step)->Ok_0, ask) == Ok::<
            GetNumResponse,
            ContractError,
        >(GetNumResponse { count: (msg.count + 1) as i8 }),
{
    let before = State { count: msg.count };
    let after = State { count: (msg.count + 1) as i8 };
    lemma_load_after_save(m, before);
    lemma_load_after_save(instantiated(m, msg), after);
}

/// At the largest value `execute` fails with `Overflow`.
pub proof fn lemma_increment_at_top_fails(
    m: Map<Seq<u8>, Seq<u8>>,
    msg: InstantiateMsg,
    step: ExecuteMsg,
)
    requires
        msg.count == i8::MAX,
    ensures
        executed(instantiated(m, msg), step) == Err::<Map<Seq<u8>, Seq<u8>>, ContractError>(
            ContractError::Overflow,
        ),
{
    lemma_load_after_save(m, State { count: msg.count });
}

/// On a store without a record, `execute` and `query` both fail with `NotFound`.
pub proof fn lemma_uninitialized_access_fails(
    m: Map<Seq<u8>, Seq<u8>>,
    step: ExecuteMsg,
    ask: QueryMsg,
)
    requires
        !m.contains_key(state_key()),
    ensures
        executed(m, step) == Err::<Map<Seq<u8>, Seq<u8>>, ContractError>(ContractError::NotFound),
        queried(m, ask) == Err::<GetNumResponse, ContractError>(ContractError::NotFound),
{
}

/// Once a record can be loaded, it can still be loaded after every successful
/// `execute` and after every `instantiate`: the record is never absent again.
pub proof fn lemma_record_stays(
    m: Map<Seq<u8>, Seq<u8>>,
    msg: InstantiateMsg,
    step: ExecuteMsg,
)
    ensures
        load_result(instantiated(m, msg)) is Ok,
        executed(m, step) is Ok ==> load_result(executed(m, step)->Ok_0) is Ok,
        executed(m, step) is Ok ==> load_result(m) is Ok,
{
    lemma_load_after_save(m, State { count: msg.count });
    if let Ok(state) = load_result(m) {
        if state.count < i8::MAX {
            lemma_load_after_save(m, State { count: (state.count + 1) as i8 });
        }
    }
}

/// The operations touch no key but the record's own.
pub proof fn lemma_other_keys_untouched(
    m: Map<Seq<u8>, Seq<u8>>,
    msg: InstantiateMsg,
    step: ExecuteMsg,
    key: Seq<u8>,
)
    requires
        key != state_key(),
    ensures
        instantiated(m, msg).contains_key(key) == m.contains_key(key),
        m.contains_key(key) ==> instantiated(m, msg)[key] == m[key],
        executed(m, step) is Ok ==> executed(m, step)->Ok_0.contains_key(key) == m.contains_key(
            key,
        ),
        executed(m, step) is Ok && m.contains_key(key) ==> executed(m, step)->Ok_0[key] == m[key],
{
}

} // verus!
