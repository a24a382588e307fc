//! The accessor: the one place that reads and writes the record in the store.

use crate::error::ContractError;
use crate::schema::{lemma_count_record_parts, lemma_int_text_shape, State};
use cosmwasm_std::MemoryStorage;
use vstd::prelude::*;

verus! {

/// The in-memory key-value store of `cosmwasm_std`.
#[verifier::external_type_specification]
#[verifier::external_body]
pub struct ExMemoryStorage(cosmwasm_std::MemoryStorage);

/// The entries that a store holds: each key with its value.
pub uninterp spec fn entries(storage: MemoryStorage) -> Map<Seq<u8>, Seq<u8>>;

/// The key of the record: the bytes of `state`.
pub open spec fn state_key() -> Seq<u8> {
    seq!['s' as u8, 't' as u8, 'a' as u8, 't' as u8, 'e' as u8]
}

/// `Storage::get` on a `MemoryStorage`: a copy of the value under `key`, or
/// nothing where the store has no such key.
#[verifier::external_body]
fn storage_get(storage: &MemoryStorage, key: &[u8]) -> (r: Option<Vec<u8>>)
    ensures
        match r {
            Some(value) => entries(*storage).contains_key(key@) && entries(*storage)[key@]
                == value@,
            None => !entries(*storage).contains_key(key@),
        },
{
    cosmwasm_std::Storage::get(storage, key)
}

/// `Storage::set` on a `MemoryStorage`: puts `value` under `key`, in place of
/// what was there, and leaves every other entry alone. The store panics on an
/// empty value, so none may be handed in.
#[verifier::external_body]
fn storage_set(storage: &mut MemoryStorage, key: &[u8], value: &[u8])
    requires
        value@.len() > 0,
    ensures
        entries(*final(storage)) == entries(*old(storage)).insert(key@, value@),
{
    cosmwasm_std::Storage::set(storage, key, value)
}

/// The key of the record.
fn state_key_bytes() -> (out: Vec<u8>)
    ensures
        out@ == state_key(),
{
    let out: Vec<u8> = vec!['s' as u8, 't' as u8, 'a' as u8, 't' as u8, 'e' as u8];
    proof {
        assert(out@ =~= state_key());
    }
    out
}

/// What `load` gives on a store with the entries `m`.
pub open spec fn load_result(m: Map<Seq<u8>, Seq<u8>>) -> Result<State, ContractError> {
    if m.contains_key(state_key()) {
        State::parse(m[state_key()])
    } else {
        Err(ContractError::NotFound)
    }
}

/// The entries `m` with the record replaced by `state`.
pub open spec fn with_state(m: Map<Seq<u8>, Seq<u8>>, state: State) -> Map<Seq<u8>, Seq<u8>> {
    m.insert(state_key(), state.wire())
}

/// Reads the record. Fails with `NotFound` where none was ever saved, and with
/// `Decode` where the bytes under the key are no record.
pub fn load(storage: &MemoryStorage) -> (r: Result<State, ContractError>)
    ensures
        r == load_result(entries(*storage)),
{
    let key: Vec<u8> = state_key_bytes();
    match storage_get(storage, key.as_slice()) {
        Some(bytes) => State::decode(bytes.as_slice()),
        None => Err(ContractError::NotFound),
    }
}

/// Writes the record, in place of an earlier one if there is any.
pub fn save(storage: &mut MemoryStorage, state: &State)
    ensures
        entries(*final(storage)) == with_state(entries(*old(storage)), *state),
{
    let key: Vec<u8> = state_key_bytes();
    let bytes: Vec<u8> = state.encode();
    proof {
        lemma_count_record_parts(state.count);
        lemma_int_text_shape(state.count);
    }
    storage_set(storage, key.as_slice(), bytes.as_slice());
}

/// Loads the record, hands it to `action`, and saves what `action` returns.
/// Where the load or `action` fails, the error is returned and the store is
/// left exactly as it was.
pub fn update<F>(storage: &mut MemoryStorage, action: F) -> (r: Result<State, ContractError>) where
    F: FnOnce(State) -> Result<State, ContractError>,

    requires
        forall|s: State|
            load_result(entries(*old(storage))) == Ok::<State, ContractError>(s)
                ==> #[trigger] action.requires((s,)),
    ensures
        match load_result(entries(*old(storage))) {
            Ok(s) => action.ensures((s,), r) && match r {
                Ok(t) => entries(*final(storage)) == with_state(entries(*old(storage)), t),
                Err(_) => entries(*final(storage)) == entries(*old(storage)),
            },
            Err(e) => r == Err::<State, ContractError>(e) && entries(*final(storage)) == entries(
                *old(storage),
            ),
        },
{
    match load(storage) {
        Ok(input) => {
            match action(input) {
                Ok(output) => {
                    save(storage, &output);
                    Ok(output)
                },
                Err(e) => Err(e),
            }
        },
        Err(e) => Err(e),
    }
}

} // verus!
