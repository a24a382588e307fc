use cosmwasm_std::testing::{mock_dependencies, mock_env, mock_info, MockStorage};
use cosmwasm_std::{coins, Storage};
use counter_contract::contract::increment as advance;
use counter_contract::store::{load, save, update};
use counter_contract::{
    execute, execute_entry, instantiate, instantiate_entry, query, query_entry, ContractError,
    ExecuteMsg, GetNumResponse, InstantiateMsg, QueryMsg, State,
};

#[test]
fn proper_initialization() {
    let mut deps = mock_dependencies();

    let msg = InstantiateMsg { count: 17 };
    let info = mock_info("creator", &coins(1000, "earth"));

    let res = instantiate(&mut deps.storage, mock_env(), info, msg).unwrap();
    assert_eq!(0, res.messages.len());

    let res = query(&deps.storage, mock_env(), QueryMsg::GetNum {}).unwrap();
    let value: GetNumResponse = GetNumResponse::decode(&res).unwrap();
    assert_eq!(17, value.count);
}

#[test]
fn increment() {
    let mut deps = mock_dependencies();

    let msg = InstantiateMsg { count: 17 };
    let info = mock_info("creator", &coins(2, "token"));
    let _res = instantiate(&mut deps.storage, mock_env(), info, msg).unwrap();

    let info = mock_info("anyone", &coins(2, "token"));
    let msg = ExecuteMsg::Increment {};
    let _res = execute(&mut deps.storage, mock_env(), info, msg).unwrap();

    let res = query(&deps.storage, mock_env(), QueryMsg::GetNum {}).unwrap();
    let value: GetNumResponse = GetNumResponse::decode(&res).unwrap();
    assert_eq!(18, value.count);
}

fn count_in(storage: &MockStorage) -> Result<i8, ContractError> {
    let res = query(storage, mock_env(), QueryMsg::GetNum {})?;
    Ok(GetNumResponse::decode(&res)?.count)
}

#[test]
fn responses_are_empty() {
    let mut storage = MockStorage::new();
    let info = mock_info("creator", &[]);
    let res = instantiate(&mut storage, mock_env(), info.clone(), InstantiateMsg { count: 1 })
        .unwrap();
    assert!(res.messages.is_empty());
    assert!(res.attributes.is_empty());
    assert!(res.events.is_empty());
    assert!(res.data.is_none());
    let res = execute(&mut storage, mock_env(), info, ExecuteMsg::Increment {}).unwrap();
    assert!(res.messages.is_empty());
    assert!(res.attributes.is_empty());
    assert!(res.events.is_empty());
    assert!(res.data.is_none());
}

#[test]
fn query_answer_is_the_encoded_response() {
    let mut storage = MockStorage::new();
    let info = mock_info("creator", &[]);
    instantiate(&mut storage, mock_env(), info, InstantiateMsg { count: 17 }).unwrap();
    let res = query(&storage, mock_env(), QueryMsg::GetNum {}).unwrap();
    assert_eq!(res, b"{\"count\":17}".to_vec());
}

#[test]
fn record_is_stored_under_the_state_key() {
    let mut storage = MockStorage::new();
    let info = mock_info("creator", &[]);
    instantiate(&mut storage, mock_env(), info, InstantiateMsg { count: -3 }).unwrap();
    assert_eq!(storage.get(b"state"), Some(b"{\"count\":-3}".to_vec()));
}

#[test]
fn increment_adds_one_for_every_count_below_the_top() {
    for c in i8::MIN..i8::MAX {
        let mut storage = MockStorage::new();
        let info = mock_info("creator", &[]);
        instantiate(&mut storage, mock_env(), info.clone(), InstantiateMsg { count: c }).unwrap();
        execute(&mut storage, mock_env(), info, ExecuteMsg::Increment {}).unwrap();
        assert_eq!(count_in(&storage), Ok(c + 1));
    }
}

#[test]
fn increment_at_the_top_fails_and_changes_nothing() {
    let mut storage = MockStorage::new();
    let info = mock_info("creator", &[]);
    instantiate(&mut storage, mock_env(), info.clone(), InstantiateMsg { count: 127 }).unwrap();
    let before = storage.get(b"state");
    let err = execute(&mut storage, mock_env(), info, ExecuteMsg::Increment {}).unwrap_err();
    assert_eq!(err, ContractError::Overflow);
    assert_eq!(storage.get(b"state"), before);
    assert_eq!(count_in(&storage), Ok(127));
}

#[test]
fn uninitialized_access_fails() {
    let mut storage = MockStorage::new();
    let info = mock_info("anyone", &[]);
    let err = execute(&mut storage, mock_env(), info, ExecuteMsg::Increment {}).unwrap_err();
    assert_eq!(err, ContractError::NotFound);
    assert_eq!(storage.get(b"state"), None);
    let err = query(&storage, mock_env(), QueryMsg::GetNum {}).unwrap_err();
    assert_eq!(err, ContractError::NotFound);
    assert_eq!(storage.get(b"state"), None);
    assert_eq!(load(&storage), Err(ContractError::NotFound));
}

#[test]
fn reinitialization_overwrites() {
    let mut storage = MockStorage::new();
    let info = mock_info("creator", &[]);
    instantiate(&mut storage, mock_env(), info.clone(), InstantiateMsg { count: 5 }).unwrap();
    instantiate(&mut storage, mock_env(), info, InstantiateMsg { count: 9 }).unwrap();
    assert_eq!(count_in(&storage), Ok(9));
}

#[test]
fn corrupt_record_is_a_decode_error() {
    let mut storage = MockStorage::new();
    storage.set(b"state", b"{\"total\":1}");
    let info = mock_info("anyone", &[]);
    assert_eq!(load(&storage), Err(ContractError::Decode));
    let err = query(&storage, mock_env(), QueryMsg::GetNum {}).unwrap_err();
    assert_eq!(err, ContractError::Decode);
    let err = execute(&mut storage, mock_env(), info, ExecuteMsg::Increment {}).unwrap_err();
    assert_eq!(err, ContractError::Decode);
    assert_eq!(storage.get(b"state"), Some(b"{\"total\":1}".to_vec()));
}

#[test]
fn other_keys_are_left_alone() {
    let mut storage = MockStorage::new();
    storage.set(b"other", b"value");
    let info = mock_info("creator", &[]);
    instantiate(&mut storage, mock_env(), info.clone(), InstantiateMsg { count: 1 }).unwrap();
    execute(&mut storage, mock_env(), info, ExecuteMsg::Increment {}).unwrap();
    assert_eq!(storage.get(b"other"), Some(b"value".to_vec()));
    assert_eq!(count_in(&storage), Ok(2));
}

#[test]
fn save_then_load() {
    let mut storage = MockStorage::new();
    save(&mut storage, &State { count: -128 });
    assert_eq!(load(&storage), Ok(State { count: -128 }));
    assert_eq!(storage.get(b"state"), Some(b"{\"count\":-128}".to_vec()));
    save(&mut storage, &State { count: 42 });
    assert_eq!(load(&storage), Ok(State { count: 42 }));
}

#[test]
fn update_saves_what_the_action_returns() {
    let mut storage = MockStorage::new();
    save(&mut storage, &State { count: 10 });
    let out = update(&mut storage, |s: State| Ok(State { count: s.count * 2 }));
    assert_eq!(out, Ok(State { count: 20 }));
    assert_eq!(load(&storage), Ok(State { count: 20 }));
}

#[test]
fn update_writes_nothing_when_the_action_fails() {
    let mut storage = MockStorage::new();
    save(&mut storage, &State { count: 10 });
    let before = storage.get(b"state");
    let out = update(&mut storage, |_s: State| Err(ContractError::Overflow));
    assert_eq!(out, Err(ContractError::Overflow));
    assert_eq!(storage.get(b"state"), before);
    assert_eq!(load(&storage), Ok(State { count: 10 }));
}

#[test]
fn update_without_a_record_fails_and_does_not_call_the_action() {
    let mut storage = MockStorage::new();
    let mut called = false;
    let out = update(&mut storage, |s: State| {
        called = true;
        Ok(s)
    });
    assert_eq!(out, Err(ContractError::NotFound));
    assert!(!called);
    assert_eq!(storage.get(b"state"), None);
}

#[test]
fn advance_by_one() {
    assert_eq!(advance(State { count: 0 }), Ok(State { count: 1 }));
    assert_eq!(advance(State { count: -1 }), Ok(State { count: 0 }));
    assert_eq!(advance(State { count: -128 }), Ok(State { count: -127 }));
    assert_eq!(advance(State { count: 126 }), Ok(State { count: 127 }));
    assert_eq!(advance(State { count: 127 }), Err(ContractError::Overflow));
}

#[test]
fn entry_points_decode_and_dispatch() {
    let mut storage = MockStorage::new();
    let info = mock_info("creator", &[]);
    let res = instantiate_entry(&mut storage, mock_env(), info.clone(), b"{\"count\":17}").unwrap();
    assert_eq!(0, res.messages.len());
    let res = execute_entry(&mut storage, mock_env(), info, b"{\"increment\":{}}").unwrap();
    assert_eq!(0, res.messages.len());
    let res = query_entry(&storage, mock_env(), b"{\"get_count\":{}}").unwrap();
    assert_eq!(res, b"{\"count\":18}".to_vec());
}

#[test]
fn entry_points_reject_unknown_tags_without_touching_the_store() {
    let mut storage = MockStorage::new();
    let info = mock_info("anyone", &[]);
    let err = execute_entry(&mut storage, mock_env(), info.clone(), b"{\"decrement\":{}}")
        .unwrap_err();
    assert_eq!(err, ContractError::Decode);
    assert_eq!(storage.get(b"state"), None);
    let err = query_entry(&storage, mock_env(), b"{\"get_total\":{}}").unwrap_err();
    assert_eq!(err, ContractError::Decode);
    let err = instantiate_entry(&mut storage, mock_env(), info.clone(), b"{\"value\":1}")
        .unwrap_err();
    assert_eq!(err, ContractError::Decode);
    assert_eq!(storage.get(b"state"), None);

    instantiate(&mut storage, mock_env(), info.clone(), InstantiateMsg { count: 3 }).unwrap();
    let before = storage.get(b"state");
    let err = execute_entry(&mut storage, mock_env(), info.clone(), b"{\"reset\":{}}").unwrap_err();
    assert_eq!(err, ContractError::Decode);
    let err = instantiate_entry(&mut storage, mock_env(), info, b"{\"count\":300}").unwrap_err();
    assert_eq!(err, ContractError::Decode);
    assert_eq!(storage.get(b"state"), before);
}

#[test]
fn decode_error_comes_before_not_found() {
    let mut storage = MockStorage::new();
    let info = mock_info("anyone", &[]);
    let err = execute_entry(&mut storage, mock_env(), info.clone(), b"").unwrap_err();
    assert_eq!(err, ContractError::Decode);
    let err = execute_entry(&mut storage, mock_env(), info, b"{\"increment\":{}}").unwrap_err();
    assert_eq!(err, ContractError::NotFound);
    let err = query_entry(&storage, mock_env(), b"{\"get_count\":{}}").unwrap_err();
    assert_eq!(err, ContractError::NotFound);
}

#[test]
fn entry_points_accept_spaced_requests() {
    let mut storage = MockStorage::new();
    let info = mock_info("creator", &[]);
    instantiate_entry(&mut storage, mock_env(), info.clone(), b"{ \"count\": 17 }").unwrap();
    assert_eq!(storage.get(b"state"), Some(b"{\"count\":17}".to_vec()));
    execute_entry(&mut storage, mock_env(), info, b"{\"increment\": {}}").unwrap();
    let res = query_entry(&storage, mock_env(), b"{\"get_count\": {}}").unwrap();
    assert_eq!(res, b"{\"count\":18}".to_vec());
}

#[test]
fn error_messages() {
    assert_eq!(
        ContractError::Decode.message(),
        "the bytes are no payload of the expected shape"
    );
    assert_eq!(ContractError::NotFound.message(), "no record has been stored");
    assert_eq!(ContractError::Overflow.message(), "the counter is at its largest value");
}
