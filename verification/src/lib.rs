//! A counter kept as one record in a key-value store.
//!
//! The record is written once by `instantiate`, advanced by one with each
//! `execute`, and read back by `query`. Every access to the store goes through
//! the accessor in `store`; the byte layout of the record and of the messages
//! is fixed in `schema`, and `spacing` says where a payload may hold
//! whitespace. What holds of the operations taken together is proved in `laws`.

pub mod contract;
pub mod error;
pub mod laws;
pub mod schema;
pub mod spacing;
pub mod store;

pub use contract::{execute, execute_entry, instantiate, instantiate_entry, query, query_entry};
pub use error::ContractError;
pub use schema::{ExecuteMsg, GetNumResponse, InstantiateMsg, QueryMsg, State};
