//! Pre-execution structural analysis of EVM transactions.
//!
//! The library holds the decisions of a local simulation proxy: what the
//! risk inspector records while a transaction runs, how an
//! `eth_sendTransaction` request is read, and how upstream RPC answers are
//! turned into account state.

pub mod primitives;
pub mod render;
pub mod table;
pub mod abi;
pub mod inspector;
pub mod parse;
pub mod request;
pub mod upstream;
pub mod properties;
pub mod agent;
