//! An Ethereum JSON-RPC gateway core: request envelopes and identifiers, classification of
//! raw responses into typed results, and ABI-driven decoding of event logs and call data.

pub mod text;
pub mod hexcodec;
pub mod models;
pub mod abi;
pub mod decoder;
pub mod nonce;
pub mod utils;
pub mod json;
pub mod records;
pub mod results;
pub mod rpc;
pub mod calls;
pub mod service;
