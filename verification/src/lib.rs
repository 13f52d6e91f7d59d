//! A single-node ledger runtime whose contracts run against a persistent
//! key-value store. The crate covers the transaction-execution pipeline:
//! the deterministic binary codec shared by host and guest, the storage
//! layer, the per-call execution context and syscall bridge, the contract
//! loader and gas accounting, the root system program that owns the account
//! lifecycle, and the node that sequences transactions into blocks.

pub mod bridge;
pub mod codec;
pub mod contracts;
pub mod context;
pub mod gas;
pub mod digest;
pub mod errors;
pub mod executor;
pub mod keys;
pub mod names;
pub mod node;
pub mod storage;
pub mod system;
pub mod types;
pub mod wire;
