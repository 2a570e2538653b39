//! A minimal single-producer ledger node library.
//!
//! Peers submit signed transfer transactions over a binary wire protocol;
//! the node validates them, pools them in a fee-prioritised mempool,
//! batches them into blocks, and applies each block atomically to an
//! in-memory account ledger.  Every function here carries a contract that
//! states exactly what it computes; network and file plumbing live outside
//! this crate.

pub mod block;
pub mod blockcodec;
pub mod bytes_be;
pub mod codec;
pub mod crypto;
pub mod hex;
pub mod mempool;
pub mod node;
pub mod producer;
pub mod state;
pub mod storage;
pub mod strutil;
pub mod tx;
pub mod validate;
