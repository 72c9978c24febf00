//! Core of a blockchain node's peer-to-peer synchronization services.
//!
//! The crate models a node's view of the block tree and states, as
//! verified contracts, what each service operation returns: chain-tip
//! discovery, point lookups for blocks, headers and fragments,
//! ancestor-bounded range pulls, inbound sinks for solicited uploads,
//! and the duplex announcement subscriptions.  A separate module holds
//! the transaction witness: its byte layouts, an abstract model of the
//! authentication collaborator, and the tagged wire codec.

pub mod block;
pub mod chain;
pub mod codec;
pub mod error;
pub mod fragment;
pub mod ids;
pub mod stream;
pub mod subscription;
pub mod witness;
