//! A small proof-of-stake-flavoured blockchain: block and chain data
//! structures, the rules a node applies to accept blocks, and the
//! vote bookkeeping its peers use to elect the next block producer.

pub mod block;
pub mod blockchain;
pub mod chain;
pub mod clock;
pub mod election;
pub mod error;
pub mod filter;
pub mod p2p;
pub mod peer;
pub mod wallet;
