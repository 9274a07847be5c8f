//! Raffle protocol between an on-chain lotto contract and an off-chain draw
//! worker: the raffle state machine, its configuration, the request and
//! response messages exchanged over the rollup queue, the reward ledger, and
//! the number draw with its verification.
use vstd::prelude::*;

pub mod config;
pub mod dapp_staking;
pub mod draw;
pub mod error;
pub mod indexer;
pub mod lotto_contract;
pub mod message;
pub mod raffle;
pub mod reward;
pub mod types;
pub mod worker;

verus! {

} // verus!
