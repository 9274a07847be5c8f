use vstd::prelude::*;

use crate::types::{AccountId, Number, RaffleId};

verus! {

/// What the contract asks of the draw worker.
#[derive(Debug, Clone, PartialEq, Eq)]
pub enum Request {
    /// Draw `.0` distinct numbers between `.1` and `.2`, both included.
    DrawNumbers(u8, Number, Number),
    /// Find the participants whose picks hold all these numbers.
    CheckWinners(Vec<Number>),
}

/// A request for one raffle, pushed by the contract into the rollup queue.
#[derive(Debug, Clone, PartialEq, Eq)]
pub struct LottoRequestMessage {
    pub raffle_id: RaffleId,
    pub request: Request,
}

/// What the draw worker answers.
#[derive(Debug, Clone, PartialEq, Eq)]
pub enum Response {
    /// The drawn numbers.
    Numbers(Vec<Number>),
    /// The accounts that won.
    Winners(Vec<AccountId>),
}

/// The worker's answer; it carries the request it answers, which is how the
/// contract ties it to the state of its raffle.
#[derive(Debug, Clone, PartialEq, Eq)]
pub struct LottoResponseMessage {
    pub request: LottoRequestMessage,
    pub response: Response,
}

} // verus!
