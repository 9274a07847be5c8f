use vstd::prelude::*;

verus! {

/// Errors of the raffle logic: its configuration, its state machine and its
/// reward ledger.
#[derive(Debug, Clone, Copy, PartialEq, Eq, Structural)]
pub enum RaffleError {
    IncorrectRaffle,
    IncorrectStatus,
    IncorrectConfig,
    ConfigNotSet,
    DifferentConfig,
    IncorrectNbNumbers,
    IncorrectNumbers,
    DifferentResults,
    ExistingResults,
    ExistingWinners,
    TransferError,
    AddOverFlow,
    SubOverFlow,
    DivByZero,
    NoReward,
}

} // verus!
