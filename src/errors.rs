use vstd::prelude::*;

verus! {

/// Every way an operation of the market can be refused.
#[derive(Copy, Clone, Debug, PartialEq, Eq, Structural)]
pub enum ContractErrors {
    AlreadyInitiated,
    NotInitiated,
    InvalidAsset,
    GameAlreadyExists,
    InvalidDeadline,
    InvalidTargetDate,
    GameDoesntExist,
    GameDeadlineReached,
    AlreadyPredicted,
    InvalidPredictionResult,
    InvalidPredictionAmount,
    GameHasNotBeenExecuted,
    PredictionDoesntExist,
    PredictionWasIncorrect,
    PredictionAlreadyClaimed,
    FailedToWithdrawFunds,
    FailedToPayHostShare,
    FailedToPayProtocolShare,
    AssetPriceNotFound,
    GameCantBeExecuted,
    AssetPriceIsNotUpdated,
    FailedToDeposit,
    GameAlreadyExecuted,
}

/// The stable number under which each error is published.
pub open spec fn error_code(e: ContractErrors) -> u32 {
    match e {
        ContractErrors::AlreadyInitiated => 0,
        ContractErrors::NotInitiated => 1,
        ContractErrors::InvalidAsset => 2,
        ContractErrors::GameAlreadyExists => 3,
        ContractErrors::InvalidDeadline => 4,
        ContractErrors::InvalidTargetDate => 5,
        ContractErrors::GameDoesntExist => 6,
        ContractErrors::GameDeadlineReached => 7,
        ContractErrors::AlreadyPredicted => 8,
        ContractErrors::InvalidPredictionResult => 9,
        ContractErrors::InvalidPredictionAmount => 10,
        ContractErrors::GameHasNotBeenExecuted => 11,
        ContractErrors::PredictionDoesntExist => 12,
        ContractErrors::PredictionWasIncorrect => 13,
        ContractErrors::PredictionAlreadyClaimed => 14,
        ContractErrors::FailedToWithdrawFunds => 15,
        ContractErrors::FailedToPayHostShare => 16,
        ContractErrors::FailedToPayProtocolShare => 17,
        ContractErrors::AssetPriceNotFound => 18,
        ContractErrors::GameCantBeExecuted => 19,
        ContractErrors::AssetPriceIsNotUpdated => 20,
        ContractErrors::FailedToDeposit => 21,
        ContractErrors::GameAlreadyExecuted => 22,
    }
}

impl ContractErrors {
    /// The error's stable number.
    pub fn code(&self) -> (r: u32)
        ensures
            r == error_code(*self),
    {
        match self {
            ContractErrors::AlreadyInitiated => 0,
            ContractErrors::NotInitiated => 1,
            ContractErrors::InvalidAsset => 2,
            ContractErrors::GameAlreadyExists => 3,
            ContractErrors::InvalidDeadline => 4,
            ContractErrors::InvalidTargetDate => 5,
            ContractErrors::GameDoesntExist => 6,
            ContractErrors::GameDeadlineReached => 7,
            ContractErrors::AlreadyPredicted => 8,
            ContractErrors::InvalidPredictionResult => 9,
            ContractErrors::InvalidPredictionAmount => 10,
            ContractErrors::GameHasNotBeenExecuted => 11,
            ContractErrors::PredictionDoesntExist => 12,
            ContractErrors::PredictionWasIncorrect => 13,
            ContractErrors::PredictionAlreadyClaimed => 14,
            ContractErrors::FailedToWithdrawFunds => 15,
            ContractErrors::FailedToPayHostShare => 16,
            ContractErrors::FailedToPayProtocolShare => 17,
            ContractErrors::AssetPriceNotFound => 18,
            ContractErrors::GameCantBeExecuted => 19,
            ContractErrors::AssetPriceIsNotUpdated => 20,
            ContractErrors::FailedToDeposit => 21,
            ContractErrors::GameAlreadyExecuted => 22,
        }
    }
}

} // verus!
