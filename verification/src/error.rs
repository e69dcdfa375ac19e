//! What a request for funds can end with, other than the funds.

use crate::clients::near::Rejection;
use crate::clients::TransferError;
use crate::submit::Failure;
use crate::submit::Completion;
use vstd::prelude::*;
use vstd::string::StringExecFns;

verus! {

/// Why a request for funds was not served.
#[derive(Debug)]
pub enum AppError {
    /// The address, or the network address the request came from, has used up its
    /// quota for this window.
    LimitExceeded,
    /// The amount is no number in decimal digits.
    InvalidAmount,
    /// The backend has no token of the name asked for.
    UnknownToken,
    /// The transfer was refused for good.
    Rejected(Rejection),
    /// The transfer was given up.
    Failed(Failure),
}

impl AppError {
    /// The error that stands for the end of a transfer, if it did not end well.
    pub open spec fn of_outcome(outcome: Completion) -> Option<AppError> {
        match outcome {
            Completion::Confirmed => None,
            Completion::Rejected(rejection) => Some(AppError::Rejected(rejection)),
            Completion::Failed(failure) => Some(AppError::Failed(failure)),
        }
    }

    /// The error that stands for a transfer that was not begun.
    pub open spec fn of_transfer_error(error: TransferError) -> AppError {
        match error {
            TransferError::TokenNotFound => AppError::UnknownToken,
            TransferError::InvalidAmount => AppError::InvalidAmount,
        }
    }

    /// Whether the error is for the one who asked to know: the quota, the request
    /// itself or the ledger's refusal. The others are the service's own trouble.
    pub open spec fn spec_is_user_facing(&self) -> bool {
        !(self is Failed)
    }

    /// The words that tell the error.
    pub open spec fn text(&self) -> Seq<char> {
        match self {
            AppError::LimitExceeded => "Limit exceeded"@,
            AppError::InvalidAmount => "invalid amount"@,
            AppError::UnknownToken => "Unknown token"@,
            AppError::Rejected(Rejection::InvalidDestination) => "invalid destination account"@,
            AppError::Rejected(Rejection::InstructionTooLarge) => "instruction too large"@,
            AppError::Rejected(Rejection::Execution(reason)) => "transaction failed: "@ + reason@,
            AppError::Failed(Failure::NoAttemptAllowed) => "no attempt allowed"@,
            AppError::Failed(Failure::OrderingQuery(reason)) => "failed to query the access key: "@
                + reason@,
            AppError::Failed(Failure::CounterExhausted) => "failed to extract current nonce"@,
            AppError::Failed(Failure::Broadcast(reason)) => "failed to broadcast: "@ + reason@,
            AppError::Failed(Failure::PollTimeout) => "timed out waiting for the transaction"@,
            AppError::Failed(Failure::Poll(reason)) => "failed to query the transaction: "@
                + reason@,
            AppError::Failed(Failure::OutOfTurn) => "event out of turn"@,
        }
    }

    /// Turns the end of a transfer into the answer to the request.
    pub fn from_outcome(outcome: Completion) -> (answer: Result<(), AppError>)
        ensures
            match answer {
                Ok(()) => Self::of_outcome(outcome) is None,
                Err(error) => Self::of_outcome(outcome) == Some(error),
            },
    {
        match outcome {
            Completion::Confirmed => Ok(()),
            Completion::Rejected(rejection) => Err(AppError::Rejected(rejection)),
            Completion::Failed(failure) => Err(AppError::Failed(failure)),
        }
    }

    /// Turns the refusal to begin a transfer into the answer to the request.
    pub fn from_transfer_error(error: TransferError) -> (answer: AppError)
        ensures
            answer == Self::of_transfer_error(error),
    {
        match error {
            TransferError::TokenNotFound => AppError::UnknownToken,
            TransferError::InvalidAmount => AppError::InvalidAmount,
        }
    }

    /// Whether the error is for the one who asked to know.
    #[verifier::when_used_as_spec(spec_is_user_facing)]
    pub fn is_user_facing(&self) -> (user_facing: bool)
        ensures
            user_facing == self.spec_is_user_facing(),
    {
        match self {
            AppError::Failed(_) => false,
            _ => true,
        }
    }

    /// The words that tell the error.
    pub fn message(&self) -> (message: String)
        ensures
            message@ == self.text(),
    {
        match self {
            AppError::LimitExceeded => "Limit exceeded".to_owned(),
            AppError::InvalidAmount => "invalid amount".to_owned(),
            AppError::UnknownToken => "Unknown token".to_owned(),
            AppError::Rejected(rejection) => match rejection {
                Rejection::InvalidDestination => "invalid destination account".to_owned(),
                Rejection::InstructionTooLarge => "instruction too large".to_owned(),
                Rejection::Execution(reason) => with_reason("transaction failed: ", reason),
            },
            AppError::Failed(failure) => match failure {
                Failure::NoAttemptAllowed => "no attempt allowed".to_owned(),
                Failure::OrderingQuery(reason) => with_reason(
                    "failed to query the access key: ",
                    reason,
                ),
                Failure::CounterExhausted => "failed to extract current nonce".to_owned(),
                Failure::Broadcast(reason) => with_reason("failed to broadcast: ", reason),
                Failure::PollTimeout => "timed out waiting for the transaction".to_owned(),
                Failure::Poll(reason) => with_reason("failed to query the transaction: ", reason),
                Failure::OutOfTurn => "event out of turn".to_owned(),
            },
        }
    }
}

/// The words followed by the reason.
fn with_reason(words: &str, reason: &String) -> (text: String)
    ensures
        text@ == words@ + reason@,
{
    words.to_owned().concat(reason.as_str())
}

} // verus!
