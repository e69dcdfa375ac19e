//! Ledger backends: what is needed to begin a transfer and to turn it into a signed
//! instruction of one ledger.

use crate::amount::parsed_balance;
use crate::submit::Phase;
use crate::submit::RetryPolicy;
use crate::submit::Submission;
use vstd::prelude::*;

pub mod near;
pub mod wire;

verus! {

/// Why a backend does not begin a transfer.
#[derive(Clone, Copy, Debug, PartialEq, Eq, Structural)]
pub enum TransferError {
    /// The backend has no token of that name.
    TokenNotFound,
    /// The amount is no number of 128 bits in decimal digits.
    InvalidAmount,
}

/// A ledger backend.
pub trait Client {
    /// Whether the backend is fit to begin transfers.
    spec fn ready(&self) -> bool;

    /// Why the backend does not begin a transfer of `amount` of the token named
    /// `token`, if it does not.
    spec fn refusal(&self, token: Seq<char>, amount: Seq<char>) -> Option<TransferError>;

    /// Begins a transfer of `amount`, written in decimal digits, of the token named
    /// `token` to `to`. Nothing is asked of the ledger yet: the transfer that comes
    /// back stands at its beginning, and is driven by handing it the ledger's answers.
    fn transfer(&self, to: &str, token: &str, amount: &str, policy: RetryPolicy) -> (begun: Result<
        Submission,
        TransferError,
    >)
        requires
            self.ready(),
        ensures
            match begun {
                Ok(submission) => {
                    &&& self.refusal(token@, amount@) is None
                    &&& submission.wf()
                    &&& submission.policy == policy
                    &&& submission.attempts == 0
                    &&& submission.phase == Phase::Init
                    &&& submission.request.destination@ == to@
                    &&& parsed_balance(amount@) == Some(submission.request.amount)
                },
                Err(error) => self.refusal(token@, amount@) == Some(error),
            },
    ;
}

} // verus!
