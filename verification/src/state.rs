//! One backend with the admission gates of its tokens: what happens to a request for
//! funds before anything is asked of the ledger.

use crate::amount::parse_balance;
use crate::amount::parsed_balance;
use crate::cache::AddrCache;
use crate::cache::NetAddr;
use crate::cache::Reservation;
use crate::clients::near::last_named;
use crate::clients::near::token_check;
use crate::clients::near::CredentialError;
use crate::clients::near::NearClient;
use crate::clients::near::NearConfig;
use crate::clients::near::Token;
use crate::clock::Clock;
use crate::error::AppError;
use crate::quota::Balance;
use crate::quota::window_start;
use crate::quota::CacheEntry;
use crate::submit::Completion;
use crate::submit::Phase;
use crate::submit::RetryPolicy;
use crate::submit::Submission;
use vstd::prelude::*;

verus! {

/// What becomes of a reservation when the transfer it was made for is refused or
/// given up.
#[derive(Clone, Copy, Debug, PartialEq, Eq, Structural)]
pub enum RefundPolicy {
    /// The reservation is final. Requests that cannot succeed use up quota, so that
    /// they cannot be repeated without end; a caller whose transfer failed through no
    /// fault of its own pays for that.
    Never,
    /// The reservation is given back while its window is still open. A transfer that
    /// fails costs its caller nothing; a caller may then keep the ledger busy with
    /// requests that fail.
    OnFailure,
}

impl Default for RefundPolicy {
    /// Reservations are final.
    fn default() -> (policy: RefundPolicy)
        ensures
            policy == RefundPolicy::Never,
    {
        RefundPolicy::Never
    }
}

/// What a request reserved, and at which token's gate.
#[derive(Debug)]
pub struct Ticket {
    /// The position of the token among the backend's tokens.
    pub token: usize,
    /// What was reserved for the request.
    pub reservation: Reservation,
}

/// A request that was admitted: the transfer to drive, and the ticket to settle it
/// with once the transfer has ended.
pub struct Minted {
    /// The transfer, at its beginning.
    pub submission: Submission,
    /// What the request reserved.
    pub ticket: Ticket,
}

/// Why a backend cannot be made from its configuration.
#[derive(Clone, Copy, Debug, PartialEq, Eq, Structural)]
pub enum BackendError {
    /// A token's limit is no number of 128 bits in decimal digits.
    InvalidLimit,
    /// A token's account or key cannot be used.
    Credential(CredentialError),
}

/// The two tables of a gate.
pub type GateTables = (Map<Seq<char>, CacheEntry>, Map<NetAddr, CacheEntry>);

/// A backend and, for each of its tokens, the admission gate for requests for it.
pub struct Backend {
    /// The backend that begins the transfers.
    pub client: NearClient,
    /// The gates, one per token, in the order of the backend's tokens.
    pub caches: Vec<AddrCache>,
    /// The clock by which the windows of all gates are measured.
    pub clock: Clock,
    /// What becomes of the reservation of a transfer that fails.
    pub refund: RefundPolicy,
}

impl Token {
    /// An empty admission gate for this token with windows of `reset_interval`
    /// nanoseconds, where the token's limit is a number.
    pub fn gate(&self, reset_interval: u128) -> (gate: Option<AddrCache>)
        ensures
            match gate {
                Some(gate) => {
                    &&& parsed_balance(self.spec_config().limit@) == Some(gate.limit())
                    &&& gate.wf()
                    &&& gate.window() == reset_interval
                    &&& gate.addresses@ == Map::<Seq<char>, CacheEntry>::empty()
                    &&& gate.ips@ == Map::<NetAddr, CacheEntry>::empty()
                },
                None => parsed_balance(self.spec_config().limit@) is None,
            },
    {
        match self.config().limit_value() {
            Some(limit) => Some(AddrCache::new(reset_interval, limit)),
            None => None,
        }
    }
}

impl Backend {
    /// The invariant of a backend: the client and every gate are well formed, and
    /// there is one gate per token.
    pub open spec fn wf(&self) -> bool {
        &&& self.client.wf()
        &&& self.caches@.len() == self.client@.len()
        &&& forall|i: int| 0 <= i < self.caches@.len() ==> (#[trigger] self.caches@[i]).wf()
    }

    /// The tables of every gate.
    pub open spec fn tables(&self) -> Seq<GateTables> {
        Seq::new(self.caches@.len(), |i: int| (self.caches@[i].addresses@, self.caches@[i].ips@))
    }

    /// The limit and the window of every gate.
    pub open spec fn policies(&self) -> Seq<(Balance, u128)> {
        Seq::new(self.caches@.len(), |i: int| (self.caches@[i].limit(), self.caches@[i].window()))
    }

    /// What a request for funds meets before a transfer is begun: the position of
    /// the token's gate and the amount where the request is admitted, else why it is
    /// not served.
    pub open spec fn admission(
        &self,
        to: Seq<char>,
        ip: NetAddr,
        token: Seq<char>,
        amount: Seq<char>,
        now: u128,
    ) -> Result<(int, Balance), AppError> {
        match parsed_balance(amount) {
            None => Err(AppError::InvalidAmount),
            Some(amount) => match last_named(self.client@, token, self.client@.len() as int) {
                None => Err(AppError::UnknownToken),
                Some(i) => if self.caches@[i].admits(to, ip, amount, now) {
                    Ok((i, amount))
                } else {
                    Err(AppError::LimitExceeded)
                },
            },
        }
    }

    /// Makes the backend of a configuration, with an empty gate for every token whose
    /// windows last `reset_interval` nanoseconds. Every limit must be a number, and
    /// every account and key usable; a limit that is none is reported first.
    pub fn new(config: &NearConfig, reset_interval: u128, refund: RefundPolicy) -> (made: Result<
        Backend,
        BackendError,
    >)
        ensures
            match made {
                Ok(backend) => {
                    &&& backend.wf()
                    &&& backend.refund == refund
                    &&& backend.caches@.len() == config.tokens@.len()
                    &&& forall|i: int|
                        0 <= i < config.tokens@.len() ==> {
                            &&& token_check(#[trigger] config.tokens@[i]) is Ok
                            &&& backend.client@[i].stands_for(config.tokens@[i])
                            &&& parsed_balance(config.tokens@[i].spec_config().limit@) == Some(
                                backend.caches@[i].limit(),
                            )
                            &&& backend.caches@[i].window() == reset_interval
                            &&& backend.caches@[i].addresses@ == Map::<
                                Seq<char>,
                                CacheEntry,
                            >::empty()
                            &&& backend.caches@[i].ips@ == Map::<NetAddr, CacheEntry>::empty()
                        }
                },
                Err(BackendError::InvalidLimit) => exists|i: int|
                    0 <= i < config.tokens@.len() && parsed_balance(
                        (#[trigger] config.tokens@[i]).spec_config().limit@,
                    ) is None,
                Err(BackendError::Credential(error)) => {
                    &&& forall|i: int|
                        0 <= i < config.tokens@.len() ==> parsed_balance(
                            (#[trigger] config.tokens@[i]).spec_config().limit@,
                        ) is Some
                    &&& exists|i: int|
                        {
                            &&& 0 <= i < config.tokens@.len()
                            &&& token_check(#[trigger] config.tokens@[i]) == Err::<
                                (),
                                CredentialError,
                            >(error)
                            &&& forall|j: int|
                                0 <= j < i ==> token_check(#[trigger] config.tokens@[j]) is Ok
                        }
                },
            },
    {
        let mut caches: Vec<AddrCache> = Vec::new();
        let mut i: usize = 0;
        while i < config.tokens.len()
            invariant
                i <= config.tokens@.len(),
                caches@.len() == i,
                forall|j: int|
                    0 <= j < i ==> {
                        &&& parsed_balance((#[trigger] config.tokens@[j]).spec_config().limit@)
                            == Some(caches@[j].limit())
                        &&& caches@[j].wf()
                        &&& caches@[j].window() == reset_interval
                        &&& caches@[j].addresses@ == Map::<Seq<char>, CacheEntry>::empty()
                        &&& caches@[j].ips@ == Map::<NetAddr, CacheEntry>::empty()
                    },
            decreases config.tokens@.len() - i,
        {
            match config.tokens[i].gate(reset_interval) {
                Some(gate) => {
                    caches.push(gate);
                },
                None => {
                    return Err(BackendError::InvalidLimit);
                },
            }
            i += 1;
        }
        match NearClient::new(config) {
            Ok(client) => {
                let backend = Backend { client, caches, clock: Clock::new(), refund };
                assert forall|i: int| 0 <= i < backend.caches@.len() implies (
                #[trigger] backend.caches@[i]).wf() by {
                    assert(parsed_balance(config.tokens@[i].spec_config().limit@) is Some);
                }
                assert forall|i: int| 0 <= i < config.tokens@.len() implies {
                    &&& token_check(#[trigger] config.tokens@[i]) is Ok
                    &&& backend.client@[i].stands_for(config.tokens@[i])
                    &&& parsed_balance(config.tokens@[i].spec_config().limit@) == Some(
                        backend.caches@[i].limit(),
                    )
                    &&& backend.caches@[i].window() == reset_interval
                    &&& backend.caches@[i].addresses@ == Map::<Seq<char>, CacheEntry>::empty()
                    &&& backend.caches@[i].ips@ == Map::<NetAddr, CacheEntry>::empty()
                } by {
                    assert(backend.client@[i].stands_for(config.tokens@[i]));
                }
                Ok(backend)
            },
            Err(error) => Err(BackendError::Credential(error)),
        }
    }

    /// The tables of every gate once a transfer has ended as `completion` and its
    /// ticket is settled at `now`. Under the policy to refund, the reservation of a
    /// transfer that was not confirmed is given back at the ticket's gate. Else
    /// nothing changes.
    pub open spec fn settled_tables(
        &self,
        ticket: Ticket,
        completion: Completion,
        now: u128,
    ) -> Seq<GateTables> {
        if self.refund == RefundPolicy::OnFailure && !(completion is Confirmed) && ticket.token
            < self.caches@.len() {
            self.tables().update(
                ticket.token as int,
                self.caches@[ticket.token as int].after_release(ticket.reservation, now),
            )
        } else {
            self.tables()
        }
    }

    /// Whether `after` and `begun` are what a request for `amount`, written in decimal
    /// digits, of the token named `token` for destination `to` from `ip` at `now` makes
    /// of this backend. Where the amount is a number, the token is known and the
    /// token's gate admits the request, the amount is reserved at its admission gate
    /// and comes back as a transfer that stands at its beginning, with the ticket for
    /// what was reserved. Else no table changes, and the error says why.
    pub open spec fn minted(
        &self,
        after: Backend,
        begun: Result<Minted, AppError>,
        to: Seq<char>,
        ip: NetAddr,
        token: Seq<char>,
        amount: Seq<char>,
        policy: RetryPolicy,
        now: u128,
    ) -> bool {
        match begun {
            Ok(minted) => {
                let submission = minted.submission;
                let ticket = minted.ticket;
                let paying = self.client.token_named(token).unwrap();
                &&& self.admission(to, ip, token, amount, now) == Ok::<(int, Balance), AppError>(
                    (ticket.token as int, ticket.reservation.amount),
                )
                &&& after.tables() == self.tables().update(
                    ticket.token as int,
                    self.caches@[ticket.token as int].after(
                        to,
                        ip,
                        ticket.reservation.amount,
                        now,
                    ),
                )
                &&& ticket.reservation.to@ == to
                &&& ticket.reservation.ip == ip
                &&& Some(ticket.reservation.address_window) == window_start(
                    after.tables()[ticket.token as int].0,
                    after.policies()[ticket.token as int].1,
                    to,
                    now,
                )
                &&& Some(ticket.reservation.ip_window) == window_start(
                    after.tables()[ticket.token as int].1,
                    after.policies()[ticket.token as int].1,
                    ip,
                    now,
                )
                &&& submission.wf()
                &&& submission.policy == policy
                &&& submission.attempts == 0
                &&& submission.phase == Phase::Init
                &&& submission.request.destination@ == to
                &&& submission.request.amount == ticket.reservation.amount
                &&& submission.request.native == paying.native()
                &&& submission.request.credential.account() == paying.credential().account()
                &&& submission.request.credential.secret() == paying.credential().secret()
            },
            Err(error) => {
                &&& self.admission(to, ip, token, amount, now) == Err::<(int, Balance), AppError>(
                    error,
                )
                &&& after.tables() == self.tables()
            },
        }
    }

    /// Takes in a request for `amount`, written in decimal digits, of the token named
    /// `token` for destination `to` from `ip` at `now`: admits it or not, and where it
    /// does, reserves the amount and begins the transfer. This is all that happens to
    /// a request before anything is asked of the ledger, and it happens in one step
    /// on the backend.
    pub fn mint_at(
        &mut self,
        to: &str,
        ip: NetAddr,
        token: &str,
        amount: &str,
        policy: RetryPolicy,
        now: u128,
    ) -> (begun: Result<Minted, AppError>)
        requires
            old(self).wf(),
        ensures
            final(self).wf(),
            final(self).client == old(self).client,
            final(self).refund == old(self).refund,
            final(self).policies() == old(self).policies(),
            old(self).minted(*final(self), begun, to@, ip, token@, amount@, policy, now),
    {
        let value = match parse_balance(amount) {
            Some(value) => value,
            None => {
                return Err(AppError::InvalidAmount);
            },
        };
        let i = match self.client.position(token) {
            Some(i) => i,
            None => {
                return Err(AppError::UnknownToken);
            },
        };
        let ghost before = self.caches@;
        let mut gate = self.caches.remove(i);
        let reserved = gate.reserve_at(to, ip, value, now);
        self.caches.insert(i, gate);
        assert(self.caches@ =~= before.update(i as int, gate));
        assert(self.policies() =~= old(self).policies());
        let reservation = match reserved {
            Some(reservation) => reservation,
            None => {
                assert(self.tables() =~= old(self).tables());
                return Err(AppError::LimitExceeded);
            },
        };
        assert(self.tables() =~= old(self).tables().update(
            i as int,
            before[i as int].after(to@, ip, value, now),
        ));
        match self.client.transfer(to, token, amount, policy) {
            Ok(submission) => Ok(Minted { submission, ticket: Ticket { token: i, reservation } }),
            Err(error) => Err(AppError::from_transfer_error(error)),
        }
    }

    /// Takes in a request at the present reading of the clock.
    pub fn mint(
        &mut self,
        to: &str,
        ip: NetAddr,
        token: &str,
        amount: &str,
        policy: RetryPolicy,
    ) -> (begun: Result<Minted, AppError>)
        requires
            old(self).wf(),
        ensures
            final(self).wf(),
            final(self).client == old(self).client,
            final(self).refund == old(self).refund,
            final(self).policies() == old(self).policies(),
            exists|now: u128| #[trigger]
                old(self).minted(*final(self), begun, to@, ip, token@, amount@, policy, now),
    {
        let now = self.clock.now();
        self.mint_at(to, ip, token, amount, policy, now)
    }

    /// Settles the ticket of a transfer that has ended as `completion`, at `now`, and
    /// turns the end of the transfer into the answer to the request. Under the policy
    /// to refund, the reservation of a transfer that was not confirmed is given back.
    pub fn settle_at(&mut self, ticket: &Ticket, completion: Completion, now: u128) -> (answer:
        Result<(), AppError>)
        requires
            old(self).wf(),
        ensures
            final(self).wf(),
            final(self).client == old(self).client,
            final(self).refund == old(self).refund,
            final(self).policies() == old(self).policies(),
            final(self).tables() == old(self).settled_tables(*ticket, completion, now),
            match answer {
                Ok(()) => AppError::of_outcome(completion) is None,
                Err(error) => AppError::of_outcome(completion) == Some(error),
            },
    {
        let confirmed = match &completion {
            Completion::Confirmed => true,
            _ => false,
        };
        let refund = match self.refund {
            RefundPolicy::OnFailure => true,
            RefundPolicy::Never => false,
        };
        if refund && !confirmed && ticket.token < self.caches.len() {
            let ghost before = self.caches@;
            let i = ticket.token;
            let mut gate = self.caches.remove(i);
            gate.release_at(&ticket.reservation, now);
            self.caches.insert(i, gate);
            assert(self.caches@ =~= before.update(i as int, gate));
            assert(self.policies() =~= old(self).policies());
            assert(self.tables() =~= old(self).tables().update(
                i as int,
                before[i as int].after_release(ticket.reservation, now),
            ));
        }
        AppError::from_outcome(completion)
    }

    /// Settles a ticket at the present reading of the clock.
    pub fn settle(&mut self, ticket: &Ticket, completion: Completion) -> (answer: Result<
        (),
        AppError,
    >)
        requires
            old(self).wf(),
        ensures
            final(self).wf(),
            final(self).client == old(self).client,
            final(self).refund == old(self).refund,
            final(self).policies() == old(self).policies(),
            exists|now: u128|
                final(self).tables() == #[trigger] old(self).settled_tables(
                    *ticket,
                    completion,
                    now,
                ),
            match answer {
                Ok(()) => AppError::of_outcome(completion) is None,
                Err(error) => AppError::of_outcome(completion) == Some(error),
            },
    {
        let now = self.clock.now();
        self.settle_at(ticket, completion, now)
    }
}

} // verus!
