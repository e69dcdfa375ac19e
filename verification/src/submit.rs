//! Driving one transfer to finality: which step follows which answer of the ledger,
//! with a bound on the attempts to submit and on the polls for the result.
//!
//! The caller talks to the ledger. It performs the action it is handed, and hands
//! back what the ledger answered as an event.

use crate::clients::near::BlockHash;
use crate::clients::near::Rejection;
use crate::clients::near::TransferAttempt;
use crate::clients::near::TransferRequest;
use vstd::prelude::*;

verus! {

/// How often a transfer may be tried, and how often its result may be asked for.
#[derive(Clone, Copy, Debug, PartialEq, Eq, Structural)]
pub struct RetryPolicy {
    /// The most attempts to query the ordering counter and broadcast.
    pub max_attempts: u32,
    /// The most polls for the status of a broadcast instruction.
    pub max_polls: u32,
    /// The milliseconds to wait between one poll and the next.
    pub poll_interval: u64,
}

impl Default for RetryPolicy {
    /// Five attempts, and five polls a second apart.
    fn default() -> (policy: RetryPolicy)
        ensures
            policy == (RetryPolicy { max_attempts: 5, max_polls: 5, poll_interval: 1000 }),
    {
        RetryPolicy { max_attempts: 5, max_polls: 5, poll_interval: 1000 }
    }
}

/// Why an attempt failed, or why a transfer was given up.
#[derive(Debug)]
pub enum Failure {
    /// The policy allows no attempt at all.
    NoAttemptAllowed,
    /// The query for the ordering counter failed.
    OrderingQuery(String),
    /// The query was answered with a counter that has no successor.
    CounterExhausted,
    /// The broadcast failed.
    Broadcast(String),
    /// The instruction was still pending at the last poll allowed.
    PollTimeout,
    /// The status of the instruction could not be read.
    Poll(String),
    /// An event was handed in that answers no action that was handed out.
    OutOfTurn,
}

/// What one answer of the ledger means for a transfer. It decides whether the
/// transfer ends or is tried again.
#[derive(Debug)]
pub enum SubmissionOutcome {
    /// The ledger executed the instruction.
    Confirmed,
    /// The transfer was refused for good; another try would end the same.
    Rejected(Rejection),
    /// This attempt failed; another may succeed.
    TransientFailure(Failure),
}

/// How a transfer ended.
#[derive(Debug)]
pub enum Completion {
    /// The ledger executed the instruction.
    Confirmed,
    /// The transfer was refused for good; another try would end the same.
    Rejected(Rejection),
    /// The transfer was given up.
    Failed(Failure),
}

/// What the caller is to do next.
#[derive(Debug)]
pub enum Action {
    /// Ask the ledger for the signer's ordering counter and a recent block.
    QueryOrdering,
    /// Submit the signed instruction and wait until the ledger has received it.
    Broadcast(TransferAttempt),
    /// Wait, then ask the ledger for the status of the instruction that was submitted.
    PollStatus {
        /// The identifier that the ledger gave the instruction.
        submission_id: BlockHash,
        /// The milliseconds to wait before asking.
        wait: u64,
    },
    /// Nothing more: the transfer has ended.
    Finish(Completion),
}

/// An action as a mathematical value.
pub ghost enum ActionView {
    /// Ask the ledger for the signer's ordering counter and a recent block.
    QueryOrdering,
    /// Submit the signed instruction.
    Broadcast { ordering_token: u64, freshness_anchor: BlockHash, signed_payload: Seq<u8> },
    /// Wait, then ask the ledger for the status of the instruction.
    PollStatus { submission_id: BlockHash, wait: u64 },
    /// Nothing more: the transfer has ended.
    Finish(Completion),
}

impl View for Action {
    type V = ActionView;

    open spec fn view(&self) -> ActionView {
        match self {
            Action::QueryOrdering => ActionView::QueryOrdering,
            Action::Broadcast(attempt) => ActionView::Broadcast {
                ordering_token: attempt.ordering_token,
                freshness_anchor: attempt.freshness_anchor,
                signed_payload: attempt.signed_payload@,
            },
            Action::PollStatus { submission_id, wait } => ActionView::PollStatus {
                submission_id: *submission_id,
                wait: *wait,
            },
            Action::Finish(outcome) => ActionView::Finish(*outcome),
        }
    }
}

/// What the ledger answered, or that the transfer is to begin.
#[derive(Debug)]
pub enum Event {
    /// The transfer is to begin.
    Start,
    /// The ledger told the signer's ordering counter and a recent block.
    OrderingKnown {
        /// The counter of the signer's last instruction.
        counter: u64,
        /// A recent block.
        anchor: BlockHash,
    },
    /// The query for the ordering counter failed.
    OrderingFailed(String),
    /// The ledger received the instruction.
    Accepted {
        /// The identifier that the ledger gave the instruction.
        submission_id: BlockHash,
    },
    /// The broadcast failed.
    BroadcastFailed(String),
    /// The instruction has not been executed yet.
    Pending,
    /// The ledger executed the instruction.
    Succeeded,
    /// The ledger executed the instruction and reports that it failed.
    ExecutionFailed(String),
    /// The status could not be read.
    StatusUnavailable(String),
}

/// Where a transfer stands.
#[derive(Debug)]
pub enum Phase {
    /// Nothing has been asked of the ledger yet.
    Init,
    /// The ordering counter has been asked for.
    AcquireOrdering,
    /// A signed instruction has been handed out for broadcast.
    Broadcast,
    /// The ledger has the instruction; its status has been asked for `polls` times.
    AwaitFinality {
        /// The identifier that the ledger gave the instruction.
        submission_id: BlockHash,
        /// The polls made so far, this one included.
        polls: u32,
    },
    /// The transfer has ended.
    Done(Completion),
}

/// One transfer on its way to finality.
pub struct Submission {
    /// The bounds on attempts and polls.
    pub policy: RetryPolicy,
    /// What is to be transferred, and who signs.
    pub request: TransferRequest,
    /// The attempts begun so far.
    pub attempts: u32,
    /// Where the transfer stands.
    pub phase: Phase,
}

impl Failure {
    /// A copy of the cause.
    pub fn duplicate(&self) -> (copy: Failure)
        ensures
            copy == *self,
    {
        match self {
            Failure::NoAttemptAllowed => Failure::NoAttemptAllowed,
            Failure::OrderingQuery(reason) => Failure::OrderingQuery(reason.clone()),
            Failure::CounterExhausted => Failure::CounterExhausted,
            Failure::Broadcast(reason) => Failure::Broadcast(reason.clone()),
            Failure::PollTimeout => Failure::PollTimeout,
            Failure::Poll(reason) => Failure::Poll(reason.clone()),
            Failure::OutOfTurn => Failure::OutOfTurn,
        }
    }
}

impl Completion {
    /// A copy of the outcome.
    pub fn duplicate(&self) -> (copy: Completion)
        ensures
            copy == *self,
    {
        match self {
            Completion::Confirmed => Completion::Confirmed,
            Completion::Rejected(rejection) => Completion::Rejected(
                rejection.duplicate(),
            ),
            Completion::Failed(failure) => Completion::Failed(failure.duplicate()),
        }
    }
}

impl Submission {
    /// The invariant of a transfer under way: the request can be signed, and neither
    /// the attempts nor the polls are beyond their bounds.
    pub open spec fn wf(&self) -> bool {
        &&& self.request.wf()
        &&& self.attempts <= self.policy.max_attempts
        &&& match self.phase {
            Phase::Init => self.attempts == 0,
            Phase::AwaitFinality { polls, .. } => 1 <= polls <= self.policy.max_polls,
            _ => true,
        }
    }

    /// The transfer with its end reached, and the action that says so.
    pub open spec fn finished(self, outcome: Completion) -> (Submission, ActionView) {
        (Submission { phase: Phase::Done(outcome), ..self }, ActionView::Finish(outcome))
    }

    /// What follows an outcome: the transfer ends as confirmed or as rejected, and a
    /// failure that another attempt may mend is tried again.
    pub open spec fn settled(self, outcome: SubmissionOutcome) -> (Submission, ActionView) {
        match outcome {
            SubmissionOutcome::Confirmed => self.finished(Completion::Confirmed),
            SubmissionOutcome::Rejected(rejection) => self.finished(
                Completion::Rejected(rejection),
            ),
            SubmissionOutcome::TransientFailure(cause) => self.retried(cause),
        }
    }

    /// What follows a failure that another attempt may mend: another attempt while the
    /// policy allows one, else the end of the transfer with the failure as its cause.
    pub open spec fn retried(self, cause: Failure) -> (Submission, ActionView) {
        if self.attempts < self.policy.max_attempts {
            (
                Submission {
                    attempts: (self.attempts + 1) as u32,
                    phase: Phase::AcquireOrdering,
                    ..self
                },
                ActionView::QueryOrdering,
            )
        } else {
            self.finished(Completion::Failed(cause))
        }
    }

    /// What follows the signing of the instruction for an attempt with the ordering
    /// counter `nonce`, citing `anchor`: the signed instruction is handed out for
    /// broadcast, and a rejection ends the transfer. Signing has its turn only when the
    /// ordering counter has been asked for.
    pub open spec fn with_signed(
        self,
        nonce: u64,
        anchor: BlockHash,
        made: Result<Seq<u8>, Rejection>,
    ) -> (Submission, ActionView) {
        match self.phase {
            Phase::Done(outcome) => (self, ActionView::Finish(outcome)),
            Phase::AcquireOrdering => match made {
                Ok(payload) => (
                    Submission { phase: Phase::Broadcast, ..self },
                    ActionView::Broadcast {
                        ordering_token: nonce,
                        freshness_anchor: anchor,
                        signed_payload: payload,
                    },
                ),
                Err(rejection) => self.settled(SubmissionOutcome::Rejected(rejection)),
            },
            _ => self.finished(Completion::Failed(Failure::OutOfTurn)),
        }
    }

    /// The transfer after `event`, and the action that the caller is to perform next.
    pub open spec fn next(self, event: Event) -> (Submission, ActionView) {
        match self.phase {
            Phase::Done(outcome) => (self, ActionView::Finish(outcome)),
            Phase::Init => match event {
                Event::Start => self.retried(Failure::NoAttemptAllowed),
                _ => self.finished(Completion::Failed(Failure::OutOfTurn)),
            },
            Phase::AcquireOrdering => match event {
                Event::OrderingKnown { counter, anchor } => if counter == u64::MAX {
                    self.settled(SubmissionOutcome::TransientFailure(Failure::CounterExhausted))
                } else {
                    self.with_signed(
                        (counter + 1) as u64,
                        anchor,
                        self.request.signed((counter + 1) as u64, anchor),
                    )
                },
                Event::OrderingFailed(reason) => self.settled(
                    SubmissionOutcome::TransientFailure(Failure::OrderingQuery(reason)),
                ),
                _ => self.finished(Completion::Failed(Failure::OutOfTurn)),
            },
            Phase::Broadcast => match event {
                Event::Accepted { submission_id } => if self.policy.max_polls > 0 {
                    (
                        Submission {
                            phase: Phase::AwaitFinality { submission_id, polls: 1 },
                            ..self
                        },
                        ActionView::PollStatus { submission_id, wait: 0 },
                    )
                } else {
                    self.finished(Completion::Failed(Failure::PollTimeout))
                },
                Event::BroadcastFailed(reason) => self.settled(
                    SubmissionOutcome::TransientFailure(Failure::Broadcast(reason)),
                ),
                _ => self.finished(Completion::Failed(Failure::OutOfTurn)),
            },
            Phase::AwaitFinality { submission_id, polls } => match event {
                Event::Pending => if polls < self.policy.max_polls {
                    (
                        Submission {
                            phase: Phase::AwaitFinality {
                                submission_id,
                                polls: (polls + 1) as u32,
                            },
                            ..self
                        },
                        ActionView::PollStatus { submission_id, wait: self.policy.poll_interval },
                    )
                } else {
                    self.finished(Completion::Failed(Failure::PollTimeout))
                },
                Event::Succeeded => self.settled(SubmissionOutcome::Confirmed),
                Event::ExecutionFailed(reason) => self.settled(
                    SubmissionOutcome::Rejected(Rejection::Execution(reason)),
                ),
                Event::StatusUnavailable(reason) => self.finished(
                    Completion::Failed(Failure::Poll(reason)),
                ),
                _ => self.finished(Completion::Failed(Failure::OutOfTurn)),
            },
        }
    }

    /// A transfer of which nothing has been asked of the ledger yet.
    pub fn new(request: TransferRequest, policy: RetryPolicy) -> (submission: Submission)
        requires
            request.wf(),
        ensures
            submission.wf(),
            submission == (Submission { policy, request, attempts: 0, phase: Phase::Init }),
    {
        Submission { policy, request, attempts: 0, phase: Phase::Init }
    }

    fn finish(&mut self, outcome: Completion) -> (action: Action)
        requires
            old(self).wf(),
        ensures
            final(self).wf(),
            (*final(self), action@) == old(self).finished(outcome),
    {
        let copy = outcome.duplicate();
        self.phase = Phase::Done(outcome);
        Action::Finish(copy)
    }

    fn retry(&mut self, cause: Failure) -> (action: Action)
        requires
            old(self).wf(),
        ensures
            final(self).wf(),
            (*final(self), action@) == old(self).retried(cause),
    {
        if self.attempts < self.policy.max_attempts {
            self.attempts = self.attempts + 1;
            self.phase = Phase::AcquireOrdering;
            Action::QueryOrdering
        } else {
            self.finish(Completion::Failed(cause))
        }
    }

    fn settle(&mut self, outcome: SubmissionOutcome) -> (action: Action)
        requires
            old(self).wf(),
        ensures
            final(self).wf(),
            (*final(self), action@) == old(self).settled(outcome),
    {
        match outcome {
            SubmissionOutcome::Confirmed => self.finish(Completion::Confirmed),
            SubmissionOutcome::Rejected(rejection) => self.finish(Completion::Rejected(rejection)),
            SubmissionOutcome::TransientFailure(cause) => self.retry(cause),
        }
    }

    /// Takes in the signed instruction for an attempt with the ordering counter
    /// `nonce`, citing `anchor`, or the reason why there is none, and says what is to be
    /// done next.
    pub fn take_signed(
        &mut self,
        nonce: u64,
        anchor: BlockHash,
        made: Result<Vec<u8>, Rejection>,
    ) -> (action: Action)
        requires
            old(self).wf(),
        ensures
            final(self).wf(),
            (*final(self), action@) == old(self).with_signed(
                nonce,
                anchor,
                match made {
                    Ok(payload) => Ok(payload@),
                    Err(rejection) => Err(rejection),
                },
            ),
    {
        match &self.phase {
            Phase::Done(outcome) => Action::Finish(outcome.duplicate()),
            Phase::AcquireOrdering => match made {
                Ok(payload) => {
                    self.phase = Phase::Broadcast;
                    Action::Broadcast(
                        TransferAttempt {
                            ordering_token: nonce,
                            freshness_anchor: anchor,
                            signed_payload: payload,
                        },
                    )
                },
                Err(rejection) => self.settle(SubmissionOutcome::Rejected(rejection)),
            },
            _ => self.finish(Completion::Failed(Failure::OutOfTurn)),
        }
    }

    /// Takes in what the ledger answered and says what is to be done next.
    pub fn step(&mut self, event: Event) -> (action: Action)
        requires
            old(self).wf(),
        ensures
            final(self).wf(),
            (*final(self), action@) == old(self).next(event),
    {
        match &self.phase {
            Phase::Done(outcome) => Action::Finish(outcome.duplicate()),
            Phase::Init => match event {
                Event::Start => self.retry(Failure::NoAttemptAllowed),
                _ => self.finish(Completion::Failed(Failure::OutOfTurn)),
            },
            Phase::AcquireOrdering => match event {
                Event::OrderingKnown { counter, anchor } => {
                    if counter == u64::MAX {
                        self.settle(SubmissionOutcome::TransientFailure(Failure::CounterExhausted))
                    } else {
                        let made = match self.request.sign(counter + 1, &anchor) {
                            Ok(attempt) => Ok(attempt.signed_payload),
                            Err(rejection) => Err(rejection),
                        };
                        self.take_signed(counter + 1, anchor, made)
                    }
                },
                Event::OrderingFailed(reason) => self.settle(
                    SubmissionOutcome::TransientFailure(Failure::OrderingQuery(reason)),
                ),
                _ => self.finish(Completion::Failed(Failure::OutOfTurn)),
            },
            Phase::Broadcast => match event {
                Event::Accepted { submission_id } => {
                    if self.policy.max_polls > 0 {
                        self.phase = Phase::AwaitFinality { submission_id, polls: 1 };
                        Action::PollStatus { submission_id, wait: 0 }
                    } else {
                        self.finish(Completion::Failed(Failure::PollTimeout))
                    }
                },
                Event::BroadcastFailed(reason) => self.settle(
                    SubmissionOutcome::TransientFailure(Failure::Broadcast(reason)),
                ),
                _ => self.finish(Completion::Failed(Failure::OutOfTurn)),
            },
            Phase::AwaitFinality { submission_id, polls } => {
                let submission_id = *submission_id;
                let polls = *polls;
                match event {
                    Event::Pending => {
                        if polls < self.policy.max_polls {
                            self.phase = Phase::AwaitFinality { submission_id, polls: polls + 1 };
                            Action::PollStatus { submission_id, wait: self.policy.poll_interval }
                        } else {
                            self.finish(Completion::Failed(Failure::PollTimeout))
                        }
                    },
                    Event::Succeeded => self.settle(SubmissionOutcome::Confirmed),
                    Event::ExecutionFailed(reason) => self.settle(
                        SubmissionOutcome::Rejected(Rejection::Execution(reason)),
                    ),
                    Event::StatusUnavailable(reason) => self.finish(
                        Completion::Failed(Failure::Poll(reason)),
                    ),
                    _ => self.finish(Completion::Failed(Failure::OutOfTurn)),
                }
            },
        }
    }
}


impl Submission {
    /// Whether the transfer has ended.
    pub open spec fn spec_is_done(&self) -> bool {
        self.phase is Done
    }

    /// Whether the transfer has ended.
    #[verifier::when_used_as_spec(spec_is_done)]
    pub fn is_done(&self) -> (done: bool)
        ensures
            done == self.spec_is_done(),
    {
        match &self.phase {
            Phase::Done(_) => true,
            _ => false,
        }
    }

    /// Whether the transfer needs the signing identity to itself: from the query for
    /// the ordering counter until the ledger has answered the broadcast. Two transfers
    /// of one identity that are in this span at once could use the same counter.
    pub open spec fn spec_holds_signer(&self) -> bool {
        self.phase is AcquireOrdering || self.phase is Broadcast
    }

    /// Whether the transfer needs the signing identity to itself.
    #[verifier::when_used_as_spec(spec_holds_signer)]
    pub fn holds_signer(&self) -> (held: bool)
        ensures
            held == self.spec_holds_signer(),
    {
        match &self.phase {
            Phase::AcquireOrdering => true,
            Phase::Broadcast => true,
            _ => false,
        }
    }

    /// A bound on the events that a transfer can still take in before it ends.
    pub open spec fn steps_left(&self) -> int {
        let attempts_left = self.policy.max_attempts - self.attempts;
        match self.phase {
            Phase::Init => 2 * attempts_left + self.policy.max_polls + 1,
            Phase::AcquireOrdering => 2 * attempts_left + self.policy.max_polls + 2,
            Phase::Broadcast => 2 * attempts_left + self.policy.max_polls + 1,
            Phase::AwaitFinality { polls, .. } => self.policy.max_polls - polls + 1,
            Phase::Done(_) => 0,
        }
    }

    /// Every event keeps the invariant, and brings a transfer that has not ended
    /// nearer to its end: the bound on the events left shrinks, and is never
    /// negative. So no transfer takes in more than
    /// `2 * max_attempts + max_polls + 1` events before it ends, whatever the ledger
    /// answers.
    pub proof fn lemma_step_makes_progress(self, event: Event)
        requires
            self.wf(),
        ensures
            self.next(event).0.wf(),
            self.next(event).0.policy == self.policy,
            self.next(event).0.request == self.request,
            self.steps_left() >= 0,
            !self.spec_is_done() ==> self.next(event).0.steps_left() < self.steps_left(),
    {
    }

    /// The transfer after it has taken in `events`, one after the other.
    pub open spec fn after_events(self, events: Seq<Event>) -> Submission
        decreases events.len(),
    {
        if events.len() == 0 {
            self
        } else {
            self.after_events(events.drop_last()).next(events.last()).0
        }
    }

    /// Whatever the ledger answers, and however often, a transfer has ended once it
    /// has taken in as many events as its bound on the events left says: no transfer
    /// waits or tries without end.
    pub proof fn lemma_every_run_ends(self, events: Seq<Event>)
        requires
            self.wf(),
        ensures
            self.after_events(events).wf(),
            self.after_events(events).spec_is_done() || self.after_events(events).steps_left()
                <= self.steps_left() - events.len(),
            events.len() >= self.steps_left() ==> self.after_events(events).spec_is_done(),
        decreases events.len(),
    {
        if events.len() > 0 {
            let before = self.after_events(events.drop_last());
            self.lemma_every_run_ends(events.drop_last());
            before.lemma_step_makes_progress(events.last());
            if before.spec_is_done() {
                before.lemma_done_is_final(events.last());
            }
        }
        self.after_events(events).lemma_step_makes_progress(Event::Start);
    }

    /// A transfer that has ended stays as it is, and answers every event with its
    /// outcome.
    pub proof fn lemma_done_is_final(self, event: Event)
        requires
            self.spec_is_done(),
        ensures
            self.next(event).0 == self,
            self.next(event).1 == ActionView::Finish(self.phase->Done_0),
    {
    }

    /// A transfer ends as confirmed only when the ledger reports, in answer to a
    /// poll, that it executed the instruction: running out of polls or attempts
    /// never counts as success.
    pub proof fn lemma_confirmed_only_on_success(self, event: Event)
        requires
            !self.spec_is_done(),
            self.next(event).0.phase == Phase::Done(Completion::Confirmed),
        ensures
            self.phase is AwaitFinality,
            event is Succeeded,
    {
    }

    /// Another attempt begins only while fewer attempts than the policy allows have
    /// been made; at the bound, a failure that another attempt might mend ends the
    /// transfer as failed, with that failure as the cause.
    pub proof fn lemma_retry_is_bounded(self, cause: Failure)
        requires
            self.wf(),
        ensures
            self.attempts < self.policy.max_attempts ==> self.retried(cause).0.phase
                == Phase::AcquireOrdering && self.retried(cause).0.attempts == self.attempts + 1,
            self.attempts == self.policy.max_attempts ==> self.retried(cause).0.phase
                == Phase::Done(Completion::Failed(cause)),
    {
    }
}

} // verus!
