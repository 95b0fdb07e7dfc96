//! The retry controller: what to do after each attempt to deliver a sample.
//!
//! The controller makes the decisions of a delivery and leaves the sending and
//! the waiting to the caller, who sends the request, hands the controller what
//! came back, and does as it says: wait and send again, or stop.

use crate::delivery::{
    classify, outcome_of, status_is_success, DeliveryOutcome, HttpReply, TransportError,
};
use std::time::Duration;
use vstd::prelude::*;

verus! {

/// The policy type of the `backoff` crate. Nothing is known here of what a
/// value of it holds.
#[verifier::external_type_specification]
#[verifier::external_body]
#[verifier::reject_recursive_types(C)]
pub struct ExExponentialBackoff<C>(backoff::exponential::ExponentialBackoff<C>);

/// The clock type of the `backoff` crate that reads the system's clock.
#[verifier::external_type_specification]
#[verifier::external_body]
pub struct ExSystemClock(backoff::SystemClock);

/// Why a delivery failed for good.
#[derive(Debug, Clone, PartialEq, Eq)]
pub enum DeliveryError {
    /// The collector refused the sample with this status and this body.
    HttpError { status: u16, body: String },
    /// The network kept failing until the backoff policy gave up. The cause
    /// is that of the last attempt.
    RetryExhausted(TransportError),
}

/// What the caller is to do after an attempt.
#[derive(Debug, PartialEq, Eq)]
pub enum RetryDecision {
    /// Stop: the delivery has ended, well or badly.
    Finish(Result<(), DeliveryError>),
    /// Wait this long, then send the same request again.
    RetryAfter(Duration),
}

/// Decides what follows each attempt of one delivery.
pub struct RetryController {
    policy: backoff::ExponentialBackoff,
}

/// The decision after an attempt that ended as `outcome`, where the backoff
/// policy, if asked, answers `next_delay`. A success ends the delivery, and a
/// permanent failure too, as an error that holds the status and the body. A
/// transient failure is followed by another attempt, after the delay that the
/// policy gives, and ends the delivery only when the policy gives none.
pub open spec fn decision_of(outcome: DeliveryOutcome, next_delay: Option<Duration>)
    -> RetryDecision {
    match outcome {
        DeliveryOutcome::Success(_) => RetryDecision::Finish(Ok(())),
        DeliveryOutcome::PermanentFailure { status, body } => RetryDecision::Finish(
            Err(DeliveryError::HttpError { status, body }),
        ),
        DeliveryOutcome::TransientFailure(cause) => match next_delay {
            Some(delay) => RetryDecision::RetryAfter(delay),
            None => RetryDecision::Finish(Err(DeliveryError::RetryExhausted(cause))),
        },
    }
}

/// The decisions of one delivery whose attempts end as `outcomes` say, one
/// after the other, while the policy answers as `answers` says, one answer
/// for each attempt. The delivery ends with its first `Finish`, or with the
/// script. Each decision follows one request, so the length of the result is
/// the number of requests sent.
pub open spec fn decisions(outcomes: Seq<DeliveryOutcome>, answers: Seq<Option<Duration>>) -> Seq<
    RetryDecision,
>
    decreases outcomes.len(),
{
    if outcomes.len() == 0 || answers.len() == 0 {
        Seq::empty()
    } else {
        let first = decision_of(outcomes[0], answers[0]);
        match first {
            RetryDecision::Finish(_) => seq![first],
            RetryDecision::RetryAfter(_) => seq![first] + decisions(
                outcomes.drop_first(),
                answers.drop_first(),
            ),
        }
    }
}

/// Makes the policy that `backoff` calls its default, by
/// `ExponentialBackoff::default`. The policy holds the time at which it was
/// made, read from the system's clock, and nothing inside it can be seen from
/// here, so nothing is claimed of it.
#[verifier::external_body]
fn default_policy() -> backoff::ExponentialBackoff {
    backoff::ExponentialBackoff::default()
}

/// Asks the policy for the delay before the next attempt, by
/// `Backoff::next_backoff`: `None` means that it has given up. The answer
/// depends on the clock and on chance, so nothing is claimed of it.
#[verifier::external_body]
fn next_backoff(policy: &mut backoff::ExponentialBackoff) -> Option<Duration> {
    backoff::backoff::Backoff::next_backoff(policy)
}

/// Decides what follows an attempt that ended as `outcome`. `next_delay` is
/// the answer of the backoff policy; it is looked at after a transient
/// failure only.
pub fn decide(outcome: DeliveryOutcome, next_delay: Option<Duration>) -> (decision: RetryDecision)
    ensures
        decision == decision_of(outcome, next_delay),
{
    match outcome {
        DeliveryOutcome::Success(_) => RetryDecision::Finish(Ok(())),
        DeliveryOutcome::PermanentFailure { status, body } => RetryDecision::Finish(
            Err(DeliveryError::HttpError { status, body }),
        ),
        DeliveryOutcome::TransientFailure(cause) => match next_delay {
            Some(delay) => RetryDecision::RetryAfter(delay),
            None => RetryDecision::Finish(Err(DeliveryError::RetryExhausted(cause))),
        },
    }
}

impl RetryController {
    /// Starts the controller of one delivery, with the default exponential
    /// backoff policy of the `backoff` crate. The policy counts the time from
    /// here, so each controller is a value of its own and there is nothing
    /// to state of it but what `on_attempt` states of its answers.
    pub fn new() -> (controller: RetryController) {
        RetryController { policy: default_policy() }
    }

    /// Takes what came back from one attempt and says what to do next.
    ///
    /// A response ends the delivery whatever its status, and the policy is
    /// not asked and stays as it was: a refusal is never retried. After a
    /// transport failure the policy is asked once, and its answer decides.
    pub fn on_attempt(&mut self, attempt: Result<HttpReply, TransportError>) -> (decision:
        RetryDecision)
        ensures
            match outcome_of(attempt) {
                DeliveryOutcome::TransientFailure(cause) => exists|answer: Option<Duration>|
                    decision == decision_of(outcome_of(attempt), answer),
                _ => decision == decision_of(outcome_of(attempt), None) && *final(self) == *old(
                    self,
                ),
            },
    {
        let outcome = classify(attempt);
        match outcome {
            DeliveryOutcome::TransientFailure(_) => {
                let answer = next_backoff(&mut self.policy);
                decide(outcome, answer)
            },
            _ => decide(outcome, None),
        }
    }
}

/// A refusal is not retried: where the first attempt of a delivery gets a
/// response whose status is no success, the delivery sends exactly one
/// request and ends with an error that holds that status and that body,
/// whatever the policy would have answered and whatever later attempts would
/// have brought.
pub proof fn lemma_refusal_is_not_retried(
    reply: HttpReply,
    later: Seq<DeliveryOutcome>,
    answers: Seq<Option<Duration>>,
)
    requires
        !status_is_success(reply.status),
        answers.len() > 0,
    ensures
        decisions(seq![outcome_of(Ok(reply))] + later, answers) == seq![
            RetryDecision::Finish(
                Err(DeliveryError::HttpError { status: reply.status, body: reply.body }),
            ),
        ],
{
}

/// Transport failures are retried for as long as the policy gives a delay:
/// where the first `n` attempts of a delivery fail in transport and the
/// policy answers each of them with a delay, each of them is followed by
/// another request, after exactly the delay that the policy gave for it, in
/// the policy's order. The attempt after them is decided on its own outcome
/// and the policy's answer to it.
pub proof fn lemma_transport_failures_are_retried(
    outcomes: Seq<DeliveryOutcome>,
    answers: Seq<Option<Duration>>,
    n: int,
)
    requires
        0 <= n < outcomes.len(),
        n < answers.len(),
        forall|i: int|
            0 <= i < n ==> #[trigger] outcomes[i] is TransientFailure && answers[i] is Some,
    ensures
        decisions(outcomes, answers).len() > n,
        forall|i: int|
            0 <= i < n ==> #[trigger] decisions(outcomes, answers)[i] == RetryDecision::RetryAfter(
                answers[i]->0,
            ),
        decisions(outcomes, answers)[n] == decision_of(outcomes[n], answers[n]),
    decreases n,
{
    if n > 0 {
        lemma_transport_failures_are_retried(outcomes.drop_first(), answers.drop_first(), n - 1);
        let rest = decisions(outcomes.drop_first(), answers.drop_first());
        assert forall|i: int| 0 <= i < n implies #[trigger] decisions(outcomes, answers)[i]
            == RetryDecision::RetryAfter(answers[i]->0) by {
            if i > 0 {
                assert(decisions(outcomes, answers)[i] == rest[i - 1]);
            }
        }
    }
}

/// A delivery ends where the policy gives up: where the first `n` attempts
/// fail in transport and are answered with a delay, and the next one fails in
/// transport too and the policy gives none, the delivery has sent `n + 1`
/// requests and ends with `RetryExhausted` and the cause of that last
/// failure.
pub proof fn lemma_exhaustion_ends_the_delivery(
    outcomes: Seq<DeliveryOutcome>,
    answers: Seq<Option<Duration>>,
    n: int,
    cause: TransportError,
)
    requires
        0 <= n < outcomes.len(),
        n < answers.len(),
        forall|i: int|
            0 <= i < n ==> #[trigger] outcomes[i] is TransientFailure && answers[i] is Some,
        outcomes[n] == DeliveryOutcome::TransientFailure(cause),
        answers[n] is None,
    ensures
        decisions(outcomes, answers).len() == n + 1,
        decisions(outcomes, answers)[n] == RetryDecision::Finish(
            Err(DeliveryError::RetryExhausted(cause)),
        ),
    decreases n,
{
    if n > 0 {
        lemma_exhaustion_ends_the_delivery(
            outcomes.drop_first(),
            answers.drop_first(),
            n - 1,
            cause,
        );
    }
}

} // verus!
