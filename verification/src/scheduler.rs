//! The scheduler: the loop of the agent as a machine of two states.
//!
//! In `Sampling` one cycle is under way: a sample is taken and, where that
//! went well, delivered. In `Sleeping` the agent waits for the next cycle. The
//! machine says what to do; the caller does it and reports back. A cycle is
//! run to its end before the sleep begins, so no two cycles overlap.

use crate::config::Config;
use crate::delivery::{post_request, request_for, PostRequest};
use crate::retry::DeliveryError;
use crate::sampler::SampleError;
use vstd::prelude::*;

verus! {

/// The two states of the loop.
#[derive(Debug, Clone, Copy, PartialEq, Eq, Structural)]
pub enum SchedulerState {
    /// A cycle is under way.
    Sampling,
    /// The agent waits for the next cycle.
    Sleeping,
}

/// Why a cycle delivered nothing.
#[derive(Debug, Clone, PartialEq, Eq)]
pub enum CycleError {
    /// No sample could be taken.
    Sample(SampleError),
    /// The sample could not be delivered.
    Delivery(DeliveryError),
}

/// What the caller reports to the scheduler.
#[derive(Debug, PartialEq, Eq)]
pub enum SchedulerEvent {
    /// The cycle has come to its end, well or badly.
    CycleFinished(Result<(), CycleError>),
    /// The sleep is over.
    IntervalElapsed,
}

/// What the caller is to do next.
#[derive(Debug, Clone, Copy, PartialEq, Eq, Structural)]
pub enum SchedulerAction {
    /// Take a sample and deliver it, then report `CycleFinished`.
    RunCycle,
    /// Sleep for this many seconds, then report `IntervalElapsed`.
    Sleep(u64),
    /// Nothing new: go on with what is under way.
    Continue,
}

/// What a step of the scheduler comes to.
#[derive(Debug, PartialEq, Eq)]
pub struct Transition {
    /// The state after the step.
    pub state: SchedulerState,
    /// What to do now.
    pub action: SchedulerAction,
    /// The failure to write to the log, where the event reported one.
    pub failure: Option<CycleError>,
}

/// What follows a sample.
#[derive(Debug, Clone, PartialEq, Eq)]
pub enum CyclePlan {
    /// Send this request, by way of a retry controller.
    Deliver(PostRequest),
    /// There is no sample: the cycle ends here, with this failure.
    Skip(CycleError),
}

/// The state after `event` in `state`. The end of a cycle leads from
/// `Sampling` to `Sleeping` whether the cycle went well or not, and the end
/// of the sleep leads back. An event that does not belong to the state
/// changes nothing.
pub open spec fn next_state(state: SchedulerState, event: SchedulerEvent) -> SchedulerState {
    match (state, event) {
        (SchedulerState::Sampling, SchedulerEvent::CycleFinished(_)) => SchedulerState::Sleeping,
        (SchedulerState::Sleeping, SchedulerEvent::IntervalElapsed) => SchedulerState::Sampling,
        _ => state,
    }
}

/// What to do after `event` in `state`, where cycles are `interval` seconds
/// apart: sleep for the interval at the end of a cycle, and run the next
/// cycle at the end of the sleep.
pub open spec fn next_action(interval: u64, state: SchedulerState, event: SchedulerEvent)
    -> SchedulerAction {
    match (state, event) {
        (SchedulerState::Sampling, SchedulerEvent::CycleFinished(_)) => SchedulerAction::Sleep(
            interval,
        ),
        (SchedulerState::Sleeping, SchedulerEvent::IntervalElapsed) => SchedulerAction::RunCycle,
        _ => SchedulerAction::Continue,
    }
}

/// The failure that `event` reports, if any. It is reported in every state.
pub open spec fn reported_failure(event: SchedulerEvent) -> Option<CycleError> {
    match event {
        SchedulerEvent::CycleFinished(Err(failure)) => Some(failure),
        _ => None,
    }
}

/// Whether `plan` is the plan for `sample` under `config`: a sample is
/// delivered to the configured address, an empty one too, and a failed
/// sampling ends the cycle with its failure.
pub open spec fn is_plan_for(plan: CyclePlan, config: &Config, sample: Result<String, SampleError>)
    -> bool {
    match sample {
        Ok(users) => plan matches CyclePlan::Deliver(request) && request@ == request_for(
            config.url@,
            users@,
            config.timeout,
        ),
        Err(failure) => plan == CyclePlan::Skip(CycleError::Sample(failure)),
    }
}

/// Starts the loop: the agent begins in `Sampling`, with its first cycle.
pub fn start_loop() -> (first: (SchedulerState, SchedulerAction))
    ensures
        first == (SchedulerState::Sampling, SchedulerAction::RunCycle),
{
    (SchedulerState::Sampling, SchedulerAction::RunCycle)
}

/// Plans the rest of a cycle from its sample. The plan depends on the
/// configuration and the sample alone: a sample equal to an earlier one is
/// delivered again.
pub fn plan_cycle(config: &Config, sample: Result<String, SampleError>) -> (plan: CyclePlan)
    ensures
        is_plan_for(plan, config, sample),
{
    match sample {
        Ok(users) => CyclePlan::Deliver(
            post_request(config.url.as_str(), users.as_str(), config.timeout),
        ),
        Err(failure) => CyclePlan::Skip(CycleError::Sample(failure)),
    }
}

/// Makes one step of the loop: takes what the caller reports and says what
/// to do next. No failure of a cycle ends the loop or changes its pace.
pub fn step(config: &Config, state: SchedulerState, event: SchedulerEvent) -> (transition:
    Transition)
    ensures
        transition.state == next_state(state, event),
        transition.action == next_action(config.interval, state, event),
        transition.failure == reported_failure(event),
{
    match event {
        SchedulerEvent::CycleFinished(result) => {
            let failure = match result {
                Ok(()) => None,
                Err(failure) => Some(failure),
            };
            match state {
                SchedulerState::Sampling => Transition {
                    state: SchedulerState::Sleeping,
                    action: SchedulerAction::Sleep(config.interval),
                    failure,
                },
                SchedulerState::Sleeping => Transition {
                    state,
                    action: SchedulerAction::Continue,
                    failure,
                },
            }
        },
        SchedulerEvent::IntervalElapsed => match state {
            SchedulerState::Sleeping => Transition {
                state: SchedulerState::Sampling,
                action: SchedulerAction::RunCycle,
                failure: None,
            },
            SchedulerState::Sampling => Transition {
                state,
                action: SchedulerAction::Continue,
                failure: None,
            },
        },
    }
}

/// Nothing is held back for having been delivered before: the plans of two
/// cycles that took samples of the same text are two deliveries, and their
/// requests are equal in address, header, body and timeout.
pub proof fn lemma_equal_samples_are_both_delivered(
    config: &Config,
    first_sample: String,
    second_sample: String,
    first: CyclePlan,
    second: CyclePlan,
)
    requires
        first_sample@ == second_sample@,
        is_plan_for(first, config, Ok(first_sample)),
        is_plan_for(second, config, Ok(second_sample)),
    ensures
        first is Deliver,
        second is Deliver,
        first->Deliver_0@ == second->Deliver_0@,
{
}

/// The loop never stalls: from `Sampling`, whatever the cycle came to, the
/// end of the cycle and then the end of the sleep lead back to `Sampling`,
/// by a sleep of exactly the interval and then a new cycle.
pub proof fn lemma_loop_never_stalls(interval: u64, result: Result<(), CycleError>)
    ensures
        next_action(
            interval,
            SchedulerState::Sampling,
            SchedulerEvent::CycleFinished(result),
        ) == SchedulerAction::Sleep(interval),
        next_action(
            interval,
            next_state(SchedulerState::Sampling, SchedulerEvent::CycleFinished(result)),
            SchedulerEvent::IntervalElapsed,
        ) == SchedulerAction::RunCycle,
        next_state(
            next_state(SchedulerState::Sampling, SchedulerEvent::CycleFinished(result)),
            SchedulerEvent::IntervalElapsed,
        ) == SchedulerState::Sampling,
{
}

/// No cycle is started while another is under way or before the sleep is
/// over: `RunCycle` is the answer only to the end of the sleep, in
/// `Sleeping`.
pub proof fn lemma_one_cycle_at_a_time(interval: u64, state: SchedulerState, event: SchedulerEvent)
    ensures
        next_action(interval, state, event) == SchedulerAction::RunCycle <==> state
            == SchedulerState::Sleeping && event is IntervalElapsed,
{
}

} // verus!
