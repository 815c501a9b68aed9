//! The request protocol with the present hook in the GPU process: the host asks for the distribution
//! of its frame intervals with a new request number and waits, up to 150 ms, for the hook to
//! acknowledge that number.
use vstd::prelude::*;

verus! {

/// How long the host waits for the hook's answer, in nanoseconds.
pub const ANSWER_TIMEOUT_NANOS: u128 = 150_000_000;

/// The number of the next request: one more than the last, wrapping around like the shared counter.
pub open spec fn next_request_of(last: u64) -> u64 {
    if last == u64::MAX {
        0
    } else {
        (last + 1) as u64
    }
}

/// The number of the next request (see `next_request_of`).
pub fn next_request(last: u64) -> (request: u64)
    ensures
        request == next_request_of(last),
{
    if last == u64::MAX {
        0
    } else {
        last + 1
    }
}

/// What the host does while it waits for the hook's answer.
#[derive(Clone, Copy, PartialEq, Eq, Structural, Debug)]
pub enum PollOutcome {
    /// The hook acknowledged the request: its payload can be read.
    Answered,
    /// More than 150 ms went by: no answer.
    GiveUp,
    /// Sleep a millisecond and look again.
    Wait,
}

/// One look at the acknowledgement: answered when it is the request's number, otherwise given up
/// once the wait is longer than the timeout.
pub open spec fn poll_outcome_of(ack: u64, request: u64, elapsed_nanos: u128) -> PollOutcome {
    if ack == request {
        PollOutcome::Answered
    } else if elapsed_nanos > ANSWER_TIMEOUT_NANOS {
        PollOutcome::GiveUp
    } else {
        PollOutcome::Wait
    }
}

/// One look at the acknowledgement (see `poll_outcome_of`).
pub fn poll(ack: u64, request: u64, elapsed_nanos: u128) -> (outcome: PollOutcome)
    ensures
        outcome == poll_outcome_of(ack, request, elapsed_nanos),
{
    if ack == request {
        PollOutcome::Answered
    } else if elapsed_nanos > ANSWER_TIMEOUT_NANOS {
        PollOutcome::GiveUp
    } else {
        PollOutcome::Wait
    }
}

/// An answer is only ever read for the request it belongs to, and a wait within the timeout never
/// gives up.
pub proof fn lemma_poll_answers_only_its_request(ack: u64, request: u64, elapsed_nanos: u128)
    ensures
        poll_outcome_of(ack, request, elapsed_nanos) == PollOutcome::Answered <==> ack == request,
        elapsed_nanos <= ANSWER_TIMEOUT_NANOS ==> poll_outcome_of(ack, request, elapsed_nanos) != PollOutcome::GiveUp,
{
}

} // verus!
