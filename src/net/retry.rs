//! The retry policy that every request to either catalog goes through (the
//! open catalog and the token-gated one alike, image downloads included): a
//! 503 answer is retried after a fixed pause, up to a fixed number of times;
//! every other failure ends the request at once.
use vstd::prelude::*;
use crate::error::Error;

verus! {

/// How many times a request answered with 503 is sent again.
pub const MAX_RETRIES: u32 = 5;

/// The pause before each retry, in milliseconds.
pub const RETRY_DELAY_MS: u64 = 1000;

/// How one attempt of a request ended.
#[derive(Clone, Copy, Debug, PartialEq, Eq, Structural)]
pub enum HttpOutcome {
    /// A successful answer whose payload is usable.
    Success,
    /// A successful answer whose payload reports a catalog error.
    CatalogError,
    /// An answer with a failing HTTP status.
    Status(u16),
    /// No answer: the connection failed.
    Transport,
}

/// What to do after an attempt.
#[derive(Clone, Copy, Debug, PartialEq, Eq, Structural)]
pub enum RetryAction {
    /// Use the answer.
    Accept,
    /// Wait `delay_ms`, then send the request again as attempt `attempt`.
    Retry { attempt: u32, delay_ms: u64 },
    /// Give up with this error.
    Fail(Error),
}

pub open spec fn retry_action(attempt: u32, outcome: HttpOutcome) -> RetryAction {
    match outcome {
        HttpOutcome::Success => RetryAction::Accept,
        HttpOutcome::CatalogError => RetryAction::Fail(Error::Provider),
        HttpOutcome::Status(code) => if code == 503 {
            if attempt < MAX_RETRIES {
                RetryAction::Retry { attempt: (attempt + 1) as u32, delay_ms: RETRY_DELAY_MS }
            } else {
                RetryAction::Fail(Error::RateLimited)
            }
        } else {
            RetryAction::Fail(Error::Status(code))
        },
        HttpOutcome::Transport => RetryAction::Fail(Error::Transport),
    }
}

/// Decides what follows attempt `attempt` (0 for the first call) that ended
/// with `outcome`.
pub fn next_action(attempt: u32, outcome: HttpOutcome) -> (r: RetryAction)
    ensures
        r == retry_action(attempt, outcome),
{
    match outcome {
        HttpOutcome::Success => RetryAction::Accept,
        HttpOutcome::CatalogError => RetryAction::Fail(Error::Provider),
        HttpOutcome::Status(code) => {
            if code == 503 {
                if attempt < MAX_RETRIES {
                    RetryAction::Retry { attempt: attempt + 1, delay_ms: RETRY_DELAY_MS }
                } else {
                    RetryAction::Fail(Error::RateLimited)
                }
            } else {
                RetryAction::Fail(Error::Status(code))
            }
        },
        HttpOutcome::Transport => RetryAction::Fail(Error::Transport),
    }
}

/// A request driven by the policy from attempt `attempt` while the catalog
/// answers with `outcomes` in turn: the calls made, the total pause in
/// milliseconds, and how it ended (`None` when the answers ran out first).
pub open spec fn drive(attempt: u32, outcomes: Seq<HttpOutcome>) -> (nat, nat, Option<RetryAction>)
    decreases outcomes.len(),
{
    if outcomes.len() == 0 {
        (0, 0, None)
    } else {
        match retry_action(attempt, outcomes[0]) {
            RetryAction::Retry { attempt: next, delay_ms } => {
                let rest = drive(next, outcomes.skip(1));
                (rest.0 + 1, rest.1 + delay_ms as nat, rest.2)
            },
            done => (1, 0, Some(done)),
        }
    }
}

proof fn lemma_drive_unavailable(attempt: u32, outcomes: Seq<HttpOutcome>)
    requires
        attempt <= MAX_RETRIES,
        outcomes.len() >= MAX_RETRIES + 1 - attempt,
        forall|i: int| 0 <= i < outcomes.len() ==> outcomes[i] == HttpOutcome::Status(503),
    ensures
        drive(attempt, outcomes) == (
            (MAX_RETRIES + 1 - attempt) as nat,
            ((MAX_RETRIES - attempt) * RETRY_DELAY_MS) as nat,
            Some(RetryAction::Fail(Error::RateLimited)),
        ),
    decreases MAX_RETRIES - attempt,
{
    assert(outcomes[0] == HttpOutcome::Status(503));
    if attempt < MAX_RETRIES {
        lemma_drive_unavailable((attempt + 1) as u32, outcomes.skip(1));
    }
}

/// A catalog that keeps answering 503 receives exactly one call and five
/// retries, with a pause of one second before each retry, and the request
/// then fails as rate limited.
pub proof fn lemma_unavailable_gives_six_calls(outcomes: Seq<HttpOutcome>)
    requires
        outcomes.len() >= 6,
        forall|i: int| 0 <= i < outcomes.len() ==> outcomes[i] == HttpOutcome::Status(503),
    ensures
        drive(0, outcomes) == (6nat, 5000nat, Some(RetryAction::Fail(Error::RateLimited))),
{
    lemma_drive_unavailable(0, outcomes);
}

} // verus!
