//! The retry controller. One logical request is retried under a fixed
//! attempt ceiling with a fixed per-class backoff: a success returns at once;
//! an empty transaction list is re-confirmed once, only when it arrives on
//! the very first attempt; transport errors, timeouts and malformed bodies
//! are retried until the ceiling and then collapse into a terminal sentinel
//! of the matching kind. The unverified shell performs the network call and
//! the sleep; every decision is taken here.
use vstd::prelude::*;

use crate::outcome::RequestOutcome;
use crate::records::SentinelKind;
use crate::records::TxRecord;

verus! {

/// The fixed attempt ceiling of the retry controller.
pub const MAX_RETRIES: u32 = 5;

/// Backoff, in seconds, before re-confirming a first-attempt empty result.
pub const RECONFIRM_DELAY_SECS: u64 = 5;

/// Backoff, in seconds, before retrying a transient error.
pub const RETRY_DELAY_SECS: u64 = 10;

/// The terminal value of one logical request: either the transactions of a
/// successful attempt, or the sentinel kind to broadcast.
pub enum RequestVerdict {
    /// A non-empty transaction list from the successful attempt.
    Found(Vec<TxRecord>),
    /// The terminal sentinel after exhaustion or a terminal classification.
    Settled(SentinelKind),
}

/// What the controller decides after one classified attempt: stop with a
/// verdict, or sleep the given number of seconds and try again.
pub enum RetryDecision {
    /// The request is settled; no further attempt is made.
    Done(RequestVerdict),
    /// Sleep this many seconds, then issue the next attempt.
    RetryAfter(u64),
}

/// The decision the controller owes for the outcome of attempt number
/// `attempt` (1-based) under ceiling `max_retries`:
/// - `Success` settles at once with the transactions;
/// - `NoTransactions` on the first attempt is re-confirmed once after a
///   short delay, on any later attempt it settles as the no-transaction
///   sentinel;
/// - an absent `result` payload settles at once as the no-data sentinel;
/// - malformed bodies, transport errors and timeouts are retried with the
///   longer backoff while attempts remain, and settle as the sentinel of
///   their own kind at the ceiling.
pub open spec fn spec_retry_step(attempt: u32, max_retries: u32, outcome: RequestOutcome) -> RetryDecision {
    match outcome {
        RequestOutcome::Success(txs) => RetryDecision::Done(RequestVerdict::Found(txs)),
        RequestOutcome::NoTransactions => if attempt == 1 {
            RetryDecision::RetryAfter(RECONFIRM_DELAY_SECS)
        } else {
            RetryDecision::Done(RequestVerdict::Settled(SentinelKind::NoTransaction))
        },
        RequestOutcome::EmptyResult => RetryDecision::Done(
            RequestVerdict::Settled(SentinelKind::NoData),
        ),
        RequestOutcome::MalformedResponse => if attempt < max_retries {
            RetryDecision::RetryAfter(RETRY_DELAY_SECS)
        } else {
            RetryDecision::Done(RequestVerdict::Settled(SentinelKind::ParseFailure))
        },
        RequestOutcome::TransportError => if attempt < max_retries {
            RetryDecision::RetryAfter(RETRY_DELAY_SECS)
        } else {
            RetryDecision::Done(RequestVerdict::Settled(SentinelKind::NetworkError))
        },
        RequestOutcome::Timeout => if attempt < max_retries {
            RetryDecision::RetryAfter(RETRY_DELAY_SECS)
        } else {
            RetryDecision::Done(RequestVerdict::Settled(SentinelKind::Timeout))
        },
    }
}

/// Takes the controller's decision for one classified attempt.
pub fn retry_step(attempt: u32, max_retries: u32, outcome: RequestOutcome) -> (r: RetryDecision)
    ensures
        r == spec_retry_step(attempt, max_retries, outcome),
{
    match outcome {
        RequestOutcome::Success(txs) => RetryDecision::Done(RequestVerdict::Found(txs)),
        RequestOutcome::NoTransactions => if attempt == 1 {
            RetryDecision::RetryAfter(RECONFIRM_DELAY_SECS)
        } else {
            RetryDecision::Done(RequestVerdict::Settled(SentinelKind::NoTransaction))
        },
        RequestOutcome::EmptyResult => RetryDecision::Done(
            RequestVerdict::Settled(SentinelKind::NoData),
        ),
        RequestOutcome::MalformedResponse => if attempt < max_retries {
            RetryDecision::RetryAfter(RETRY_DELAY_SECS)
        } else {
            RetryDecision::Done(RequestVerdict::Settled(SentinelKind::ParseFailure))
        },
        RequestOutcome::TransportError => if attempt < max_retries {
            RetryDecision::RetryAfter(RETRY_DELAY_SECS)
        } else {
            RetryDecision::Done(RequestVerdict::Settled(SentinelKind::NetworkError))
        },
        RequestOutcome::Timeout => if attempt < max_retries {
            RetryDecision::RetryAfter(RETRY_DELAY_SECS)
        } else {
            RetryDecision::Done(RequestVerdict::Settled(SentinelKind::Timeout))
        },
    }
}

/// The verdict of running the whole retry loop from attempt number `attempt`
/// against the outcomes the executor would classify on the successive
/// attempts (`outcomes[k]` belongs to attempt `attempt + k`). `None` when the
/// loop leaves the attempt budget without settling, which can happen only
/// when an empty first attempt cannot be re-confirmed because the ceiling
/// itself is one, or when fewer outcomes are supplied than attempts taken.
pub open spec fn spec_resolve(outcomes: Seq<RequestOutcome>, attempt: u32, max_retries: u32) -> Option<
    RequestVerdict,
>
    decreases max_retries - attempt when attempt <= max_retries
{
    if attempt > max_retries || outcomes.len() == 0 {
        None
    } else {
        match spec_retry_step(attempt, max_retries, outcomes[0]) {
            RetryDecision::Done(v) => Some(v),
            RetryDecision::RetryAfter(_) => if attempt == max_retries {
                None
            } else {
                spec_resolve(outcomes.skip(1), (attempt + 1) as u32, max_retries)
            },
        }
    }
}

/// Runs the retry loop over a given sequence of classified attempt outcomes:
/// `outcomes[k]` is what attempt `k + 1` would classify to. Consumes one
/// outcome per attempt and returns the settled verdict, or `None` when the
/// budget is left without settling.
#[verifier::loop_isolation(false)]
pub fn resolve_outcomes(outcomes: Vec<RequestOutcome>, max_retries: u32) -> (r: Option<RequestVerdict>)
    requires
        max_retries >= 1,
    ensures
        r == spec_resolve(outcomes@, 1, max_retries),
{
    let ghost all = outcomes@;
    let mut rest = outcomes;
    let mut attempt: u32 = 1;
    loop
        invariant
            1 <= attempt <= max_retries,
            spec_resolve(all, 1, max_retries) == spec_resolve(rest@, attempt, max_retries),
        decreases max_retries - attempt,
    {
        if rest.len() == 0 {
            return None;
        }
        let ghost pre = rest@;
        let outcome = rest.remove(0);
        proof {
            assert(rest@ =~= pre.skip(1));
        }
        match retry_step(attempt, max_retries, outcome) {
            RetryDecision::Done(v) => {
                return Some(v);
            },
            RetryDecision::RetryAfter(_) => {
                if attempt == max_retries {
                    return None;
                }
                attempt = attempt + 1;
            },
        }
    }
}


/// Retry law for transient errors: when the first `max_retries - 1` attempts
/// all classify as transient errors (transport error, timeout or malformed
/// body) and the final attempt succeeds, the settled verdict carries the
/// final attempt's transactions — never an error sentinel.
pub proof fn lemma_late_success_wins(outcomes: Seq<RequestOutcome>, max_retries: u32, txs: Vec<TxRecord>)
    requires
        max_retries >= 1,
        outcomes.len() == max_retries,
        forall|k: int| 0 <= k < max_retries - 1 ==> (#[trigger] outcomes[k]
            == RequestOutcome::TransportError || outcomes[k] == RequestOutcome::Timeout
            || outcomes[k] == RequestOutcome::MalformedResponse),
        outcomes[max_retries - 1] == RequestOutcome::Success(txs),
    ensures
        spec_resolve(outcomes, 1, max_retries) == Some(RequestVerdict::Found(txs)),
{
    lemma_late_success_from(outcomes, 1, max_retries, txs);
}

/// Helper for [`lemma_late_success_wins`], generalized over the attempt the
/// loop currently stands at.
proof fn lemma_late_success_from(outcomes: Seq<RequestOutcome>, attempt: u32, max_retries: u32, txs: Vec<TxRecord>)
    requires
        1 <= attempt <= max_retries,
        outcomes.len() == max_retries - attempt + 1,
        forall|k: int| 0 <= k < outcomes.len() - 1 ==> (#[trigger] outcomes[k]
            == RequestOutcome::TransportError || outcomes[k] == RequestOutcome::Timeout
            || outcomes[k] == RequestOutcome::MalformedResponse),
        outcomes[outcomes.len() - 1] == RequestOutcome::Success(txs),
    ensures
        spec_resolve(outcomes, attempt, max_retries) == Some(RequestVerdict::Found(txs)),
    decreases max_retries - attempt,
{
    if attempt == max_retries {
        assert(outcomes[0] == RequestOutcome::Success(txs));
    } else {
        lemma_late_success_from(outcomes.skip(1), (attempt + 1) as u32, max_retries, txs);
    }
}

/// Exhaustion law for timeouts: when every attempt up to the ceiling
/// classifies as a timeout, the settled verdict is the timeout sentinel —
/// not any other error kind.
pub proof fn lemma_all_timeouts_settle_timeout(outcomes: Seq<RequestOutcome>, max_retries: u32)
    requires
        max_retries >= 1,
        outcomes.len() == max_retries,
        forall|k: int| 0 <= k < max_retries ==> #[trigger] outcomes[k] == RequestOutcome::Timeout,
    ensures
        spec_resolve(outcomes, 1, max_retries) == Some(
            RequestVerdict::Settled(SentinelKind::Timeout),
        ),
{
    lemma_all_timeouts_from(outcomes, 1, max_retries);
}

/// Helper for [`lemma_all_timeouts_settle_timeout`], generalized over the
/// attempt the loop currently stands at.
proof fn lemma_all_timeouts_from(outcomes: Seq<RequestOutcome>, attempt: u32, max_retries: u32)
    requires
        1 <= attempt <= max_retries,
        outcomes.len() == max_retries - attempt + 1,
        forall|k: int| 0 <= k < outcomes.len() ==> #[trigger] outcomes[k] == RequestOutcome::Timeout,
    ensures
        spec_resolve(outcomes, attempt, max_retries) == Some(
            RequestVerdict::Settled(SentinelKind::Timeout),
        ),
    decreases max_retries - attempt,
{
    if attempt < max_retries {
        lemma_all_timeouts_from(outcomes.skip(1), (attempt + 1) as u32, max_retries);
    }
}

} // verus!
