//! Classification of one request attempt. The unverified transport hands in
//! what it observed — a connection failure, an exceeded time budget, an
//! undecodable body, or a decoded envelope — and the executor classifies it
//! into the closed set of outcome kinds every retry and fallback decision
//! switches on.
use vstd::prelude::*;

use crate::records::TxRecord;

verus! {

/// What the transport observed for one attempt, before classification.
/// `Envelope(None)` is a well-formed body whose `result` field was absent;
/// `Envelope(Some(txs))` carries the transactions of a present `result`.
pub enum FetchEvent {
    /// Connection-level failure: DNS, connect, TLS or read error.
    Transport,
    /// The attempt exceeded its wall-clock budget.
    TimedOut,
    /// A body arrived but did not decode into the expected envelope.
    Undecodable,
    /// A decoded envelope; `None` when the `result` field was absent.
    Envelope(Option<Vec<TxRecord>>),
}

/// The closed classification of one attempt's outcome.
pub enum RequestOutcome {
    /// The envelope carried a non-empty transaction list.
    Success(Vec<TxRecord>),
    /// The envelope carried an explicitly empty transaction list.
    NoTransactions,
    /// The envelope parsed but its `result` field was absent.
    EmptyResult,
    /// The body did not parse into the expected envelope.
    MalformedResponse,
    /// Connection-level failure.
    TransportError,
    /// The attempt timed out.
    Timeout,
}

/// The classification [`classify_event`] must produce for a given event.
pub open spec fn spec_classify(event: FetchEvent) -> RequestOutcome {
    match event {
        FetchEvent::Transport => RequestOutcome::TransportError,
        FetchEvent::TimedOut => RequestOutcome::Timeout,
        FetchEvent::Undecodable => RequestOutcome::MalformedResponse,
        FetchEvent::Envelope(body) => match body {
            None => RequestOutcome::EmptyResult,
            Some(txs) => if txs@.len() == 0 {
                RequestOutcome::NoTransactions
            } else {
                RequestOutcome::Success(txs)
            },
        },
    }
}

/// Classifies one attempt's observation into its outcome kind: transport
/// failure, timeout, malformed body, absent `result`, empty transaction
/// list, or success carrying the transactions.
pub fn classify_event(event: FetchEvent) -> (r: RequestOutcome)
    ensures
        r == spec_classify(event),
{
    match event {
        FetchEvent::Transport => RequestOutcome::TransportError,
        FetchEvent::TimedOut => RequestOutcome::Timeout,
        FetchEvent::Undecodable => RequestOutcome::MalformedResponse,
        FetchEvent::Envelope(body) => match body {
            None => RequestOutcome::EmptyResult,
            Some(txs) => if txs.len() == 0 {
                RequestOutcome::NoTransactions
            } else {
                RequestOutcome::Success(txs)
            },
        },
    }
}

/// The single-chain path's reading of an absent `result` payload: it counts
/// as an empty transaction list (and is then re-confirmed or accepted by the
/// retry policy), where the multi-chain path treats it as terminal no-data.
pub fn fold_absent_result(outcome: RequestOutcome) -> (r: RequestOutcome)
    ensures
        r == (match outcome {
            RequestOutcome::EmptyResult => RequestOutcome::NoTransactions,
            _ => outcome,
        }),
{
    match outcome {
        RequestOutcome::EmptyResult => RequestOutcome::NoTransactions,
        other => other,
    }
}

} // verus!
