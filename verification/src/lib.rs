//! Resolves, for a list of wallet addresses and a set of target chains, the
//! most recent on-chain transaction per (wallet, chain) pair, and groups the
//! results by chain for tabular reporting.
//!
//! This crate holds the verified engine: outcome classification, retry
//! policy, per-address partitioning with first-seen-wins dedup, confirmation
//! fallback folding, the admission-gate model that bounds concurrency, and
//! the chain-grouped aggregation of result records. The unverified shell
//! (HTTP transport, file reading, spreadsheet writing) lives outside and
//! hands this crate plain values.
pub mod aggregate;
pub mod gate;
pub mod outcome;
pub mod records;
pub mod retry;
pub mod timefmt;
pub mod wallet;
pub mod worker;

use vstd::prelude::*;

verus! {

/// A character is an ASCII hexadecimal digit.
pub open spec fn spec_is_hex_digit(c: char) -> bool {
    ('0' <= c && c <= '9') || ('a' <= c && c <= 'f') || ('A' <= c && c <= 'F')
}

/// Every character of the sequence is an ASCII hexadecimal digit.
pub open spec fn all_hex_digits(s: Seq<char>) -> bool {
    forall|i: int| 0 <= i < s.len() ==> spec_is_hex_digit(#[trigger] s[i])
}

/// Decides whether a character is an ASCII hexadecimal digit.
pub fn is_hex_digit(c: char) -> (r: bool)
    ensures
        r == spec_is_hex_digit(c),
{
    ('0' <= c && c <= '9') || ('a' <= c && c <= 'f') || ('A' <= c && c <= 'F')
}

} // verus!
