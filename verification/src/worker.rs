//! The per-address worker's decision logic: partitioning a multi-chain batch
//! of transactions by chain with first-seen-wins dedup, picking the target
//! chains that need a confirmation fallback, folding a fallback outcome, and
//! assembling exactly one result record per target chain. The network calls
//! between these steps are driven outside; every decision is taken here.
use vstd::prelude::*;

use crate::outcome::RequestOutcome;
use crate::records::QueryResult;
use crate::records::SentinelKind;
use crate::records::TxRecord;
use crate::records::na_text;
use crate::records::sentinel_record;
use crate::records::sentinel_text;
use crate::records::spec_na_text;
use crate::records::spec_sentinel_text;
use crate::retry::RequestVerdict;
use crate::timefmt::format_timestamp;

verus! {

/// Some transaction of the sequence belongs to the given chain.
pub open spec fn spec_has_chain(txs: Seq<TxRecord>, chain: Seq<char>) -> bool {
    exists|i: int| 0 <= i < txs.len() && txs[i].blockchain@ == chain
}

/// `txs[i]` is the first transaction of its chain in the sequence.
pub open spec fn spec_first_of_chain(txs: Seq<TxRecord>, chain: Seq<char>, i: int) -> bool {
    &&& 0 <= i < txs.len()
    &&& txs[i].blockchain@ == chain
    &&& forall|m: int| 0 <= m < i ==> txs[m].blockchain@ != chain
}

/// One pass of first-seen-wins partitioning: each transaction with a
/// non-empty hash whose chain is not yet represented in the accumulator is
/// appended; every other transaction is discarded.
pub open spec fn spec_partition_loop(txs: Seq<TxRecord>, acc: Seq<TxRecord>) -> Seq<TxRecord>
    decreases txs.len(),
{
    if txs.len() == 0 {
        acc
    } else {
        let t = txs[0];
        let next = if t.hash@.len() > 0 && !spec_has_chain(acc, t.blockchain@) {
            acc.push(t)
        } else {
            acc
        };
        spec_partition_loop(txs.skip(1), next)
    }
}

/// The per-chain partition of a batch: for every chain that occurs with a
/// non-empty hash, its first such transaction, in first-occurrence order.
pub open spec fn spec_partition(txs: Seq<TxRecord>) -> Seq<TxRecord> {
    spec_partition_loop(txs, Seq::empty())
}

/// Decides whether two strings hold the same characters.
pub fn strings_equal(a: &String, b: &String) -> (r: bool)
    ensures
        r == (a@ == b@),
{
    *a == *b
}

/// Decides whether any transaction of `txs` belongs to `chain`.
pub fn has_chain(txs: &Vec<TxRecord>, chain: &String) -> (r: bool)
    ensures
        r == spec_has_chain(txs@, chain@),
{
    let mut i: usize = 0;
    while i < txs.len()
        invariant
            0 <= i <= txs@.len(),
            forall|m: int| 0 <= m < i ==> txs@[m].blockchain@ != chain@,
        decreases txs@.len() - i,
    {
        if strings_equal(&txs[i].blockchain, chain) {
            return true;
        }
        i = i + 1;
    }
    false
}

/// Partitions a batch of transactions by chain, first occurrence per chain
/// winning: a later transaction for an already-seen chain is discarded, as is
/// any transaction with an empty hash.
pub fn partition_by_chain(txs: &Vec<TxRecord>) -> (p: Vec<TxRecord>)
    ensures
        p@ == spec_partition(txs@),
{
    let mut p: Vec<TxRecord> = Vec::new();
    proof {
        assert(txs@.skip(0) =~= txs@);
    }
    let mut i: usize = 0;
    while i < txs.len()
        invariant
            0 <= i <= txs@.len(),
            spec_partition(txs@) == spec_partition_loop(txs@.skip(i as int), p@),
        decreases txs@.len() - i,
    {
        let ghost pre = p@;
        proof {
            assert(txs@.skip(i as int)[0] == txs@[i as int]);
            assert(txs@.skip(i as int).skip(1) =~= txs@.skip(i as int + 1));
        }
        if !txs[i].hash.as_str().is_empty() && !has_chain(&p, &txs[i].blockchain) {
            p.push(txs[i].clone());
        }
        i = i + 1;
    }
    proof {
        assert(txs@.skip(txs@.len() as int) =~= Seq::<TxRecord>::empty());
    }
    p
}

/// The target chains that a batch partition leaves unresolved, in target
/// order: exactly those with no transaction in the partition.
#[verifier::loop_isolation(false)]
pub fn chains_missing(chains: &Vec<String>, partition: &Vec<TxRecord>) -> (r: Vec<String>)
    ensures
        r@ == chains@.filter(|c: String| !spec_has_chain(partition@, c@)),
{
    let ghost pred = |c: String| !spec_has_chain(partition@, c@);
    proof {
        assert(chains@.take(0) =~= Seq::<String>::empty());
        assert(Seq::<String>::empty().filter(pred) =~= Seq::<String>::empty()) by {
            reveal(Seq::filter);
        }
    }
    let mut r: Vec<String> = Vec::new();
    let mut i: usize = 0;
    while i < chains.len()
        invariant
            0 <= i <= chains@.len(),
            r@ == chains@.take(i as int).filter(pred),
        decreases chains@.len() - i,
    {
        proof {
            assert(chains@.take(i as int + 1).drop_last() =~= chains@.take(i as int));
            assert(chains@.take(i as int + 1).last() == chains@[i as int]);
            assert(chains@.take(i as int + 1).filter(pred) == (if pred(chains@[i as int]) {
                chains@.take(i as int).filter(pred).push(chains@[i as int])
            } else {
                chains@.take(i as int).filter(pred)
            })) by {
                reveal(Seq::filter);
            }
        }
        if !has_chain(partition, &chains[i]) {
            r.push(chains[i].clone());
        }
        i = i + 1;
    }
    proof {
        assert(chains@.take(chains@.len() as int) =~= chains@);
    }
    r
}

/// The fold of one confirmation-fallback attempt, mirroring the secondary
/// single-chain check: `is_empty` says the chain is treated as having no
/// transaction (confirmed empty, or any failure of the check itself, all
/// folded into "treat as empty"), and the two strings are what the result
/// record will carry in its hash and time columns.
pub struct Confirmation {
    pub is_empty: bool,
    pub tx_hash: String,
    pub tx_time: String,
}

/// Folds the classified outcome of the single confirmation request. Only a
/// successful outcome with a transaction counts as found; an empty or absent
/// result confirms emptiness, and a malformed body, transport error or
/// timeout of this second-line check is folded into "treat as empty" with
/// the sentinel of its kind.
pub fn fold_confirmation(outcome: RequestOutcome) -> (c: Confirmation)
    ensures
        match outcome {
            RequestOutcome::Success(txs) => if txs@.len() > 0 {
                !c.is_empty && c.tx_hash@ == txs@[0].hash@
            } else {
                c.is_empty && c.tx_hash@ == spec_sentinel_text(SentinelKind::NoTransaction)
                    && c.tx_time@ == spec_na_text()
            },
            RequestOutcome::NoTransactions | RequestOutcome::EmptyResult => c.is_empty
                && c.tx_hash@ == spec_sentinel_text(SentinelKind::NoTransaction) && c.tx_time@
                == spec_na_text(),
            RequestOutcome::MalformedResponse => c.is_empty && c.tx_hash@ == spec_sentinel_text(
                SentinelKind::ParseFailure,
            ) && c.tx_time@ == spec_na_text(),
            RequestOutcome::TransportError => c.is_empty && c.tx_hash@ == spec_sentinel_text(
                SentinelKind::NetworkError,
            ) && c.tx_time@ == spec_na_text(),
            RequestOutcome::Timeout => c.is_empty && c.tx_hash@ == spec_sentinel_text(
                SentinelKind::Timeout,
            ) && c.tx_time@ == spec_na_text(),
        },
{
    match outcome {
        RequestOutcome::Success(txs) => {
            if txs.len() > 0 {
                let hash = txs[0].hash.clone();
                let time = format_timestamp(txs[0].timestamp.as_str());
                Confirmation { is_empty: false, tx_hash: hash, tx_time: time }
            } else {
                Confirmation {
                    is_empty: true,
                    tx_hash: sentinel_text(SentinelKind::NoTransaction),
                    tx_time: na_text(),
                }
            }
        },
        RequestOutcome::NoTransactions | RequestOutcome::EmptyResult => Confirmation {
            is_empty: true,
            tx_hash: sentinel_text(SentinelKind::NoTransaction),
            tx_time: na_text(),
        },
        RequestOutcome::MalformedResponse => Confirmation {
            is_empty: true,
            tx_hash: sentinel_text(SentinelKind::ParseFailure),
            tx_time: na_text(),
        },
        RequestOutcome::TransportError => Confirmation {
            is_empty: true,
            tx_hash: sentinel_text(SentinelKind::NetworkError),
            tx_time: na_text(),
        },
        RequestOutcome::Timeout => Confirmation {
            is_empty: true,
            tx_hash: sentinel_text(SentinelKind::Timeout),
            tx_time: na_text(),
        },
    }
}

/// Builds the result record for a transaction found for `(address, chain)`:
/// the transaction's hash and the local rendering of its timestamp.
pub fn found_record(address: &String, chain: &String, tx: &TxRecord) -> (r: QueryResult)
    ensures
        r.address@ == address@,
        r.tx_hash@ == tx.hash@,
        r.tx_chain@ == chain@,
{
    QueryResult {
        address: address.clone(),
        tx_hash: tx.hash.clone(),
        tx_time: format_timestamp(tx.timestamp.as_str()),
        tx_chain: chain.clone(),
    }
}

/// Finds the first transaction of the given chain, returning its index:
/// `Some` exactly when the chain occurs, and then the least such index.
pub fn find_chain(txs: &Vec<TxRecord>, chain: &String) -> (r: Option<usize>)
    ensures
        match r {
            Some(i) => spec_first_of_chain(txs@, chain@, i as int),
            None => !spec_has_chain(txs@, chain@),
        },
{
    let mut i: usize = 0;
    while i < txs.len()
        invariant
            0 <= i <= txs@.len(),
            forall|m: int| 0 <= m < i ==> txs@[m].blockchain@ != chain@,
        decreases txs@.len() - i,
    {
        if strings_equal(&txs[i].blockchain, chain) {
            return Some(i);
        }
        i = i + 1;
    }
    None
}

/// Every target chain resolves to exactly one record for this address, the
/// records standing in target-chain order: rows[j] is the record of chains[j].
pub open spec fn spec_block_shape(rows: Seq<QueryResult>, address: Seq<char>, chains: Seq<Seq<char>>) -> bool {
    &&& rows.len() == chains.len()
    &&& forall|j: int|
        0 <= j < chains.len() ==> (#[trigger] rows[j]).tx_chain@ == chains[j] && rows[j].address@
            == address
}

/// The views of a sequence of chain names.
pub open spec fn spec_chain_views(chains: Seq<String>) -> Seq<Seq<char>> {
    chains.map_values(|c: String| c@)
}

/// Broadcasts one terminal sentinel to every target chain: the per-address
/// worker's answer when the batched multi-chain request itself failed
/// terminally. Exactly one record per chain, in target order.
pub fn broadcast_records(address: &String, chains: &Vec<String>, kind: SentinelKind) -> (r: Vec<
    QueryResult,
>)
    ensures
        spec_block_shape(r@, address@, spec_chain_views(chains@)),
        forall|j: int|
            0 <= j < chains@.len() ==> (#[trigger] r@[j]).tx_hash@ == spec_sentinel_text(kind)
                && r@[j].tx_time@ == spec_na_text(),
{
    let mut r: Vec<QueryResult> = Vec::new();
    let mut i: usize = 0;
    while i < chains.len()
        invariant
            0 <= i <= chains@.len(),
            r@.len() == i,
            forall|j: int|
                0 <= j < i ==> (#[trigger] r@[j]).tx_chain@ == chains@[j]@ && r@[j].address@
                    == address@ && r@[j].tx_hash@ == spec_sentinel_text(kind) && r@[j].tx_time@
                    == spec_na_text(),
        decreases chains@.len() - i,
    {
        r.push(sentinel_record(address, &chains[i], kind));
        i = i + 1;
    }
    r
}

/// Assembles the per-address result block after a successful batch: one
/// record per target chain, in target order. A chain represented in the
/// partition yields its first transaction's record; a chain absent from the
/// partition takes the next confirmation-fallback result in order — its
/// hash and time strings stand in the record as folded.
#[verifier::loop_isolation(false)]
pub fn assemble_records(
    address: &String,
    chains: &Vec<String>,
    partition: &Vec<TxRecord>,
    confirmations: &Vec<Confirmation>,
) -> (r: Vec<QueryResult>)
    requires
        confirmations@.len() == chains@.filter(
            |c: String| !spec_has_chain(partition@, c@),
        ).len(),
    ensures
        spec_block_shape(r@, address@, spec_chain_views(chains@)),
        forall|j: int, i: int|
            0 <= j < chains@.len() && #[trigger] spec_first_of_chain(partition@, chains@[j]@, i)
                ==> r@[j].tx_hash@ == partition@[i].hash@,
        forall|j: int|
            0 <= j < chains@.len() && !spec_has_chain(partition@, #[trigger] chains@[j]@) ==> {
                let k = chains@.take(j).filter(|c: String| !spec_has_chain(partition@, c@)).len();
                r@[j].tx_hash@ == confirmations@[k as int].tx_hash@ && r@[j].tx_time@
                    == confirmations@[k as int].tx_time@
            },
{
    let ghost missing = |c: String| !spec_has_chain(partition@, c@);
    proof {
        assert(chains@.take(0) =~= Seq::<String>::empty());
        assert(Seq::<String>::empty().filter(missing) =~= Seq::<String>::empty()) by {
            reveal(Seq::filter);
        }
    }
    let mut r: Vec<QueryResult> = Vec::new();
    let mut k: usize = 0;
    let mut j: usize = 0;
    while j < chains.len()
        invariant
            0 <= j <= chains@.len(),
            r@.len() == j,
            k == chains@.take(j as int).filter(missing).len(),
            confirmations@.len() == chains@.filter(missing).len(),
            forall|m: int|
                0 <= m < j ==> (#[trigger] r@[m]).tx_chain@ == chains@[m]@ && r@[m].address@
                    == address@,
            forall|m: int, i: int|
                0 <= m < j && #[trigger] spec_first_of_chain(partition@, chains@[m]@, i)
                    ==> r@[m].tx_hash@ == partition@[i].hash@,
            forall|m: int|
                0 <= m < j && !spec_has_chain(partition@, #[trigger] chains@[m]@) ==> {
                    let k2 = chains@.take(m).filter(missing).len();
                    r@[m].tx_hash@ == confirmations@[k2 as int].tx_hash@ && r@[m].tx_time@
                        == confirmations@[k2 as int].tx_time@
                },
        decreases chains@.len() - j,
    {
        proof {
            assert(chains@.take(j as int + 1).drop_last() =~= chains@.take(j as int));
            assert(chains@.take(j as int + 1).last() == chains@[j as int]);
            assert(chains@.take(j as int + 1).filter(missing) == (if missing(chains@[j as int]) {
                chains@.take(j as int).filter(missing).push(chains@[j as int])
            } else {
                chains@.take(j as int).filter(missing)
            })) by {
                reveal(Seq::filter);
            }
            lemma_filter_prefix_len(chains@, missing, j as int + 1);
        }
        match find_chain(partition, &chains[j]) {
            Some(i) => {
                let rec = found_record(address, &chains[j], &partition[i]);
                r.push(rec);
                proof {
                    assert forall|m: int, i2: int|
                        0 <= m < j + 1 && #[trigger] spec_first_of_chain(partition@, chains@[m]@, i2)
                        implies r@[m].tx_hash@ == partition@[i2].hash@ by {
                        if m == j {
                            assert(i2 == i as int);
                        }
                    }
                }
            },
            None => {
                let c = &confirmations[k];
                let rec = QueryResult {
                    address: address.clone(),
                    tx_hash: c.tx_hash.clone(),
                    tx_time: c.tx_time.clone(),
                    tx_chain: chains[j].clone(),
                };
                r.push(rec);
                k = k + 1;
            },
        }
        j = j + 1;
    }
    proof {
        assert(chains@.take(chains@.len() as int) =~= chains@);
    }
    r
}

/// A prefix never selects more elements than the whole sequence: the filter
/// of `take(j)` is no longer than the filter of the full sequence.
proof fn lemma_filter_prefix_len<A>(s: Seq<A>, pred: spec_fn(A) -> bool, j: int)
    requires
        0 <= j <= s.len(),
    ensures
        s.take(j).filter(pred).len() <= s.filter(pred).len(),
    decreases s.len() - j,
{
    if j < s.len() {
        assert(s.take(j + 1).drop_last() =~= s.take(j));
        assert(s.take(s.len() as int) =~= s);
        reveal(Seq::filter);
        lemma_filter_prefix_len(s, pred, j + 1);
    } else {
        assert(s.take(j) =~= s);
    }
}

/// What the per-address worker does with the settled verdict of its batched
/// multi-chain request: a found transaction list is partitioned and resolved
/// per chain; a re-confirmed empty list is resolved the same way with an
/// empty batch, so that every chain goes to the confirmation fallback; any
/// other terminal sentinel is broadcast to every target chain of this
/// address, unretried.
pub enum BatchPlan {
    /// Partition these transactions and resolve each target chain.
    Resolve(Vec<TxRecord>),
    /// Give every target chain this terminal sentinel.
    Broadcast(SentinelKind),
}

/// Plans the per-address resolution from the batch request's verdict.
pub fn plan_batch(verdict: RequestVerdict) -> (p: BatchPlan)
    ensures
        match verdict {
            RequestVerdict::Found(txs) => p == BatchPlan::Resolve(txs),
            RequestVerdict::Settled(kind) => if kind == SentinelKind::NoTransaction {
                p matches BatchPlan::Resolve(txs) && txs@.len() == 0
            } else {
                p == BatchPlan::Broadcast(kind)
            },
        },
{
    match verdict {
        RequestVerdict::Found(txs) => BatchPlan::Resolve(txs),
        RequestVerdict::Settled(SentinelKind::NoTransaction) => BatchPlan::Resolve(Vec::new()),
        RequestVerdict::Settled(kind) => BatchPlan::Broadcast(kind),
    }
}

/// Membership is preserved downward by `filter`: an element of the filtered
/// sequence stands in the original one.
proof fn lemma_filter_member_of<A>(s: Seq<A>, pred: spec_fn(A) -> bool, x: A)
    requires
        s.filter(pred).contains(x),
    ensures
        s.contains(x),
    decreases s.len(),
{
    reveal(Seq::filter);
    if s.len() > 0 {
        if s.last() == x {
            assert(s[s.len() - 1] == x);
        } else {
            if !s.drop_last().filter(pred).contains(x) {
                assert(s.filter(pred).last() == x || !s.filter(pred).contains(x));
            }
            lemma_filter_member_of(s.drop_last(), pred, x);
            let i = choose|i: int| 0 <= i < s.drop_last().len() && s.drop_last()[i] == x;
            assert(s[i] == x);
        }
    }
}

/// The fallback law: under distinct target chains, the chains handed to the
/// confirmation fallback are exactly the target chains the partition leaves
/// unresolved — each absent chain exactly once, and no resolved chain at all.
pub proof fn lemma_fallback_targets(chains: Seq<String>, partition: Seq<TxRecord>)
    requires
        forall|a: int, b: int| 0 <= a < b < chains.len() ==> chains[a]@ != chains[b]@,
    ensures
        ({
            let missing = chains.filter(|c: String| !spec_has_chain(partition, c@));
            &&& forall|i: int|
                0 <= i < missing.len() ==> !spec_has_chain(partition, (#[trigger] missing[i])@)
            &&& forall|j: int|
                0 <= j < chains.len() && !spec_has_chain(partition, (#[trigger] chains[j])@)
                    ==> missing.contains(chains[j])
            &&& forall|a: int, b: int| 0 <= a < b < missing.len() ==> missing[a]@ != missing[b]@
        }),
{
    broadcast use vstd::seq_lib::group_filter_ensures;

    let pred = |c: String| !spec_has_chain(partition, c@);
    let missing = chains.filter(pred);
    assert forall|a: int, b: int| 0 <= a < b < missing.len() implies missing[a]@ != missing[b]@ by {
        lemma_filter_index_distinct(chains, pred, a, b);
    }
}

/// Two positions of a filtered sequence hold elements from two distinct
/// positions of the original, in the same order; with pairwise view-distinct
/// elements the filtered views differ.
proof fn lemma_filter_index_distinct(
    s: Seq<String>,
    pred: spec_fn(String) -> bool,
    a: int,
    b: int,
)
    requires
        forall|x: int, y: int| 0 <= x < y < s.len() ==> s[x]@ != s[y]@,
        0 <= a < b,
    ensures
        b < s.filter(pred).len() ==> s.filter(pred)[a]@ != s.filter(pred)[b]@,
    decreases s.len(),
{
    reveal(Seq::filter);
    if s.len() > 0 && b < s.filter(pred).len() {
        let f = s.filter(pred);
        let fd = s.drop_last().filter(pred);
        if pred(s.last()) {
            if b < fd.len() {
                lemma_filter_index_distinct(s.drop_last(), pred, a, b);
            } else {
                assert(f[b] == s.last());
                assert(fd.contains(fd[a]));
                lemma_filter_member_of(s.drop_last(), pred, fd[a]);
                let i = choose|i: int|
                    0 <= i < s.drop_last().len() && s.drop_last()[i] == fd[a];
                assert(s[i] == fd[a]);
                assert(s[i]@ != s[s.len() - 1]@);
            }
        } else {
            lemma_filter_index_distinct(s.drop_last(), pred, a, b);
        }
    }
}

/// Core induction for the partition's guarantees, generalized over the
/// accumulator [`spec_partition_loop`] carries: the accumulated records are
/// kept as a prefix, per-chain uniqueness is preserved, a chain is
/// represented exactly when the accumulator already held it or a qualifying
/// transaction (non-empty hash) occurs, and the first qualifying transaction
/// of a chain not yet represented is kept.
proof fn lemma_partition_loop_core(txs: Seq<TxRecord>, acc: Seq<TxRecord>)
    requires
        forall|a: int, b: int|
            0 <= a < b < acc.len() ==> acc[a].blockchain@ != acc[b].blockchain@,
    ensures
        ({
            let p = spec_partition_loop(txs, acc);
            &&& p.len() >= acc.len()
            &&& forall|i: int| 0 <= i < acc.len() ==> #[trigger] p[i] == acc[i]
            &&& forall|a: int, b: int|
                0 <= a < b < p.len() ==> p[a].blockchain@ != p[b].blockchain@
            &&& forall|c: Seq<char>|
                #[trigger] spec_has_chain(p, c) <==> (spec_has_chain(acc, c) || exists|k: int|
                    0 <= k < txs.len() && (#[trigger] txs[k]).blockchain@ == c
                        && txs[k].hash@.len() > 0)
            &&& forall|k: int|
                0 <= k < txs.len() && (#[trigger] txs[k]).hash@.len() > 0 && !spec_has_chain(
                    acc,
                    txs[k].blockchain@,
                ) && (forall|m: int|
                    0 <= m < k ==> !((#[trigger] txs[m]).blockchain@ == txs[k].blockchain@
                        && txs[m].hash@.len() > 0)) ==> p.contains(txs[k])
        }),
    decreases txs.len(),
{
    if txs.len() > 0 {
        let t = txs[0];
        let kept = t.hash@.len() > 0 && !spec_has_chain(acc, t.blockchain@);
        let next = if kept {
            acc.push(t)
        } else {
            acc
        };
        let p = spec_partition_loop(txs, acc);
        assert(p == spec_partition_loop(txs.skip(1), next));
        if kept {
            assert forall|a: int, b: int|
                0 <= a < b < next.len() implies next[a].blockchain@ != next[b].blockchain@ by {
                if b == next.len() - 1 {
                    assert(next[b] == t);
                    assert(!spec_has_chain(acc, t.blockchain@));
                    assert(next[a] == acc[a]);
                    assert(acc[a].blockchain@ != t.blockchain@) by {
                        if acc[a].blockchain@ == t.blockchain@ {
                            assert(spec_has_chain(acc, t.blockchain@));
                        }
                    }
                }
            }
        }
        lemma_partition_loop_core(txs.skip(1), next);
        assert forall|c: Seq<char>| #[trigger] spec_has_chain(p, c) implies (spec_has_chain(acc, c)
            || exists|k: int|
            0 <= k < txs.len() && (#[trigger] txs[k]).blockchain@ == c && txs[k].hash@.len()
                > 0) by {
            if !spec_has_chain(acc, c) {
                if kept && t.blockchain@ == c {
                    assert(txs[0].blockchain@ == c && txs[0].hash@.len() > 0);
                } else {
                    assert(!spec_has_chain(next, c));
                    let k = choose|k: int|
                        0 <= k < txs.skip(1).len() && (#[trigger] txs.skip(1)[k]).blockchain@ == c
                            && txs.skip(1)[k].hash@.len() > 0;
                    assert(txs[k + 1].blockchain@ == c && txs[k + 1].hash@.len() > 0);
                }
            }
        }
        assert forall|c: Seq<char>|
            (spec_has_chain(acc, c) || exists|k: int|
                0 <= k < txs.len() && (#[trigger] txs[k]).blockchain@ == c && txs[k].hash@.len()
                    > 0) implies #[trigger] spec_has_chain(p, c) by {
            if spec_has_chain(acc, c) {
                assert(spec_has_chain(next, c)) by {
                    let i = choose|i: int| 0 <= i < acc.len() && acc[i].blockchain@ == c;
                    assert(next[i].blockchain@ == c);
                }
            } else {
                let k = choose|k: int|
                    0 <= k < txs.len() && (#[trigger] txs[k]).blockchain@ == c && txs[k].hash@.len()
                        > 0;
                if k == 0 {
                    if kept {
                        assert(next[next.len() - 1].blockchain@ == c);
                        assert(spec_has_chain(next, c));
                    } else {
                        assert(spec_has_chain(acc, c));
                    }
                } else {
                    assert(txs.skip(1)[k - 1].blockchain@ == c && txs.skip(1)[k - 1].hash@.len()
                        > 0);
                }
            }
        }
        assert forall|k: int|
            0 <= k < txs.len() && (#[trigger] txs[k]).hash@.len() > 0 && !spec_has_chain(
                acc,
                txs[k].blockchain@,
            ) && (forall|m: int|
                0 <= m < k ==> !((#[trigger] txs[m]).blockchain@ == txs[k].blockchain@
                    && txs[m].hash@.len() > 0)) implies p.contains(txs[k]) by {
            if k == 0 {
                assert(kept);
                assert(p[acc.len() as int] == next[acc.len() as int]);
                assert(p[acc.len() as int] == t);
            } else {
                assert(txs.skip(1)[k - 1] == txs[k]);
                assert(!spec_has_chain(next, txs[k].blockchain@)) by {
                    if kept && t.blockchain@ == txs[k].blockchain@ {
                        assert(txs[0].blockchain@ == txs[k].blockchain@ && txs[0].hash@.len() > 0);
                    } else {
                        if spec_has_chain(next, txs[k].blockchain@) {
                            let i = choose|i: int|
                                0 <= i < next.len() && next[i].blockchain@ == txs[k].blockchain@;
                            if kept && i == next.len() - 1 {
                                assert(false);
                            } else {
                                assert(acc[i].blockchain@ == txs[k].blockchain@);
                                assert(spec_has_chain(acc, txs[k].blockchain@));
                            }
                        }
                    }
                }
                assert forall|m: int|
                    0 <= m < k - 1 implies !((#[trigger] txs.skip(1)[m]).blockchain@ == txs.skip(
                    1,
                )[k - 1].blockchain@ && txs.skip(1)[m].hash@.len() > 0) by {
                    assert(txs.skip(1)[m] == txs[m + 1]);
                }
            }
        }
    } else {
        assert(spec_partition_loop(txs, acc) == acc);
    }
}

/// The dedup law. In a batch partition:
/// - no chain is represented twice;
/// - a chain is represented exactly when some transaction of that chain with
///   a non-empty hash occurs in the batch;
/// - the first such transaction of each chain is the one kept.
pub proof fn lemma_partition_first_wins(txs: Seq<TxRecord>)
    ensures
        ({
            let p = spec_partition(txs);
            &&& forall|a: int, b: int|
                0 <= a < b < p.len() ==> p[a].blockchain@ != p[b].blockchain@
            &&& forall|c: Seq<char>|
                #[trigger] spec_has_chain(p, c) <==> exists|k: int|
                    0 <= k < txs.len() && (#[trigger] txs[k]).blockchain@ == c
                        && txs[k].hash@.len() > 0
            &&& forall|k: int|
                0 <= k < txs.len() && (#[trigger] txs[k]).hash@.len() > 0 && (forall|m: int|
                    0 <= m < k ==> !((#[trigger] txs[m]).blockchain@ == txs[k].blockchain@
                        && txs[m].hash@.len() > 0)) ==> p.contains(txs[k])
        }),
{
    lemma_partition_loop_core(txs, Seq::empty());
}

/// Two transactions of one chain, both with non-empty hashes, the earlier
/// one the first of its chain: the partition keeps the earlier one, and the
/// later one — its hash differing — is discarded.
pub proof fn lemma_dedup_keeps_first(txs: Seq<TxRecord>, k1: int, k2: int)
    requires
        0 <= k1 < k2 < txs.len(),
        txs[k1].blockchain@ == txs[k2].blockchain@,
        txs[k1].hash@.len() > 0,
        txs[k2].hash@.len() > 0,
        txs[k1].hash@ != txs[k2].hash@,
        forall|m: int|
            0 <= m < k1 ==> !((#[trigger] txs[m]).blockchain@ == txs[k1].blockchain@
                && txs[m].hash@.len() > 0),
    ensures
        spec_partition(txs).contains(txs[k1]),
        !spec_partition(txs).contains(txs[k2]),
{
    lemma_partition_first_wins(txs);
    let p = spec_partition(txs);
    assert(p.contains(txs[k1]));
    if p.contains(txs[k2]) {
        let i1 = choose|i: int| 0 <= i < p.len() && p[i] == txs[k1];
        let i2 = choose|i: int| 0 <= i < p.len() && p[i] == txs[k2];
        assert(p[i1].blockchain@ == p[i2].blockchain@);
        assert(i1 != i2) by {
            assert(p[i1].hash@ != p[i2].hash@);
        }
        if i1 < i2 {
            assert(p[i1].blockchain@ != p[i2].blockchain@);
        } else {
            assert(p[i2].blockchain@ != p[i1].blockchain@);
        }
    }
}

} // verus!
