//! The result aggregator: a pure, single-threaded pass that groups the flat
//! result-record collection by chain, preserving per-chain insertion order,
//! ready for tabular emission. Runs only after all concurrent work is done.
use vstd::prelude::*;

use crate::records::QueryResult;
use crate::worker::spec_block_shape;

verus! {

/// The records of one chain, in the order their addresses were enqueued.
pub struct ChainGroup {
    pub chain: String,
    pub rows: Vec<QueryResult>,
}

/// The rows a chain's section owes: the flat records of that chain, in flat
/// order.
pub open spec fn spec_group(flat: Seq<QueryResult>, chain: Seq<char>) -> Seq<QueryResult> {
    flat.filter(|q: QueryResult| q.tx_chain@ == chain)
}

/// What [`group_by_chain`] owes: one section per target chain, in target
/// order, each holding exactly that chain's records in flat order.
pub open spec fn spec_grouped_ok(
    groups: Seq<ChainGroup>,
    flat: Seq<QueryResult>,
    chains: Seq<Seq<char>>,
) -> bool {
    &&& groups.len() == chains.len()
    &&& forall|j: int|
        0 <= j < chains.len() ==> (#[trigger] groups[j]).chain@ == chains[j] && groups[j].rows@
            == spec_group(flat, chains[j])
}

/// Groups the flat record collection by chain: one section per target chain,
/// in target order, each section holding that chain's records in the order
/// they stand in the flat collection.
#[verifier::loop_isolation(false)]
pub fn group_by_chain(flat: &Vec<QueryResult>, chains: &Vec<String>) -> (r: Vec<ChainGroup>)
    ensures
        spec_grouped_ok(r@, flat@, chains@.map_values(|c: String| c@)),
{
    let mut r: Vec<ChainGroup> = Vec::new();
    let mut j: usize = 0;
    while j < chains.len()
        invariant
            0 <= j <= chains@.len(),
            r@.len() == j,
            forall|m: int|
                0 <= m < j ==> (#[trigger] r@[m]).chain@ == chains@[m]@ && r@[m].rows@
                    == spec_group(flat@, chains@[m]@),
        decreases chains@.len() - j,
    {
        let rows = filter_chain_rows(flat, &chains[j]);
        r.push(ChainGroup { chain: chains[j].clone(), rows });
        j = j + 1;
    }
    proof {
        assert(chains@.map_values(|c: String| c@).len() == chains@.len());
    }
    r
}

/// Collects the records of one chain, in flat order.
#[verifier::loop_isolation(false)]
pub fn filter_chain_rows(flat: &Vec<QueryResult>, chain: &String) -> (rows: Vec<QueryResult>)
    ensures
        rows@ == spec_group(flat@, chain@),
{
    let ghost pred = |q: QueryResult| q.tx_chain@ == chain@;
    proof {
        assert(flat@.take(0) =~= Seq::<QueryResult>::empty());
        assert(Seq::<QueryResult>::empty().filter(pred) =~= Seq::<QueryResult>::empty()) by {
            reveal(Seq::filter);
        }
    }
    let mut rows: Vec<QueryResult> = Vec::new();
    let mut i: usize = 0;
    while i < flat.len()
        invariant
            0 <= i <= flat@.len(),
            rows@ == flat@.take(i as int).filter(pred),
        decreases flat@.len() - i,
    {
        proof {
            assert(flat@.take(i as int + 1).drop_last() =~= flat@.take(i as int));
            assert(flat@.take(i as int + 1).last() == flat@[i as int]);
            assert(flat@.take(i as int + 1).filter(pred) == (if pred(flat@[i as int]) {
                flat@.take(i as int).filter(pred).push(flat@[i as int])
            } else {
                flat@.take(i as int).filter(pred)
            })) by {
                reveal(Seq::filter);
            }
        }
        if crate::worker::strings_equal(&flat[i].tx_chain, chain) {
            rows.push(flat[i].clone());
        }
        i = i + 1;
    }
    proof {
        assert(flat@.take(flat@.len() as int) =~= flat@);
    }
    rows
}

/// Joins the per-address result blocks into the flat record collection the
/// aggregator consumes: the blocks' rows, block by block, in the order the
/// blocks are handed in.
#[verifier::loop_isolation(false)]
pub fn flatten_records(blocks: Vec<Vec<QueryResult>>) -> (r: Vec<QueryResult>)
    ensures
        r@ == blocks@.map_values(|b: Vec<QueryResult>| b@).flatten(),
{
    let ghost views = blocks@.map_values(|b: Vec<QueryResult>| b@);
    let mut rest = blocks;
    let mut r: Vec<QueryResult> = Vec::new();
    proof {
        assert(Seq::<QueryResult>::empty() + views.flatten() =~= views.flatten());
    }
    while rest.len() > 0
        invariant
            views.flatten() == r@ + rest@.map_values(|b: Vec<QueryResult>| b@).flatten(),
        decreases rest@.len(),
    {
        let ghost pre = rest@.map_values(|b: Vec<QueryResult>| b@);
        let mut block = rest.remove(0);
        proof {
            assert(rest@.map_values(|b: Vec<QueryResult>| b@) =~= pre.drop_first());
            assert(pre.first() == block@);
        }
        let ghost joined = r@;
        r.append(&mut block);
        proof {
            assert(joined + (pre.first() + pre.drop_first().flatten()) =~= (joined + pre.first())
                + pre.drop_first().flatten());
        }
    }
    proof {
        assert(rest@.map_values(|b: Vec<QueryResult>| b@) =~= Seq::<Seq<QueryResult>>::empty());
        assert(r@ + Seq::<QueryResult>::empty() =~= r@);
    }
    r
}

/// Aggregation is deterministic: two groupings of the same flat collection
/// under the same target chains are identical section for section and row
/// for row — running the aggregator twice yields the same report.
pub proof fn lemma_aggregate_deterministic(
    r1: Seq<ChainGroup>,
    r2: Seq<ChainGroup>,
    flat: Seq<QueryResult>,
    chains: Seq<Seq<char>>,
)
    requires
        spec_grouped_ok(r1, flat, chains),
        spec_grouped_ok(r2, flat, chains),
    ensures
        r1.len() == r2.len(),
        forall|j: int|
            0 <= j < r1.len() ==> (#[trigger] r1[j]).chain@ == r2[j].chain@ && r1[j].rows@
                == r2[j].rows@,
{
}

/// No element of the sequence satisfies the predicate: its filter is empty.
proof fn lemma_filter_none<A>(s: Seq<A>, pred: spec_fn(A) -> bool)
    requires
        forall|i: int| 0 <= i < s.len() ==> !pred(#[trigger] s[i]),
    ensures
        s.filter(pred) =~= Seq::<A>::empty(),
    decreases s.len(),
{
    reveal(Seq::filter);
    if s.len() > 0 {
        lemma_filter_none(s.drop_last(), pred);
    }
}

/// Exactly one element of the sequence satisfies the predicate: its filter
/// is that element alone.
proof fn lemma_filter_single<A>(s: Seq<A>, pred: spec_fn(A) -> bool, j: int)
    requires
        0 <= j < s.len(),
        pred(s[j]),
        forall|i: int| 0 <= i < s.len() && i != j ==> !pred(#[trigger] s[i]),
    ensures
        s.filter(pred) =~= seq![s[j]],
    decreases s.len(),
{
    reveal(Seq::filter);
    if j == s.len() - 1 {
        lemma_filter_none(s.drop_last(), pred);
    } else {
        lemma_filter_single(s.drop_last(), pred, j);
    }
}

/// Completeness of the report: when every per-address block resolves every
/// target chain exactly once (rows in target-chain order) and the target
/// chains are distinct, the group of chain `j` holds exactly one record per
/// address, in address order — record `i` of group `j` is block `i`'s record
/// for chain `j`. With `N` addresses and `C` chains the report therefore
/// holds exactly `N * C` records, one per (address, chain) pair, with no
/// duplicates and no omissions.
pub proof fn lemma_report_complete(
    blocks: Seq<Seq<QueryResult>>,
    addresses: Seq<Seq<char>>,
    chains: Seq<Seq<char>>,
)
    requires
        blocks.len() == addresses.len(),
        forall|a: int, b: int| 0 <= a < b < chains.len() ==> chains[a] != chains[b],
        forall|i: int|
            0 <= i < blocks.len() ==> spec_block_shape(#[trigger] blocks[i], addresses[i], chains),
    ensures
        forall|j: int|
            0 <= j < chains.len() ==> #[trigger] spec_group(blocks.flatten(), chains[j])
                =~= Seq::new(blocks.len(), |i: int| blocks[i][j]),
        forall|j: int|
            0 <= j < chains.len() ==> #[trigger] spec_group(blocks.flatten(), chains[j]).len()
                == addresses.len(),
        forall|j: int, i: int|
            0 <= j < chains.len() && 0 <= i < blocks.len() ==> #[trigger] spec_group(
                blocks.flatten(),
                chains[j],
            )[i].address@ == addresses[i] && spec_group(blocks.flatten(), chains[j])[i].tx_chain@
                == chains[j],
    decreases blocks.len(),
{
    if blocks.len() == 0 {
        assert(blocks.flatten() =~= Seq::<QueryResult>::empty());
        assert forall|j: int| 0 <= j < chains.len() implies #[trigger] spec_group(
            blocks.flatten(),
            chains[j],
        ) =~= Seq::new(blocks.len(), |i: int| blocks[i][j]) by {
            lemma_filter_none(blocks.flatten(), |q: QueryResult| q.tx_chain@ == chains[j]);
        }
    } else {
        let head = blocks[0];
        let rest = blocks.drop_first();
        lemma_report_complete(rest, addresses.drop_first(), chains);
        assert(blocks.flatten() == head + rest.flatten());
        assert forall|j: int| 0 <= j < chains.len() implies #[trigger] spec_group(
            blocks.flatten(),
            chains[j],
        ) =~= Seq::new(blocks.len(), |i: int| blocks[i][j]) by {
            let pred = |q: QueryResult| q.tx_chain@ == chains[j];
            Seq::filter_distributes_over_add(head, rest.flatten(), pred);
            assert forall|m: int| 0 <= m < head.len() && m != j implies !pred(
                #[trigger] head[m],
            ) by {
                assert(head[m].tx_chain@ == chains[m]);
            }
            lemma_filter_single(head, pred, j);
            assert(spec_group(rest.flatten(), chains[j]) =~= Seq::new(
                rest.len(),
                |i: int| rest[i][j],
            ));
            assert(spec_group(blocks.flatten(), chains[j]) =~= seq![head[j]] + Seq::new(
                rest.len(),
                |i: int| rest[i][j],
            ));
        }
    }
    assert forall|j: int, i: int|
        0 <= j < chains.len() && 0 <= i < blocks.len() implies #[trigger] spec_group(
        blocks.flatten(),
        chains[j],
    )[i].address@ == addresses[i] && spec_group(blocks.flatten(), chains[j])[i].tx_chain@
        == chains[j] by {
        assert(spec_group(blocks.flatten(), chains[j]) =~= Seq::new(
            blocks.len(),
            |m: int| blocks[m][j],
        ));
        assert(spec_group(blocks.flatten(), chains[j])[i] == blocks[i][j]);
        assert(spec_block_shape(blocks[i], addresses[i], chains));
    }
}

} // verus!
