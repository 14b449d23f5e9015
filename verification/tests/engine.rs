use wallet_last_tx::aggregate::{flatten_records, group_by_chain};
use wallet_last_tx::gate::AdmissionGate;
use wallet_last_tx::outcome::{classify_event, fold_absent_result, FetchEvent, RequestOutcome};
use wallet_last_tx::records::{sentinel_text, QueryResult, SentinelKind, TxRecord};
use wallet_last_tx::retry::{resolve_outcomes, RequestVerdict, MAX_RETRIES};
use wallet_last_tx::worker::{
    assemble_records, broadcast_records, chains_missing, fold_confirmation, partition_by_chain,
    plan_batch, BatchPlan,
};

fn tx(hash: &str, ts: &str, chain: &str) -> TxRecord {
    TxRecord {
        hash: hash.to_string(),
        timestamp: ts.to_string(),
        blockchain: chain.to_string(),
    }
}

fn chains(names: &[&str]) -> Vec<String> {
    names.iter().map(|s| s.to_string()).collect()
}

#[test]
fn classify_transport_and_timeout() {
    assert!(matches!(
        classify_event(FetchEvent::Transport),
        RequestOutcome::TransportError
    ));
    assert!(matches!(
        classify_event(FetchEvent::TimedOut),
        RequestOutcome::Timeout
    ));
    assert!(matches!(
        classify_event(FetchEvent::Undecodable),
        RequestOutcome::MalformedResponse
    ));
}

#[test]
fn classify_envelope_shapes() {
    assert!(matches!(
        classify_event(FetchEvent::Envelope(None)),
        RequestOutcome::EmptyResult
    ));
    assert!(matches!(
        classify_event(FetchEvent::Envelope(Some(Vec::new()))),
        RequestOutcome::NoTransactions
    ));
    let got = classify_event(FetchEvent::Envelope(Some(vec![tx(
        "0xabc",
        "0x5f5e1000",
        "eth",
    )])));
    match got {
        RequestOutcome::Success(txs) => {
            assert_eq!(txs.len(), 1);
            assert_eq!(txs[0].hash, "0xabc");
        }
        _ => panic!("expected a successful classification"),
    }
}

#[test]
fn retry_late_success_wins() {
    // Transport errors on attempts 1..4, success on attempt 5.
    let outcomes = vec![
        RequestOutcome::TransportError,
        RequestOutcome::TransportError,
        RequestOutcome::TransportError,
        RequestOutcome::TransportError,
        RequestOutcome::Success(vec![tx("0xfeed", "0x5f5e1000", "eth")]),
    ];
    match resolve_outcomes(outcomes, MAX_RETRIES) {
        Some(RequestVerdict::Found(txs)) => {
            assert_eq!(txs.len(), 1);
            assert_eq!(txs[0].hash, "0xfeed");
        }
        _ => panic!("the successful fifth attempt must win"),
    }
}

#[test]
fn retry_all_timeouts_settle_timeout() {
    let outcomes = vec![
        RequestOutcome::Timeout,
        RequestOutcome::Timeout,
        RequestOutcome::Timeout,
        RequestOutcome::Timeout,
        RequestOutcome::Timeout,
    ];
    match resolve_outcomes(outcomes, MAX_RETRIES) {
        Some(RequestVerdict::Settled(kind)) => {
            assert!(matches!(kind, SentinelKind::Timeout));
        }
        _ => panic!("exhausted timeouts must settle as the timeout sentinel"),
    }
}

#[test]
fn retry_reconfirms_first_empty_then_accepts() {
    let outcomes = vec![RequestOutcome::NoTransactions, RequestOutcome::NoTransactions];
    match resolve_outcomes(outcomes, MAX_RETRIES) {
        Some(RequestVerdict::Settled(kind)) => {
            assert!(matches!(kind, SentinelKind::NoTransaction));
        }
        _ => panic!("a re-confirmed empty result must settle as no-transaction"),
    }
    // A success on the re-confirmation attempt wins.
    let outcomes = vec![
        RequestOutcome::NoTransactions,
        RequestOutcome::Success(vec![tx("0xlate", "0x5f5e1000", "bsc")]),
    ];
    match resolve_outcomes(outcomes, MAX_RETRIES) {
        Some(RequestVerdict::Found(txs)) => assert_eq!(txs[0].hash, "0xlate"),
        _ => panic!("the re-confirmation attempt's transactions must win"),
    }
}

#[test]
fn retry_absent_result_is_terminal_no_data() {
    let outcomes = vec![RequestOutcome::EmptyResult, RequestOutcome::Timeout];
    match resolve_outcomes(outcomes, MAX_RETRIES) {
        Some(RequestVerdict::Settled(kind)) => {
            assert!(matches!(kind, SentinelKind::NoData));
        }
        _ => panic!("an absent result payload settles at once as no-data"),
    }
}

#[test]
fn retry_network_error_exhaustion() {
    let outcomes = vec![
        RequestOutcome::TransportError,
        RequestOutcome::TransportError,
        RequestOutcome::TransportError,
        RequestOutcome::TransportError,
        RequestOutcome::TransportError,
    ];
    match resolve_outcomes(outcomes, MAX_RETRIES) {
        Some(RequestVerdict::Settled(kind)) => {
            assert!(matches!(kind, SentinelKind::NetworkError));
        }
        _ => panic!("exhausted transport errors must settle as network-error"),
    }
}

#[test]
fn retry_malformed_exhaustion() {
    let outcomes = vec![
        RequestOutcome::MalformedResponse,
        RequestOutcome::MalformedResponse,
        RequestOutcome::MalformedResponse,
        RequestOutcome::MalformedResponse,
        RequestOutcome::MalformedResponse,
    ];
    match resolve_outcomes(outcomes, MAX_RETRIES) {
        Some(RequestVerdict::Settled(kind)) => {
            assert!(matches!(kind, SentinelKind::ParseFailure));
        }
        _ => panic!("exhausted malformed bodies must settle as parse-failure"),
    }
}

#[test]
fn dedup_keeps_first_per_chain() {
    // Two transactions both tagged "eth" with different hashes: only the
    // first-encountered one is kept.
    let txs = vec![
        tx("0xfirst", "0x1", "eth"),
        tx("0xsecond", "0x2", "eth"),
        tx("0xbsc", "0x3", "bsc"),
    ];
    let p = partition_by_chain(&txs);
    assert_eq!(p.len(), 2);
    assert_eq!(p[0].blockchain, "eth");
    assert_eq!(p[0].hash, "0xfirst");
    assert_eq!(p[1].blockchain, "bsc");
}

#[test]
fn partition_discards_empty_hashes() {
    let txs = vec![tx("", "0x1", "eth"), tx("0xreal", "0x2", "eth")];
    let p = partition_by_chain(&txs);
    assert_eq!(p.len(), 1);
    assert_eq!(p[0].hash, "0xreal");
}

#[test]
fn fallback_for_absent_chain_only() {
    // Batch covers {eth, bsc} out of targets {eth, bsc, polygon}: the
    // confirmation fallback is owed exactly once, for polygon only.
    let targets = chains(&["eth", "bsc", "polygon"]);
    let p = partition_by_chain(&vec![tx("0xa", "0x1", "eth"), tx("0xb", "0x2", "bsc")]);
    let missing = chains_missing(&targets, &p);
    assert_eq!(missing, vec!["polygon".to_string()]);
}

#[test]
fn fold_confirmation_kinds() {
    let c = fold_confirmation(RequestOutcome::Success(vec![tx("0xhit", "0x5f5e1000", "eth")]));
    assert!(!c.is_empty);
    assert_eq!(c.tx_hash, "0xhit");

    let c = fold_confirmation(RequestOutcome::NoTransactions);
    assert!(c.is_empty);
    assert_eq!(c.tx_hash, "无交易");
    assert_eq!(c.tx_time, "N/A");

    let c = fold_confirmation(RequestOutcome::EmptyResult);
    assert!(c.is_empty);
    assert_eq!(c.tx_hash, "无交易");

    let c = fold_confirmation(RequestOutcome::MalformedResponse);
    assert!(c.is_empty);
    assert_eq!(c.tx_hash, "解析失败");

    let c = fold_confirmation(RequestOutcome::TransportError);
    assert_eq!(c.tx_hash, "网络错误");

    let c = fold_confirmation(RequestOutcome::Timeout);
    assert_eq!(c.tx_hash, "超时");
}

#[test]
fn assemble_one_record_per_chain() {
    let address = "0xwallet".to_string();
    let targets = chains(&["eth", "bsc", "polygon"]);
    let p = partition_by_chain(&vec![tx("0xa", "0x5f5e1000", "eth"), tx("0xb", "0x5f5e1000", "bsc")]);
    let missing = chains_missing(&targets, &p);
    assert_eq!(missing.len(), 1);
    let confirmations = vec![fold_confirmation(RequestOutcome::NoTransactions)];
    let block = assemble_records(&address, &targets, &p, &confirmations);
    assert_eq!(block.len(), 3);
    assert_eq!(block[0].tx_chain, "eth");
    assert_eq!(block[0].tx_hash, "0xa");
    assert_eq!(block[1].tx_chain, "bsc");
    assert_eq!(block[1].tx_hash, "0xb");
    assert_eq!(block[2].tx_chain, "polygon");
    assert_eq!(block[2].tx_hash, "无交易");
    assert_eq!(block[2].tx_time, "N/A");
    for row in &block {
        assert_eq!(row.address, "0xwallet");
    }
}

#[test]
fn assemble_takes_fallback_hit() {
    let address = "0xwallet".to_string();
    let targets = chains(&["eth", "bsc"]);
    let p = partition_by_chain(&vec![tx("0xa", "0x5f5e1000", "eth")]);
    let confirmations =
        vec![fold_confirmation(RequestOutcome::Success(vec![tx("0xfound", "0x5f5e1000", "bsc")]))];
    let block = assemble_records(&address, &targets, &p, &confirmations);
    assert_eq!(block.len(), 2);
    assert_eq!(block[1].tx_chain, "bsc");
    assert_eq!(block[1].tx_hash, "0xfound");
}

#[test]
fn broadcast_error_to_every_chain() {
    let address = "0xwallet".to_string();
    let targets = chains(&["eth", "bsc", "polygon"]);
    let block = broadcast_records(&address, &targets, SentinelKind::NetworkError);
    assert_eq!(block.len(), 3);
    for (j, row) in block.iter().enumerate() {
        assert_eq!(row.address, "0xwallet");
        assert_eq!(row.tx_chain, targets[j]);
        assert_eq!(row.tx_hash, "网络错误");
        assert_eq!(row.tx_time, "N/A");
    }
}

#[test]
fn sentinel_texts() {
    assert_eq!(sentinel_text(SentinelKind::NoTransaction), "无交易");
    assert_eq!(sentinel_text(SentinelKind::ParseFailure), "解析失败");
    assert_eq!(sentinel_text(SentinelKind::NetworkError), "网络错误");
    assert_eq!(sentinel_text(SentinelKind::Timeout), "超时");
    assert_eq!(sentinel_text(SentinelKind::NoData), "无数据");
}

fn row(addr: &str, hash: &str, time: &str, chain: &str) -> QueryResult {
    QueryResult {
        address: addr.to_string(),
        tx_hash: hash.to_string(),
        tx_time: time.to_string(),
        tx_chain: chain.to_string(),
    }
}

#[test]
fn grouped_report_complete() {
    // Two addresses, three target chains: the report holds exactly 2 x 3
    // records, one per (address, chain) pair, per-chain in address order.
    let targets = chains(&["eth", "bsc", "polygon"]);
    let mut flat = Vec::new();
    for addr in ["0xone", "0xtwo"] {
        for c in ["eth", "bsc", "polygon"] {
            flat.push(row(addr, "0xh", "N/A", c));
        }
    }
    let report = group_by_chain(&flat, &targets);
    assert_eq!(report.len(), 3);
    let mut total = 0;
    for (j, group) in report.iter().enumerate() {
        assert_eq!(group.chain, targets[j]);
        assert_eq!(group.rows.len(), 2);
        assert_eq!(group.rows[0].address, "0xone");
        assert_eq!(group.rows[1].address, "0xtwo");
        for r in &group.rows {
            assert_eq!(r.tx_chain, targets[j]);
        }
        total += group.rows.len();
    }
    assert_eq!(total, 2 * 3);
}

#[test]
fn grouped_report_preserves_flat_order() {
    let targets = chains(&["eth"]);
    let flat = vec![
        row("0xa", "0x1", "t1", "eth"),
        row("0xb", "0x2", "t2", "eth"),
        row("0xc", "0x3", "t3", "eth"),
    ];
    let report = group_by_chain(&flat, &targets);
    assert_eq!(report[0].rows.len(), 3);
    assert_eq!(report[0].rows[0].tx_hash, "0x1");
    assert_eq!(report[0].rows[1].tx_hash, "0x2");
    assert_eq!(report[0].rows[2].tx_hash, "0x3");
}

#[test]
fn aggregation_is_idempotent() {
    // Running the aggregator twice on the same flat collection yields
    // identical reports.
    let targets = chains(&["eth", "bsc"]);
    let flat = vec![
        row("0xa", "0x1", "t1", "eth"),
        row("0xb", "0x2", "t2", "bsc"),
        row("0xc", "0x3", "t3", "eth"),
        row("0xd", "0x4", "t4", "unlisted"),
    ];
    let first = group_by_chain(&flat, &targets);
    let second = group_by_chain(&flat, &targets);
    assert_eq!(first.len(), second.len());
    for (g1, g2) in first.iter().zip(second.iter()) {
        assert_eq!(g1.chain, g2.chain);
        assert_eq!(g1.rows.len(), g2.rows.len());
        for (r1, r2) in g1.rows.iter().zip(g2.rows.iter()) {
            assert_eq!(r1.address, r2.address);
            assert_eq!(r1.tx_hash, r2.tx_hash);
            assert_eq!(r1.tx_time, r2.tx_time);
            assert_eq!(r1.tx_chain, r2.tx_chain);
        }
    }
}

#[test]
fn admission_gate_never_exceeds_ceiling() {
    // 200 scheduled tasks against ceilings 1, 5 and 50: the number of
    // simultaneously let-in tasks never exceeds the ceiling.
    for ceiling in [1usize, 5, 50] {
        let mut gate = AdmissionGate::new(ceiling);
        let mut held = 0usize;
        let mut max_seen = 0usize;
        let mut scheduled = 0usize;
        while scheduled < 200 {
            if gate.try_acquire() {
                held += 1;
                scheduled += 1;
                if gate.in_flight > max_seen {
                    max_seen = gate.in_flight;
                }
                assert!(gate.in_flight <= ceiling);
            } else {
                // Gate full: a running task completes and frees its slot.
                assert_eq!(gate.in_flight, ceiling);
                gate.release();
                held -= 1;
            }
        }
        // Drain the tasks still holding slots.
        while held > 0 {
            gate.release();
            held -= 1;
        }
        assert_eq!(gate.in_flight, 0);
        assert_eq!(max_seen, ceiling.min(200));
    }
}

#[test]
fn retry_budget_spent_without_verdict() {
    // Fewer outcomes than the loop would consume: the budget is left
    // without a settled verdict.
    let outcomes = vec![RequestOutcome::TransportError];
    assert!(resolve_outcomes(outcomes, MAX_RETRIES).is_none());
    // A ceiling of one cannot re-confirm a first-attempt empty result.
    let outcomes = vec![RequestOutcome::NoTransactions];
    assert!(resolve_outcomes(outcomes, 1).is_none());
}

#[test]
fn batch_plan_dispatch() {
    let plan = plan_batch(RequestVerdict::Found(vec![tx("0xa", "0x1", "eth")]));
    match plan {
        BatchPlan::Resolve(txs) => assert_eq!(txs.len(), 1),
        _ => panic!("a found list is resolved per chain"),
    }
    // A re-confirmed empty batch resolves with an empty partition, so every
    // chain goes to the fallback.
    match plan_batch(RequestVerdict::Settled(SentinelKind::NoTransaction)) {
        BatchPlan::Resolve(txs) => assert!(txs.is_empty()),
        _ => panic!("a confirmed-empty batch still resolves per chain"),
    }
    match plan_batch(RequestVerdict::Settled(SentinelKind::Timeout)) {
        BatchPlan::Broadcast(kind) => assert!(matches!(kind, SentinelKind::Timeout)),
        _ => panic!("a terminal error is broadcast"),
    }
}

#[test]
fn absent_result_folds_for_single_chain() {
    assert!(matches!(
        fold_absent_result(RequestOutcome::EmptyResult),
        RequestOutcome::NoTransactions
    ));
    assert!(matches!(
        fold_absent_result(RequestOutcome::Timeout),
        RequestOutcome::Timeout
    ));
}

#[test]
fn flatten_joins_blocks_in_order() {
    let blocks = vec![
        vec![row("0xa", "0x1", "t1", "eth"), row("0xa", "0x2", "t2", "bsc")],
        Vec::new(),
        vec![row("0xb", "0x3", "t3", "eth")],
    ];
    let flat = flatten_records(blocks);
    assert_eq!(flat.len(), 3);
    assert_eq!(flat[0].address, "0xa");
    assert_eq!(flat[1].tx_chain, "bsc");
    assert_eq!(flat[2].address, "0xb");
}
