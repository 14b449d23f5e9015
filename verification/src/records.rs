//! The data carried through the engine: raw transactions as the remote API
//! returns them, resolved per-(address, chain) result records, and the fixed
//! sentinel strings that stand in for a transaction when none was found or a
//! request failed terminally.
use vstd::prelude::*;

verus! {

/// One transaction as the remote endpoint reports it: a hash, a hex-encoded
/// Unix timestamp, and the chain it belongs to.
pub struct TxRecord {
    pub hash: String,
    pub timestamp: String,
    pub blockchain: String,
}

/// Mathematical image of a [`TxRecord`]: its three fields as char sequences.
pub struct TxRecordView {
    pub hash: Seq<char>,
    pub timestamp: Seq<char>,
    pub blockchain: Seq<char>,
}

impl View for TxRecord {
    type V = TxRecordView;

    open spec fn view(&self) -> TxRecordView {
        TxRecordView { hash: self.hash@, timestamp: self.timestamp@, blockchain: self.blockchain@ }
    }
}

impl Clone for TxRecord {
    fn clone(&self) -> (r: Self)
        ensures
            r == *self,
    {
        TxRecord {
            hash: self.hash.clone(),
            timestamp: self.timestamp.clone(),
            blockchain: self.blockchain.clone(),
        }
    }
}

/// The resolved outcome for one (wallet address, chain) pair: either a real
/// transaction's hash and formatted local time, or a sentinel string in the
/// hash column with `"N/A"` as the time.
pub struct QueryResult {
    pub address: String,
    pub tx_hash: String,
    pub tx_time: String,
    pub tx_chain: String,
}

/// Mathematical image of a [`QueryResult`]: its four fields as char sequences.
pub struct QueryResultView {
    pub address: Seq<char>,
    pub tx_hash: Seq<char>,
    pub tx_time: Seq<char>,
    pub tx_chain: Seq<char>,
}

impl View for QueryResult {
    type V = QueryResultView;

    open spec fn view(&self) -> QueryResultView {
        QueryResultView {
            address: self.address@,
            tx_hash: self.tx_hash@,
            tx_time: self.tx_time@,
            tx_chain: self.tx_chain@,
        }
    }
}

impl Clone for QueryResult {
    fn clone(&self) -> (r: Self)
        ensures
            r == *self,
    {
        QueryResult {
            address: self.address.clone(),
            tx_hash: self.tx_hash.clone(),
            tx_time: self.tx_time.clone(),
            tx_chain: self.tx_chain.clone(),
        }
    }
}

/// The closed set of terminal non-transaction outcomes a (address, chain)
/// pair can resolve to. Each kind renders as a fixed sentinel string in the
/// hash column of the report.
#[derive(Clone, Copy, PartialEq, Eq, Structural)]
pub enum SentinelKind {
    /// Confirmed: the chain holds no transaction for the address.
    NoTransaction,
    /// The response body never parsed into the expected envelope.
    ParseFailure,
    /// A connection-level failure outlasted the retry budget.
    NetworkError,
    /// The per-attempt wall-clock budget was exceeded on every attempt.
    Timeout,
    /// The envelope parsed but carried no `result` payload.
    NoData,
}

/// The sentinel string displayed for each terminal outcome kind.
pub open spec fn spec_sentinel_text(k: SentinelKind) -> Seq<char> {
    match k {
        SentinelKind::NoTransaction => "无交易"@,
        SentinelKind::ParseFailure => "解析失败"@,
        SentinelKind::NetworkError => "网络错误"@,
        SentinelKind::Timeout => "超时"@,
        SentinelKind::NoData => "无数据"@,
    }
}

/// The placeholder shown in the time column when no transaction was resolved.
pub open spec fn spec_na_text() -> Seq<char> {
    "N/A"@
}

/// Renders a sentinel kind as its display string.
pub fn sentinel_text(k: SentinelKind) -> (r: String)
    ensures
        r@ == spec_sentinel_text(k),
{
    match k {
        SentinelKind::NoTransaction => "无交易".to_owned(),
        SentinelKind::ParseFailure => "解析失败".to_owned(),
        SentinelKind::NetworkError => "网络错误".to_owned(),
        SentinelKind::Timeout => "超时".to_owned(),
        SentinelKind::NoData => "无数据".to_owned(),
    }
}

/// Returns the `"N/A"` placeholder for the time column.
pub fn na_text() -> (r: String)
    ensures
        r@ == spec_na_text(),
{
    "N/A".to_owned()
}

/// Builds the result record for a terminal sentinel outcome: the sentinel
/// string stands in the hash column and `"N/A"` in the time column.
pub fn sentinel_record(address: &String, chain: &String, kind: SentinelKind) -> (r: QueryResult)
    ensures
        r.address@ == address@,
        r.tx_hash@ == spec_sentinel_text(kind),
        r.tx_time@ == spec_na_text(),
        r.tx_chain@ == chain@,
{
    QueryResult {
        address: address.clone(),
        tx_hash: sentinel_text(kind),
        tx_time: na_text(),
        tx_chain: chain.clone(),
    }
}

} // verus!
