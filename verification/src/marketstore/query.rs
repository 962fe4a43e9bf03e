//! Queries of the store's history.

use vstd::prelude::*;

use crate::marketstore::decode::NumpyMultiDataset;
use crate::marketstore::symbology::{
    aggregation_error, bar_key, bar_type_to_tbk, quote_tbk, trade_tbk, unit_of, BarType,
};
use crate::text::text_view;

verus! {

/// The nanoseconds of a second.
pub const SECOND_NANOS: i64 = 1_000_000_000;

/// The number that 64 bits write out in two's complement.
pub open spec fn as_signed(ts: u64) -> int {
    if ts <= i64::MAX {
        ts as int
    } else {
        ts - 0x1_0000_0000_0000_0000
    }
}

/// An instant as whole seconds and the nanoseconds that remain, cut off towards zero.
pub open spec fn epoch_parts(ts: Option<u64>) -> (int, int) {
    match ts {
        None => (0, 0),
        Some(ts) => {
            let n = as_signed(ts);
            if n >= 0 {
                (n / SECOND_NANOS as int, n % (SECOND_NANOS as int))
            } else {
                (-((-n) / SECOND_NANOS as int), -((-n) % (SECOND_NANOS as int)))
            }
        },
    }
}

/// An instant as whole seconds and the nanoseconds that remain; no instant is zero of both.
pub fn split_epoch(ts: Option<u64>) -> (r: (i64, i64))
    ensures
        r.0 == epoch_parts(ts).0,
        r.1 == epoch_parts(ts).1,
{
    match ts {
        None => (0, 0),
        Some(ts) => if ts <= 0x7fff_ffff_ffff_ffff {
            let n: i64 = ts as i64;
            (n / 1_000_000_000, n % 1_000_000_000)
        } else {
            let m: i128 = 0x1_0000_0000_0000_0000 - ts as i128;
            (-((m / 1_000_000_000) as i64), -((m % 1_000_000_000) as i64))
        },
    }
}

/// A query of one time series.
#[derive(Clone, Debug)]
pub struct QueryRequest {
    pub destination: String,
    pub epoch_start: i64,
    pub epoch_start_nanos: i64,
    pub epoch_end: i64,
    pub epoch_end_nanos: i64,
    /// The most rows; zero for all.
    pub limit_record_count: i32,
}

impl QueryRequest {
    /// Whether the query asks for at most `limit` rows of a series between two instants.
    pub open spec fn asks_for(
        self,
        destination: Seq<char>,
        start: Option<u64>,
        end: Option<u64>,
        limit: i32,
    ) -> bool {
        &&& self.destination@ == destination
        &&& self.epoch_start == epoch_parts(start).0
        &&& self.epoch_start_nanos == epoch_parts(start).1
        &&& self.epoch_end == epoch_parts(end).0
        &&& self.epoch_end_nanos == epoch_parts(end).1
        &&& self.limit_record_count == limit
    }
}

/// The query of a time series between two instants, both included; no instant leaves that side
/// open.
pub fn query_request(destination: &str, start: Option<u64>, end: Option<u64>, limit: i32) -> (r:
    QueryRequest)
    ensures
        r.asks_for(destination@, start, end, limit),
{
    let (epoch_start, epoch_start_nanos) = split_epoch(start);
    let (epoch_end, epoch_end_nanos) = split_epoch(end);
    QueryRequest {
        destination: destination.to_owned(),
        epoch_start,
        epoch_start_nanos,
        epoch_end,
        epoch_end_nanos,
        limit_record_count: limit,
    }
}

/// The query of the bars of a type; refused where the store does not have the aggregation.
pub fn bars_query(bar_type: &BarType, start: Option<u64>, end: Option<u64>, limit: i32) -> (r:
    Result<QueryRequest, String>)
    ensures
        match (r, unit_of(bar_type.aggregation)) {
            (Ok(q), Some(unit)) => q.asks_for(
                bar_key(bar_type.symbol@, bar_type.step as nat, unit),
                start,
                end,
                limit,
            ),
            (Err(e), None) => e@ == aggregation_error(bar_type.aggregation),
            _ => false,
        },
{
    match bar_type_to_tbk(bar_type) {
        Ok(key) => Ok(query_request(key.as_str(), start, end, limit)),
        Err(e) => Err(e),
    }
}

/// The query of the trades of a symbol.
pub fn trades_query(symbol: &str, start: Option<u64>, end: Option<u64>, limit: i32) -> (r:
    QueryRequest)
    ensures
        r.asks_for(symbol@ + "/1Sec/TRADE"@, start, end, limit),
{
    query_request(trade_tbk(symbol).as_str(), start, end, limit)
}

/// The query of the quotes of a symbol.
pub fn quotes_query(symbol: &str, start: Option<u64>, end: Option<u64>, limit: i32) -> (r:
    QueryRequest)
    ensures
        r.asks_for(symbol@ + "/1Sec/QUOTE"@, start, end, limit),
{
    query_request(quote_tbk(symbol).as_str(), start, end, limit)
}

/// The result of a query: that of the first response. Further responses are left out of account.
pub fn first_result(responses: Vec<Option<NumpyMultiDataset>>, destination: &str) -> (r: Result<
    NumpyMultiDataset,
    String,
>)
    ensures
        match r {
            Ok(d) => responses@.len() > 0 && responses@[0] == Some(d),
            Err(e) => (responses@.len() == 0 || responses@[0] is None) && e@
                == "empty MarketStore response for "@ + destination@,
        },
{
    let mut responses = responses;
    if responses.len() > 0 {
        if let Some(d) = responses.remove(0) {
            return Ok(d);
        }
    }
    Err("empty MarketStore response for ".to_owned().concat(destination))
}

/// The timeframe that a listing of symbols is narrowed to; empty for none.
pub fn symbol_filter(timeframe: &Option<String>) -> (r: String)
    ensures
        r@ == match text_view(*timeframe) {
            Some(t) => t,
            None => Seq::empty(),
        },
{
    match timeframe {
        Some(t) => t.clone(),
        None => String::new(),
    }
}

/// The most rows that a request asks for, in the 32 bits that a query has for them; zero for all.
pub open spec fn row_limit(limit: Option<u64>) -> int {
    match limit {
        None => 0,
        Some(n) => {
            let low = n as int % 0x1_0000_0000;
            if low < 0x8000_0000 {
                low
            } else {
                low - 0x1_0000_0000
            }
        },
    }
}

/// The most rows that a request asks for, in the 32 bits that a query has for them.
pub fn request_limit(limit: Option<u64>) -> (r: i32)
    ensures
        r == row_limit(limit),
{
    match limit {
        None => 0,
        Some(n) => {
            let low: u64 = n % 0x1_0000_0000;
            if low < 0x8000_0000 {
                low as i32
            } else {
                (low as i64 - 0x1_0000_0000) as i32
            }
        },
    }
}

// ----- laws -----

/// Splitting an instant loses nothing: its seconds and nanoseconds add up to it, and the
/// nanoseconds are less than a second. Both are on the instant's own side of 1970.
pub proof fn epoch_parts_add_up(ts: u64)
    ensures
        epoch_parts(Some(ts)).0 * SECOND_NANOS + epoch_parts(Some(ts)).1 == as_signed(ts),
        -SECOND_NANOS < epoch_parts(Some(ts)).1 < SECOND_NANOS,
        as_signed(ts) >= 0 ==> epoch_parts(Some(ts)).0 >= 0 && epoch_parts(Some(ts)).1 >= 0,
        as_signed(ts) <= 0 ==> epoch_parts(Some(ts)).0 <= 0 && epoch_parts(Some(ts)).1 <= 0,
        (as_signed(ts) - ts) % 0x1_0000_0000_0000_0000 == 0,
        i64::MIN <= as_signed(ts) <= i64::MAX,
{
}

/// A limit below `2^31` is passed on as it is.
pub proof fn ordinary_limits_stay(n: u64)
    requires
        n < 0x8000_0000,
    ensures
        row_limit(Some(n)) == n,
{
}

/// A query asks for its own series from the start to the end: an instant from 1970 on is asked for
/// as its whole seconds and the nanoseconds since, which are less than a second. An instant that is
/// not given is zero of both.
pub proof fn queries_ask_from_start_to_end(
    q: QueryRequest,
    destination: Seq<char>,
    start: Option<u64>,
    end: Option<u64>,
    limit: i32,
)
    requires
        q.asks_for(destination, start, end, limit),
    ensures
        q.destination@ == destination,
        start matches Some(t) ==> (t <= i64::MAX ==> q.epoch_start * 1_000_000_000
            + q.epoch_start_nanos == t && 0 <= q.epoch_start_nanos < 1_000_000_000),
        end matches Some(t) ==> (t <= i64::MAX ==> q.epoch_end * 1_000_000_000 + q.epoch_end_nanos
            == t && 0 <= q.epoch_end_nanos < 1_000_000_000),
        start is None ==> q.epoch_start == 0 && q.epoch_start_nanos == 0,
        end is None ==> q.epoch_end == 0 && q.epoch_end_nanos == 0,
        q.limit_record_count == limit,
{
}

/// A limit is what a query can hold of it: the number itself below `2^31`, else the number that
/// differs from it by a multiple of `2^32` and fits; none for no limit.
pub proof fn limits_keep_their_low_bits(limit: u64)
    ensures
        row_limit(None) == 0,
        i32::MIN <= row_limit(Some(limit)) <= i32::MAX,
        (limit - row_limit(Some(limit))) % 0x1_0000_0000 == 0,
{
}

} // verus!
