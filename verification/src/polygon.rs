//! Feed-specific helpers: the exchange identifier table and timestamp
//! conversion for the upstream market-data feed.

use vstd::prelude::*;

verus! {

/// A status message from the feed.
#[derive(Debug)]
pub struct PolygonStatus {
    pub status: String,
    pub message: String,
}

/// The exchange name a feed identifier stands for; identifiers outside the
/// table map to the unknown marker.
pub open spec fn spec_exchange_name(id: int) -> Seq<char> {
    if id == 1 {
        "NYSE"@
    } else if id == 2 {
        "NASDAQ"@
    } else if id == 3 {
        "NYSE_ARCA"@
    } else if id == 4 {
        "NASDAQ_OMX_BX"@
    } else if id == 5 {
        "NYSE_NATIONAL"@
    } else if id == 6 {
        "CBOE_EDGX"@
    } else if id == 7 {
        "CBOE_EDGA"@
    } else if id == 8 {
        "CBOE_BZX"@
    } else if id == 9 {
        "CBOE_BYX"@
    } else if id == 10 {
        "IEX"@
    } else if id == 11 {
        "NYSE_CHICAGO"@
    } else if id == 12 {
        "NASDAQ_PSX"@
    } else {
        "UNKNOWN"@
    }
}

/// Map a feed exchange identifier to its exchange name.
pub fn exchange_id_to_name(id: i32) -> (r: &'static str)
    ensures
        r@ == spec_exchange_name(id as int),
{
    match id {
        1 => "NYSE",
        2 => "NASDAQ",
        3 => "NYSE_ARCA",
        4 => "NASDAQ_OMX_BX",
        5 => "NYSE_NATIONAL",
        6 => "CBOE_EDGX",
        7 => "CBOE_EDGA",
        8 => "CBOE_BZX",
        9 => "CBOE_BYX",
        10 => "IEX",
        11 => "NYSE_CHICAGO",
        12 => "NASDAQ_PSX",
        _ => "UNKNOWN",
    }
}

/// Reduce a feed timestamp in nanoseconds to whole milliseconds.
pub fn polygon_timestamp_to_millis(timestamp_ns: u64) -> (r: u64)
    ensures
        r == timestamp_ns / 1_000_000,
{
    timestamp_ns / 1_000_000
}

} // verus!
