//! Market-data records from the ingestion feed, their admission checks,
//! and the ingestion configuration.
//!
//! Prices are carried as [`DataValue`]s, so the checks can state exactly
//! which records they reject: empty symbols, prices that are not strictly
//! positive finite numbers, crossed quotes, and aggregates whose extremes
//! do not bound their open and close.

use vstd::prelude::*;
use crate::values::DataValue;

verus! {

/// Reason a market-data record failed admission.
#[derive(Clone, Copy, Debug, PartialEq, Eq, Structural)]
pub enum MarketDataError {
    /// The record's symbol is empty.
    EmptySymbol,
    /// A trade price is not a strictly positive finite number.
    InvalidPrice,
    /// A trade of zero size.
    ZeroTradeSize,
    /// A bid or ask price is not a strictly positive finite number.
    InvalidQuotePrices,
    /// The ask does not exceed the bid.
    InvalidSpread,
    /// An open, high, low or close is not a strictly positive finite
    /// number.
    InvalidOhlc,
    /// The high sits below the low.
    HighBelowLow,
    /// The high is not the highest of open, close and high.
    HighNotHighest,
    /// The low is not the lowest of open, close and low.
    LowNotLowest,
}

/// View of a [`TradeData`] for use in specifications.
pub ghost struct TradeDataView {
    pub symbol: Seq<char>,
    pub price: DataValue,
    pub size: u64,
    pub timestamp: u64,
    pub exchange: Seq<char>,
    pub conditions: Seq<Seq<char>>,
}

/// One trade from the feed.
#[derive(Debug)]
pub struct TradeData {
    pub symbol: String,
    pub price: DataValue,
    pub size: u64,
    /// Trade time, in milliseconds.
    pub timestamp: u64,
    pub exchange: String,
    pub conditions: Vec<String>,
}

impl DeepView for TradeData {
    type V = TradeDataView;

    open spec fn deep_view(&self) -> TradeDataView {
        TradeDataView {
            symbol: self.symbol@,
            price: self.price,
            size: self.size,
            timestamp: self.timestamp,
            exchange: self.exchange@,
            conditions: self.conditions.deep_view(),
        }
    }
}

/// View of a [`QuoteData`] for use in specifications.
pub ghost struct QuoteDataView {
    pub symbol: Seq<char>,
    pub bid_price: DataValue,
    pub ask_price: DataValue,
    pub bid_size: u64,
    pub ask_size: u64,
    pub timestamp: u64,
    pub exchange: Seq<char>,
}

/// One quote from the feed.
#[derive(Debug)]
pub struct QuoteData {
    pub symbol: String,
    pub bid_price: DataValue,
    pub ask_price: DataValue,
    pub bid_size: u64,
    pub ask_size: u64,
    /// Quote time, in milliseconds.
    pub timestamp: u64,
    pub exchange: String,
}

impl DeepView for QuoteData {
    type V = QuoteDataView;

    open spec fn deep_view(&self) -> QuoteDataView {
        QuoteDataView {
            symbol: self.symbol@,
            bid_price: self.bid_price,
            ask_price: self.ask_price,
            bid_size: self.bid_size,
            ask_size: self.ask_size,
            timestamp: self.timestamp,
            exchange: self.exchange@,
        }
    }
}

/// View of an [`AggregateData`] for use in specifications.
pub ghost struct AggregateDataView {
    pub symbol: Seq<char>,
    pub open: DataValue,
    pub high: DataValue,
    pub low: DataValue,
    pub close: DataValue,
    pub volume: u64,
    pub timestamp: u64,
    pub timespan: Seq<char>,
}

/// One aggregate bar from the feed.
#[derive(Debug)]
pub struct AggregateData {
    pub symbol: String,
    pub open: DataValue,
    pub high: DataValue,
    pub low: DataValue,
    pub close: DataValue,
    pub volume: u64,
    /// Bar start time, in milliseconds.
    pub timestamp: u64,
    pub timespan: String,
}

impl DeepView for AggregateData {
    type V = AggregateDataView;

    open spec fn deep_view(&self) -> AggregateDataView {
        AggregateDataView {
            symbol: self.symbol@,
            open: self.open,
            high: self.high,
            low: self.low,
            close: self.close,
            volume: self.volume,
            timestamp: self.timestamp,
            timespan: self.timespan@,
        }
    }
}

/// A market-data record of any of the three kinds.
#[derive(Debug)]
pub enum MarketData {
    Trade(TradeData),
    Quote(QuoteData),
    Aggregate(AggregateData),
}

/// The verdict of trade admission.
pub open spec fn spec_validate_trade(t: TradeDataView) -> Result<(), MarketDataError> {
    if t.symbol.len() == 0 {
        Err(MarketDataError::EmptySymbol)
    } else if !t.price.is_positive_price() {
        Err(MarketDataError::InvalidPrice)
    } else if t.size == 0 {
        Err(MarketDataError::ZeroTradeSize)
    } else {
        Ok(())
    }
}

/// The verdict of quote admission.
pub open spec fn spec_validate_quote(q: QuoteDataView) -> Result<(), MarketDataError> {
    if q.symbol.len() == 0 {
        Err(MarketDataError::EmptySymbol)
    } else if !q.bid_price.is_positive_price() || !q.ask_price.is_positive_price() {
        Err(MarketDataError::InvalidQuotePrices)
    } else if q.ask_price.spec_micros() <= q.bid_price.spec_micros() {
        Err(MarketDataError::InvalidSpread)
    } else {
        Ok(())
    }
}

/// The verdict of aggregate admission.
pub open spec fn spec_validate_aggregate(a: AggregateDataView) -> Result<(), MarketDataError> {
    if a.symbol.len() == 0 {
        Err(MarketDataError::EmptySymbol)
    } else if !a.open.is_positive_price() || !a.high.is_positive_price()
        || !a.low.is_positive_price() || !a.close.is_positive_price() {
        Err(MarketDataError::InvalidOhlc)
    } else if a.high.spec_micros() < a.low.spec_micros() {
        Err(MarketDataError::HighBelowLow)
    } else if a.high.spec_micros() < a.open.spec_micros() || a.high.spec_micros() < a.close.spec_micros() {
        Err(MarketDataError::HighNotHighest)
    } else if a.low.spec_micros() > a.open.spec_micros() || a.low.spec_micros() > a.close.spec_micros() {
        Err(MarketDataError::LowNotLowest)
    } else {
        Ok(())
    }
}

/// The verdict of admission for any record kind.
pub open spec fn spec_validate_market(d: MarketData) -> Result<(), MarketDataError> {
    match d {
        MarketData::Trade(t) => spec_validate_trade(t.deep_view()),
        MarketData::Quote(q) => spec_validate_quote(q.deep_view()),
        MarketData::Aggregate(a) => spec_validate_aggregate(a.deep_view()),
    }
}

/// Check one trade for admission.
pub fn validate_trade_data(trade: &TradeData) -> (r: Result<(), MarketDataError>)
    ensures
        r == spec_validate_trade(trade.deep_view()),
{
    if trade.symbol.as_str().unicode_len() == 0 {
        return Err(MarketDataError::EmptySymbol);
    }
    if trade.price.positive_micros().is_none() {
        return Err(MarketDataError::InvalidPrice);
    }
    if trade.size == 0 {
        return Err(MarketDataError::ZeroTradeSize);
    }
    Ok(())
}

/// Check one quote for admission.
pub fn validate_quote_data(quote: &QuoteData) -> (r: Result<(), MarketDataError>)
    ensures
        r == spec_validate_quote(quote.deep_view()),
{
    if quote.symbol.as_str().unicode_len() == 0 {
        return Err(MarketDataError::EmptySymbol);
    }
    let bid = quote.bid_price.positive_micros();
    let ask = quote.ask_price.positive_micros();
    match (bid, ask) {
        (Some(b), Some(a)) => {
            if a <= b {
                Err(MarketDataError::InvalidSpread)
            } else {
                Ok(())
            }
        },
        _ => Err(MarketDataError::InvalidQuotePrices),
    }
}

/// Check one aggregate bar for admission.
pub fn validate_aggregate_data(agg: &AggregateData) -> (r: Result<(), MarketDataError>)
    ensures
        r == spec_validate_aggregate(agg.deep_view()),
{
    if agg.symbol.as_str().unicode_len() == 0 {
        return Err(MarketDataError::EmptySymbol);
    }
    let open = agg.open.positive_micros();
    let high = agg.high.positive_micros();
    let low = agg.low.positive_micros();
    let close = agg.close.positive_micros();
    match (open, high, low, close) {
        (Some(o), Some(h), Some(l), Some(c)) => {
            if h < l {
                Err(MarketDataError::HighBelowLow)
            } else if h < o || h < c {
                Err(MarketDataError::HighNotHighest)
            } else if l > o || l > c {
                Err(MarketDataError::LowNotLowest)
            } else {
                Ok(())
            }
        },
        _ => Err(MarketDataError::InvalidOhlc),
    }
}

/// Check any record kind for admission.
pub fn validate_market_data(data: &MarketData) -> (r: Result<(), MarketDataError>)
    ensures
        r == spec_validate_market(*data),
{
    match data {
        MarketData::Trade(trade) => validate_trade_data(trade),
        MarketData::Quote(quote) => validate_quote_data(quote),
        MarketData::Aggregate(agg) => validate_aggregate_data(agg),
    }
}

/// Settings of the feed connection.
#[derive(Clone, Copy, Debug, PartialEq, Eq, Structural)]
pub struct WebSocketConfig {
    /// Connection timeout, in seconds.
    pub connect_timeout: u64,
    pub max_reconnect_attempts: u32,
    /// Heartbeat interval, in seconds.
    pub heartbeat_interval: u64,
    pub buffer_size: usize,
}

impl Default for WebSocketConfig {
    /// The stock feed settings.
    fn default() -> (r: Self)
        ensures
            r == (WebSocketConfig {
                connect_timeout: 30u64,
                max_reconnect_attempts: 5u32,
                heartbeat_interval: 30u64,
                buffer_size: 10000usize,
            }),
    {
        WebSocketConfig {
            connect_timeout: 30,
            max_reconnect_attempts: 5,
            heartbeat_interval: 30,
            buffer_size: 10000,
        }
    }
}

/// Settings of the record admission checks.
#[derive(Clone, Copy, Debug, PartialEq, Eq, Structural)]
pub struct ValidationConfig {
    /// Largest accepted deviation from the last known price, in micro-units
    /// of a percentage.
    pub max_price_deviation: i64,
    /// Largest accepted timestamp lag, in seconds.
    pub max_timestamp_lag: i64,
    pub strict_validation: bool,
}

impl Default for ValidationConfig {
    /// The stock admission settings: ten percent deviation, five seconds of
    /// lag, strict checks on.
    fn default() -> (r: Self)
        ensures
            r == (ValidationConfig {
                max_price_deviation: 10_000_000i64,
                max_timestamp_lag: 5i64,
                strict_validation: true,
            }),
    {
        ValidationConfig {
            max_price_deviation: 10_000_000,
            max_timestamp_lag: 5,
            strict_validation: true,
        }
    }
}

/// View of a [`DataIngestionConfig`] for use in specifications.
pub ghost struct DataIngestionConfigView {
    pub redis_url: Seq<char>,
    pub polygon_api_key: Seq<char>,
    pub websocket: WebSocketConfig,
    pub symbols: Seq<Seq<char>>,
    pub validation: ValidationConfig,
}

/// Top-level configuration of the ingestion side.
#[derive(Debug)]
pub struct DataIngestionConfig {
    pub redis_url: String,
    pub polygon_api_key: String,
    pub websocket: WebSocketConfig,
    pub symbols: Vec<String>,
    pub validation: ValidationConfig,
}

impl DeepView for DataIngestionConfig {
    type V = DataIngestionConfigView;

    open spec fn deep_view(&self) -> DataIngestionConfigView {
        DataIngestionConfigView {
            redis_url: self.redis_url@,
            polygon_api_key: self.polygon_api_key@,
            websocket: self.websocket,
            symbols: self.symbols.deep_view(),
            validation: self.validation,
        }
    }
}

impl Default for DataIngestionConfig {
    /// The stock ingestion settings: a local queue endpoint, no key, the
    /// two index symbols, and the stock feed and admission settings.
    fn default() -> (r: Self)
        ensures
            r.deep_view() == (DataIngestionConfigView {
                redis_url: "redis://localhost:6379"@,
                polygon_api_key: Seq::<char>::empty(),
                websocket: WebSocketConfig {
                    connect_timeout: 30u64,
                    max_reconnect_attempts: 5u32,
                    heartbeat_interval: 30u64,
                    buffer_size: 10000usize,
                },
                symbols: seq!["SPY"@, "QQQ"@],
                validation: ValidationConfig {
                    max_price_deviation: 10_000_000i64,
                    max_timestamp_lag: 5i64,
                    strict_validation: true,
                },
            }),
    {
        let mut symbols: Vec<String> = Vec::new();
        symbols.push("SPY".to_owned());
        symbols.push("QQQ".to_owned());
        let r = DataIngestionConfig {
            redis_url: "redis://localhost:6379".to_owned(),
            polygon_api_key: String::new(),
            websocket: WebSocketConfig::default(),
            symbols,
            validation: ValidationConfig::default(),
        };
        proof {
            assert(r.symbols.deep_view() =~= seq!["SPY"@, "QQQ"@]);
        }
        r
    }
}

} // verus!
