use neural_bridge::PredictionInput;
use neural_bridge::PredictionResult;
use neural_bridge::errors::ValidationError;
use neural_bridge::market::AggregateData;
use neural_bridge::market::MarketData;
use neural_bridge::market::MarketDataError;
use neural_bridge::market::QuoteData;
use neural_bridge::market::TradeData;
use neural_bridge::market::validate_aggregate_data;
use neural_bridge::market::validate_market_data;
use neural_bridge::market::validate_quote_data;
use neural_bridge::market::validate_trade_data;
use neural_bridge::prediction::PredictionValidator;
use neural_bridge::values::DataValue;
use neural_bridge::values::MICROS_PER_UNIT;

fn micros(units: i64) -> DataValue {
    DataValue::Finite(units * MICROS_PER_UNIT)
}

fn good_input() -> PredictionInput {
    PredictionInput {
        symbol: "AAPL".to_string(),
        historical_data: (0..50).map(|i| micros(100 + i)).collect(),
        timestamps: (0..50).map(|i| 1_000_000 + i * 60_000).collect(),
        features: Vec::new(),
        horizon: 10,
    }
}

#[test]
fn test_validate_valid_input() {
    let input = good_input();
    assert!(PredictionValidator::validate_input(&input).is_ok());
}

#[test]
fn test_validate_invalid_input() {
    let input = PredictionInput {
        symbol: "".to_string(),
        historical_data: vec![],
        timestamps: vec![],
        features: Vec::new(),
        horizon: 10,
    };
    assert!(PredictionValidator::validate_input(&input).is_err());
}

#[test]
fn input_empty_symbol_named() {
    let mut input = good_input();
    input.symbol = String::new();
    assert_eq!(
        PredictionValidator::validate_input(&input),
        Err(ValidationError::EmptySymbol)
    );
}

#[test]
fn input_empty_history() {
    let mut input = good_input();
    input.historical_data = vec![];
    assert_eq!(
        PredictionValidator::validate_input(&input),
        Err(ValidationError::EmptyHistoricalData)
    );
}

#[test]
fn input_insufficient_history() {
    let mut input = good_input();
    input.historical_data.truncate(19);
    assert_eq!(
        PredictionValidator::validate_input(&input),
        Err(ValidationError::InsufficientHistoricalData)
    );
}

#[test]
fn input_not_a_number_point() {
    let mut input = good_input();
    input.historical_data[7] = DataValue::NotANumber;
    assert_eq!(
        PredictionValidator::validate_input(&input),
        Err(ValidationError::InvalidDataPoint)
    );
}

#[test]
fn input_infinite_point() {
    let mut input = good_input();
    input.historical_data[0] = DataValue::PositiveInfinite;
    assert_eq!(
        PredictionValidator::validate_input(&input),
        Err(ValidationError::InvalidDataPoint)
    );
}

#[test]
fn input_negative_point() {
    let mut input = good_input();
    input.historical_data[49] = micros(-1);
    assert_eq!(
        PredictionValidator::validate_input(&input),
        Err(ValidationError::InvalidDataPoint)
    );
}

#[test]
fn input_timestamp_mismatch() {
    let mut input = good_input();
    input.timestamps.pop();
    assert_eq!(
        PredictionValidator::validate_input(&input),
        Err(ValidationError::TimestampMismatch)
    );
}

#[test]
fn input_zero_horizon() {
    let mut input = good_input();
    input.horizon = 0;
    assert_eq!(
        PredictionValidator::validate_input(&input),
        Err(ValidationError::HorizonOutOfRange)
    );
}

#[test]
fn input_horizon_above_maximum() {
    let mut input = good_input();
    input.horizon = 101;
    assert_eq!(
        PredictionValidator::validate_input(&input),
        Err(ValidationError::HorizonOutOfRange)
    );
}

#[test]
fn input_horizon_at_maximum_is_accepted() {
    let mut input = good_input();
    input.horizon = 100;
    assert!(PredictionValidator::validate_input(&input).is_ok());
}

fn good_result() -> PredictionResult {
    PredictionResult {
        model_name: "TFT".to_string(),
        symbol: "AAPL".to_string(),
        prediction: (0..10).map(|i| micros(101 + i)).collect(),
        confidence: DataValue::Finite(850_000),
        timestamp: 5_000,
        horizon: 10,
        metadata: Vec::new(),
    }
}

#[test]
fn result_valid() {
    assert!(PredictionValidator::validate_result(&good_result()).is_ok());
}

#[test]
fn result_empty_prediction() {
    let mut r = good_result();
    r.prediction = vec![];
    assert_eq!(
        PredictionValidator::validate_result(&r),
        Err(ValidationError::EmptyPrediction)
    );
}

#[test]
fn result_not_a_number_value() {
    let mut r = good_result();
    r.prediction[3] = DataValue::NotANumber;
    assert_eq!(
        PredictionValidator::validate_result(&r),
        Err(ValidationError::InvalidPredictionValue)
    );
}

#[test]
fn result_confidence_above_one() {
    let mut r = good_result();
    r.confidence = DataValue::Finite(1_500_000);
    assert_eq!(
        PredictionValidator::validate_result(&r),
        Err(ValidationError::ConfidenceOutOfRange)
    );
}

#[test]
fn result_confidence_not_a_number() {
    let mut r = good_result();
    r.confidence = DataValue::NotANumber;
    assert_eq!(
        PredictionValidator::validate_result(&r),
        Err(ValidationError::ConfidenceOutOfRange)
    );
}

#[test]
fn result_horizon_mismatch() {
    let mut r = good_result();
    r.horizon = 9;
    assert_eq!(
        PredictionValidator::validate_result(&r),
        Err(ValidationError::HorizonMismatch)
    );
}

fn good_trade() -> TradeData {
    TradeData {
        symbol: "AAPL".to_string(),
        price: micros(150),
        size: 100,
        timestamp: 1_700_000_000_000,
        exchange: "NASDAQ".to_string(),
        conditions: vec![],
    }
}

#[test]
fn test_valid_trade_data() {
    let trade = good_trade();
    assert!(validate_trade_data(&trade).is_ok());
}

#[test]
fn test_invalid_trade_price() {
    let mut trade = good_trade();
    trade.price = micros(-150);
    assert!(validate_trade_data(&trade).is_err());
}

#[test]
fn trade_zero_size() {
    let mut trade = good_trade();
    trade.size = 0;
    assert_eq!(validate_trade_data(&trade), Err(MarketDataError::ZeroTradeSize));
}

#[test]
fn quote_crossed_spread() {
    let quote = QuoteData {
        symbol: "SPY".to_string(),
        bid_price: micros(101),
        ask_price: micros(100),
        bid_size: 5,
        ask_size: 5,
        timestamp: 1_700_000_000_000,
        exchange: "NYSE".to_string(),
    };
    assert_eq!(validate_quote_data(&quote), Err(MarketDataError::InvalidSpread));
}

#[test]
fn quote_valid() {
    let quote = QuoteData {
        symbol: "SPY".to_string(),
        bid_price: micros(100),
        ask_price: micros(101),
        bid_size: 5,
        ask_size: 5,
        timestamp: 1_700_000_000_000,
        exchange: "NYSE".to_string(),
    };
    assert!(validate_quote_data(&quote).is_ok());
}

fn good_aggregate() -> AggregateData {
    AggregateData {
        symbol: "QQQ".to_string(),
        open: micros(100),
        high: micros(110),
        low: micros(95),
        close: micros(105),
        volume: 10_000,
        timestamp: 1_700_000_000_000,
        timespan: "1m".to_string(),
    }
}

#[test]
fn aggregate_valid() {
    assert!(validate_aggregate_data(&good_aggregate()).is_ok());
}

#[test]
fn aggregate_high_not_highest() {
    let mut agg = good_aggregate();
    agg.high = micros(104);
    assert_eq!(
        validate_aggregate_data(&agg),
        Err(MarketDataError::HighNotHighest)
    );
}

#[test]
fn aggregate_low_not_lowest() {
    let mut agg = good_aggregate();
    agg.low = micros(101);
    assert_eq!(
        validate_aggregate_data(&agg),
        Err(MarketDataError::LowNotLowest)
    );
}

#[test]
fn quote_non_finite_price() {
    let quote = QuoteData {
        symbol: "SPY".to_string(),
        bid_price: DataValue::NotANumber,
        ask_price: micros(101),
        bid_size: 5,
        ask_size: 5,
        timestamp: 1_700_000_000_000,
        exchange: "NYSE".to_string(),
    };
    assert_eq!(validate_quote_data(&quote), Err(MarketDataError::InvalidQuotePrices));
}

#[test]
fn aggregate_non_positive_price() {
    let mut agg = good_aggregate();
    agg.close = micros(0);
    assert_eq!(validate_aggregate_data(&agg), Err(MarketDataError::InvalidOhlc));
}

#[test]
fn aggregate_high_below_low() {
    let mut agg = good_aggregate();
    agg.high = micros(96);
    agg.low = micros(97);
    agg.open = micros(96);
    agg.close = micros(96);
    assert_eq!(validate_aggregate_data(&agg), Err(MarketDataError::HighBelowLow));
}

#[test]
fn truncation_discards_fractions_and_saturates() {
    assert_eq!(DataValue::Finite(100_900_000).truncated(), 100);
    assert_eq!(DataValue::Finite(100_000_000).truncated(), 100);
    assert_eq!(DataValue::Finite(-5_000_000).truncated(), 0);
    assert_eq!(DataValue::NotANumber.truncated(), 0);
    assert_eq!(DataValue::NegativeInfinite.truncated(), 0);
    assert_eq!(DataValue::PositiveInfinite.truncated(), u64::MAX);
}

#[test]
fn confidence_bounds_are_inclusive() {
    let mut r = good_result();
    r.confidence = DataValue::Finite(0);
    assert!(PredictionValidator::validate_result(&r).is_ok());
    r.confidence = DataValue::Finite(MICROS_PER_UNIT);
    assert!(PredictionValidator::validate_result(&r).is_ok());
    r.confidence = DataValue::Finite(MICROS_PER_UNIT + 1);
    assert!(PredictionValidator::validate_result(&r).is_err());
    r.confidence = DataValue::Finite(-1);
    assert!(PredictionValidator::validate_result(&r).is_err());
}

#[test]
fn market_data_dispatch() {
    assert!(validate_market_data(&MarketData::Trade(good_trade())).is_ok());
    assert!(validate_market_data(&MarketData::Aggregate(good_aggregate())).is_ok());
    let mut bad = good_trade();
    bad.symbol = String::new();
    assert_eq!(
        validate_market_data(&MarketData::Trade(bad)),
        Err(MarketDataError::EmptySymbol)
    );
}
