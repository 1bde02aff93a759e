use neural_bridge::BackendReply;
use neural_bridge::BackendResponse;
use neural_bridge::NeuralBridgeManager;
use neural_bridge::PredictionInput;
use neural_bridge::cache::CachedModel;
use neural_bridge::cache::ModelMetadata;
use neural_bridge::config::NeuralBridgeConfig;
use neural_bridge::errors::ServingError;
use neural_bridge::errors::ValidationError;
use neural_bridge::values::DataValue;
use neural_bridge::values::MICROS_PER_UNIT;

fn micros(units: i64) -> DataValue {
    DataValue::Finite(units * MICROS_PER_UNIT)
}

fn input(symbol: &str, horizon: usize, points: usize) -> PredictionInput {
    PredictionInput {
        symbol: symbol.to_string(),
        historical_data: (0..points as i64).map(|i| micros(100 + i)).collect(),
        timestamps: (0..points as u64).map(|i| 1_000_000 + i * 60_000).collect(),
        features: Vec::new(),
        horizon,
    }
}

fn handle(name: &str) -> CachedModel {
    CachedModel {
        name: name.to_string(),
        model_data: vec![0u8; 1024],
        metadata: ModelMetadata {
            name: name.to_string(),
            model_type: name.to_string(),
            version: "1.0.0".to_string(),
            created_at: 1_700_000_000_000,
            trained_on: "historical_market_data".to_string(),
            features: vec!["price".to_string()],
            hyperparameters: Vec::new(),
        },
        last_accessed: 0,
        access_count: 0,
    }
}

fn good_reply(horizon: usize) -> BackendReply {
    BackendReply {
        outcome: Ok(BackendResponse {
            prediction: (0..horizon as i64).map(|i| micros(200 + i)).collect(),
            confidence: DataValue::Finite(850_000),
        }),
        elapsed_ms: 5,
    }
}

fn failing_reply(message: &str) -> BackendReply {
    BackendReply { outcome: Err(message.to_string()), elapsed_ms: 5 }
}

#[test]
fn cold_system_reports_model_not_loaded() {
    let mut manager = NeuralBridgeManager::new(NeuralBridgeConfig::default());
    let now = 1_000_000_000_000u64;
    let r = manager.predict(&input("AAPL", 10, 25), &good_reply(10), now);
    match r {
        Err(ServingError::ModelNotLoaded(name)) => assert_eq!(name, "LSTM"),
        other => panic!("expected a missing-model error, got {:?}", other),
    }
}

#[test]
fn preload_then_predict_then_cache_hit() {
    let mut manager = NeuralBridgeManager::new(NeuralBridgeConfig::default());
    let now = 1_000_000_000_000u64;
    manager.load_model("LSTM", handle("LSTM"));
    let first = manager
        .predict(&input("AAPL", 10, 25), &good_reply(10), now)
        .expect("served");
    assert_eq!(first.model_name, "LSTM");
    assert_eq!(first.symbol, "AAPL");
    assert_eq!(first.prediction.len(), 10);
    assert_eq!(first.timestamp, now);
    assert_eq!(manager.get_model_stats("LSTM").unwrap().total_predictions, 1);

    let later = now + 200_000;
    let second = manager
        .predict(&input("AAPL", 10, 25), &failing_reply("backend must not run"), later)
        .expect("cache hit");
    assert_eq!(second.model_name, first.model_name);
    assert_eq!(second.prediction, first.prediction);
    assert_eq!(second.timestamp, first.timestamp);
    assert_eq!(manager.get_model_stats("LSTM").unwrap().total_predictions, 1);
}

#[test]
fn expired_cache_entry_invokes_backend_again() {
    let mut manager = NeuralBridgeManager::new(NeuralBridgeConfig::default());
    let now = 1_000_000_000_000u64;
    manager.load_model("LSTM", handle("LSTM"));
    manager.predict(&input("AAPL", 10, 25), &good_reply(10), now).expect("served");
    let after_ttl = now + 300_000;
    let again = manager
        .predict(&input("AAPL", 10, 25), &good_reply(10), after_ttl)
        .expect("served afresh");
    assert_eq!(again.timestamp, after_ttl);
    assert_eq!(manager.get_model_stats("LSTM").unwrap().total_predictions, 2);
}

#[test]
fn rejected_input_touches_nothing() {
    let mut manager = NeuralBridgeManager::new(NeuralBridgeConfig::default());
    let r = manager.predict(&input("AAPL", 0, 25), &good_reply(10), 1_000);
    match r {
        Err(ServingError::Validation(e)) => assert_eq!(e, ValidationError::HorizonOutOfRange),
        other => panic!("expected a validation error, got {:?}", other),
    }
    assert!(manager.get_model_stats("LSTM").is_none());
}

#[test]
fn backend_failure_is_wrapped_and_recorded() {
    let mut manager = NeuralBridgeManager::new(NeuralBridgeConfig::default());
    let now = 1_000_000_000_000u64;
    manager.load_model("LSTM", handle("LSTM"));
    let r = manager.predict(&input("AAPL", 10, 25), &failing_reply("inference exploded"), now);
    match r {
        Err(ServingError::Backend(msg)) => assert_eq!(msg, "inference exploded"),
        other => panic!("expected a backend error, got {:?}", other),
    }
    let st = manager.get_model_stats("LSTM").unwrap();
    assert_eq!(st.total_predictions, 1);
    assert_eq!(st.failed_predictions, 1);
    assert_eq!(st.successful_predictions, 0);
}

#[test]
fn bad_backend_result_is_not_cached() {
    let mut manager = NeuralBridgeManager::new(NeuralBridgeConfig::default());
    let now = 1_000_000_000_000u64;
    manager.load_model("LSTM", handle("LSTM"));
    let r = manager.predict(&input("AAPL", 10, 25), &good_reply(7), now);
    match r {
        Err(ServingError::Validation(e)) => assert_eq!(e, ValidationError::HorizonMismatch),
        other => panic!("expected a validation error, got {:?}", other),
    }
    let st = manager.get_model_stats("LSTM").unwrap();
    assert_eq!(st.total_predictions, 1);
    assert_eq!(st.successful_predictions, 1);

    let again = manager
        .predict(&input("AAPL", 10, 25), &good_reply(10), now + 1)
        .expect("served afresh, not from cache");
    assert_eq!(again.prediction.len(), 10);
    assert_eq!(manager.get_model_stats("LSTM").unwrap().total_predictions, 2);
}

#[test]
fn batch_omits_failed_item_and_keeps_order() {
    let mut manager = NeuralBridgeManager::new(NeuralBridgeConfig::default());
    let now = 1_000_000_000_000u64;
    manager.load_model("LSTM", handle("LSTM"));
    let inputs = vec![
        input("ONE", 10, 25),
        input("TWO", 10, 25),
        input("", 10, 25),
        input("FOUR", 10, 25),
        input("FIVE", 10, 25),
    ];
    let replies = vec![
        good_reply(10),
        good_reply(10),
        good_reply(10),
        good_reply(10),
        good_reply(10),
    ];
    let out = manager.batch_predict(&inputs, &replies, now);
    assert_eq!(out.len(), 4);
    let symbols: Vec<&str> = out.iter().map(|r| r.symbol.as_str()).collect();
    assert_eq!(symbols, vec!["ONE", "TWO", "FOUR", "FIVE"]);
}

#[test]
fn batch_deduplicates_identical_requests_through_the_cache() {
    let mut manager = NeuralBridgeManager::new(NeuralBridgeConfig::default());
    let now = 1_000_000_000_000u64;
    manager.load_model("LSTM", handle("LSTM"));
    let inputs = vec![input("AAPL", 10, 25), input("AAPL", 10, 25)];
    let replies = vec![good_reply(10), failing_reply("second call must hit the cache")];
    let out = manager.batch_predict(&inputs, &replies, now);
    assert_eq!(out.len(), 2);
    assert_eq!(out[0].prediction, out[1].prediction);
    assert_eq!(manager.get_model_stats("LSTM").unwrap().total_predictions, 1);
}

#[test]
fn prepare_and_finish_compose_a_request() {
    let mut manager = NeuralBridgeManager::new(NeuralBridgeConfig::default());
    let now = 1_000_000_000_000u64;
    manager.load_model("LSTM", handle("LSTM"));
    let request = input("AAPL", 10, 25);
    match manager.predict_prepare(&request, now) {
        neural_bridge::PredictStep::NeedsBackend { model, cache_key, model_name } => {
            assert_eq!(model.name, "LSTM");
            assert_eq!(model_name, "LSTM");
            assert_eq!(cache_key.symbol, "AAPL");
            let served = manager
                .predict_finish(&request, &model_name, cache_key, &good_reply(10), now)
                .expect("served");
            assert_eq!(served.prediction.len(), 10);
        },
        other => panic!("expected a backend invocation, got {:?}", other),
    }
    match manager.predict_prepare(&input("AAPL", 10, 25), now + 1) {
        neural_bridge::PredictStep::Done(Ok(res)) => assert_eq!(res.timestamp, now),
        other => panic!("expected a cache hit, got {:?}", other),
    }
}

#[test]
fn model_listing_and_cache_stats() {
    let mut manager = NeuralBridgeManager::new(NeuralBridgeConfig::default());
    manager.load_model("TFT", handle("TFT"));
    manager.load_model("LSTM", handle("LSTM"));
    assert_eq!(manager.get_available_models(), vec!["TFT".to_string(), "LSTM".to_string()]);
    let stats = manager.cache_stats();
    assert_eq!(stats.total_models, 2);
    assert_eq!(stats.total_memory_bytes, 2048);
}

#[test]
fn model_handle_recency_is_touched_by_serving() {
    let mut manager = NeuralBridgeManager::new(NeuralBridgeConfig::default());
    let now = 1_000_000_000_000u64;
    manager.load_model("LSTM", handle("LSTM"));
    manager.predict(&input("AAPL", 10, 25), &good_reply(10), now).expect("served");
    match manager.predict_prepare(&input("MSFT", 10, 25), now + 5) {
        neural_bridge::PredictStep::NeedsBackend { model, .. } => {
            assert_eq!(model.last_accessed, now + 5);
            assert_eq!(model.access_count, 2);
        },
        other => panic!("expected a backend invocation, got {:?}", other),
    }
}
