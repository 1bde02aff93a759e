use neural_bridge::clock::current_time_millis;
use neural_bridge::config::NeuralBridgeConfig;
use neural_bridge::market::DataIngestionConfig;
use neural_bridge::market::ValidationConfig;
use neural_bridge::market::WebSocketConfig;
use neural_bridge::polygon::exchange_id_to_name;
use neural_bridge::polygon::polygon_timestamp_to_millis;
use neural_bridge::values::MetaValue;

#[test]
fn default_serving_config() {
    let config = NeuralBridgeConfig::default();
    assert_eq!(config.cache_size, 1000);
    assert_eq!(config.cache_ttl_seconds, 300);
    assert_eq!(config.max_cache_entries, 10000);
    assert_eq!(
        config.preload_models,
        vec!["TFT".to_string(), "NBEATS".to_string(), "LSTM".to_string()]
    );
    assert_eq!(config.performance.target_inference_ms, 10);
    assert_eq!(config.performance.worker_threads, 4);
    assert!(config.performance.enable_gpu);
    assert!(config.performance.enable_compilation);
    assert!(config.python_path.is_none());
    assert_eq!(config.neuralforecast.model_repo_path, "./models");
    assert_eq!(config.neuralforecast.default_horizon, 10);
    assert_eq!(config.neuralforecast.max_batch_size, 32);
}

#[test]
fn default_model_table() {
    let config = NeuralBridgeConfig::default();
    let models = &config.neuralforecast.models;
    assert_eq!(models.len(), 3);
    assert_eq!(models[0].0, "TFT");
    assert_eq!(models[0].1.model_type, "TemporalFusionTransformer");
    assert_eq!(models[0].1.model_path, "models/tft_model.pkl");
    assert_eq!(models[0].1.accuracy, 800_000);
    assert_eq!(models[0].1.optimal_horizons, vec![5, 10, 15, 20]);
    assert_eq!(
        models[0].1.required_features,
        vec!["price".to_string(), "volume".to_string()]
    );
    match &models[0].1.parameters[0] {
        (key, MetaValue::Int(n)) => {
            assert_eq!(key, "input_size");
            assert_eq!(*n, 168);
        },
        other => panic!("unexpected parameter {:?}", other),
    }
    assert_eq!(models[1].0, "NBEATS");
    assert_eq!(models[1].1.accuracy, 735_000);
    match &models[1].1.parameters[0] {
        (key, MetaValue::TextList(stacks)) => {
            assert_eq!(key, "stack_types");
            assert_eq!(stacks, &vec!["trend".to_string(), "seasonality".to_string()]);
        },
        other => panic!("unexpected parameter {:?}", other),
    }
    assert_eq!(models[2].0, "LSTM");
    assert_eq!(models[2].1.accuracy, 700_000);
    assert_eq!(models[2].1.optimal_horizons, vec![10, 20, 30, 50]);
}

#[test]
fn default_ingestion_config() {
    let config = DataIngestionConfig::default();
    assert_eq!(config.redis_url, "redis://localhost:6379");
    assert_eq!(config.polygon_api_key, "");
    assert_eq!(config.symbols, vec!["SPY".to_string(), "QQQ".to_string()]);
    assert_eq!(config.websocket, WebSocketConfig {
        connect_timeout: 30,
        max_reconnect_attempts: 5,
        heartbeat_interval: 30,
        buffer_size: 10000,
    });
    assert_eq!(config.validation, ValidationConfig {
        max_price_deviation: 10_000_000,
        max_timestamp_lag: 5,
        strict_validation: true,
    });
}

#[test]
fn exchange_table() {
    assert_eq!(exchange_id_to_name(1), "NYSE");
    assert_eq!(exchange_id_to_name(2), "NASDAQ");
    assert_eq!(exchange_id_to_name(10), "IEX");
    assert_eq!(exchange_id_to_name(12), "NASDAQ_PSX");
    assert_eq!(exchange_id_to_name(0), "UNKNOWN");
    assert_eq!(exchange_id_to_name(-3), "UNKNOWN");
    assert_eq!(exchange_id_to_name(99), "UNKNOWN");
}

#[test]
fn feed_timestamp_to_millis() {
    assert_eq!(polygon_timestamp_to_millis(1_700_000_000_123_456_789), 1_700_000_000_123);
    assert_eq!(polygon_timestamp_to_millis(999_999), 0);
}

#[test]
fn wall_clock_reads_a_modern_time() {
    let t1 = current_time_millis();
    let t2 = current_time_millis();
    assert!(t1 > 1_600_000_000_000);
    assert!(t2 >= t1);
}
