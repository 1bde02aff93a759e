use neural_bridge::errors::ServingError;
use neural_bridge::models::ModelPerformanceTracker;
use neural_bridge::models::ModelSelector;

const HOUR_MS: u64 = 3_600_000;
const DAY_MS: u64 = 86_400_000;

#[test]
fn running_mean_sequence() {
    let mut tracker = ModelPerformanceTracker::new();
    tracker.record_prediction("TFT", 10, true, 1_000);
    assert_eq!(tracker.get_stats("TFT").unwrap().average_inference_time_ms, 10);
    tracker.record_prediction("TFT", 20, true, 2_000);
    assert_eq!(tracker.get_stats("TFT").unwrap().average_inference_time_ms, 15);
    tracker.record_prediction("TFT", 30, true, 3_000);
    assert_eq!(tracker.get_stats("TFT").unwrap().average_inference_time_ms, 20);
}

#[test]
fn counters_and_last_used() {
    let mut tracker = ModelPerformanceTracker::new();
    tracker.record_prediction("NBEATS", 5, true, 100);
    tracker.record_prediction("NBEATS", 7, false, 200);
    tracker.record_prediction("NBEATS", 9, true, 300);
    let st = tracker.get_stats("NBEATS").unwrap();
    assert_eq!(st.total_predictions, 3);
    assert_eq!(st.successful_predictions, 2);
    assert_eq!(st.failed_predictions, 1);
    assert_eq!(st.last_used, 300);
    assert_eq!(st.model_name, "NBEATS");
    assert_eq!(st.accuracy, 0);
    assert_eq!(st.memory_usage_mb, 0);
}

#[test]
fn first_record_creates_zeroed_record() {
    let mut tracker = ModelPerformanceTracker::new();
    assert!(tracker.get_stats("LSTM").is_none());
    tracker.record_prediction("LSTM", 4, false, 500);
    let st = tracker.get_stats("LSTM").unwrap();
    assert_eq!(st.total_predictions, 1);
    assert_eq!(st.successful_predictions, 0);
    assert_eq!(st.failed_predictions, 1);
    assert_eq!(st.average_inference_time_ms, 4);
}

#[test]
fn accuracy_and_memory_updates_only_existing() {
    let mut tracker = ModelPerformanceTracker::new();
    tracker.update_accuracy("TFT", 800_000);
    tracker.update_memory_usage("TFT", 256);
    assert!(tracker.get_stats("TFT").is_none());
    tracker.record_prediction("TFT", 3, true, 10);
    tracker.update_accuracy("TFT", 800_000);
    tracker.update_memory_usage("TFT", 256);
    let st = tracker.get_stats("TFT").unwrap();
    assert_eq!(st.accuracy, 800_000);
    assert_eq!(st.memory_usage_mb, 256);
}

#[test]
fn all_stats_lists_each_model_once() {
    let mut tracker = ModelPerformanceTracker::new();
    tracker.record_prediction("TFT", 3, true, 10);
    tracker.record_prediction("LSTM", 4, true, 20);
    tracker.record_prediction("TFT", 5, true, 30);
    let all = tracker.get_all_stats();
    assert_eq!(all.len(), 2);
    assert_eq!(all[0].model_name, "TFT");
    assert_eq!(all[1].model_name, "LSTM");
}

fn make_well(selector: &mut ModelSelector, name: &str, now: u64) {
    let tracker = selector.get_performance_tracker_mut();
    for _ in 0..20 {
        tracker.record_prediction(name, 5, true, now);
    }
}

#[test]
fn cold_start_returns_band_fallback() {
    let selector = ModelSelector::new();
    let now = 10 * DAY_MS;
    assert_eq!(selector.select_model(3, "", &[], now).unwrap(), "TFT");
    assert_eq!(selector.select_model(10, "", &[], now).unwrap(), "LSTM");
    assert_eq!(selector.select_model(25, "", &[], now).unwrap(), "TFT");
}

#[test]
fn zero_horizon_is_invalid() {
    let selector = ModelSelector::new();
    let r = selector.select_model(0, "", &[], 1_000);
    assert!(matches!(r, Err(ServingError::InvalidHorizon)));
}

#[test]
fn fast_band_prefers_its_default_when_performing_well() {
    let mut selector = ModelSelector::new();
    let now = 10 * DAY_MS;
    make_well(&mut selector, "NBEATS", now);
    assert_eq!(selector.select_model(3, "", &[], now).unwrap(), "NBEATS");
    assert_eq!(selector.select_model(5, "", &[], now).unwrap(), "NBEATS");
    assert_eq!(selector.select_model(6, "", &[], now).unwrap(), "LSTM");
}

#[test]
fn mid_and_long_bands_prefer_their_defaults() {
    let mut selector = ModelSelector::new();
    let now = 10 * DAY_MS;
    make_well(&mut selector, "TFT", now);
    make_well(&mut selector, "LSTM", now);
    assert_eq!(selector.select_model(10, "", &[], now).unwrap(), "TFT");
    assert_eq!(selector.select_model(20, "", &[], now).unwrap(), "TFT");
    assert_eq!(selector.select_model(21, "", &[], now).unwrap(), "LSTM");
    assert_eq!(selector.select_model(1000, "", &[], now).unwrap(), "LSTM");
}

#[test]
fn success_rate_at_ninety_five_percent_is_not_enough() {
    let mut selector = ModelSelector::new();
    let now = 10 * DAY_MS;
    for _ in 0..19 {
        selector.performance_tracker.record_prediction("NBEATS", 5, true, now);
    }
    selector.performance_tracker.record_prediction("NBEATS", 5, false, now);
    assert_eq!(selector.select_model(3, "", &[], now).unwrap(), "TFT");
}

#[test]
fn mean_latency_at_budget_is_not_enough() {
    let mut selector = ModelSelector::new();
    let now = 10 * DAY_MS;
    for _ in 0..20 {
        selector.performance_tracker.record_prediction("NBEATS", 10, true, now);
    }
    assert_eq!(selector.select_model(3, "", &[], now).unwrap(), "TFT");
}

#[test]
fn stale_model_is_not_performing_well() {
    let mut selector = ModelSelector::new();
    let then = 10 * DAY_MS;
    make_well(&mut selector, "NBEATS", then);
    assert_eq!(selector.select_model(3, "", &[], then + DAY_MS - 1).unwrap(), "NBEATS");
    assert_eq!(selector.select_model(3, "", &[], then + DAY_MS).unwrap(), "TFT");
}

#[test]
fn tracker_read_access() {
    let mut selector = ModelSelector::new();
    make_well(&mut selector, "NBEATS", 7 * HOUR_MS);
    let tracker = selector.get_performance_tracker();
    assert_eq!(tracker.get_stats("NBEATS").unwrap().total_predictions, 20);
}
