//! Configuration of the serving layer: per-model static settings, cache
//! capacities and time-to-live, preload list, and performance knobs.

use vstd::prelude::*;
use crate::values::{MetaValue, MetaValueView, clone_meta_vec, clone_string_vec, clone_copy_vec};

verus! {

/// Performance knobs.
#[derive(Clone, Copy, Debug, PartialEq, Eq, Structural)]
pub struct PerformanceConfig {
    /// Target inference time, in milliseconds.
    pub target_inference_ms: u64,
    pub enable_gpu: bool,
    pub worker_threads: usize,
    pub enable_compilation: bool,
}

impl DeepView for PerformanceConfig {
    type V = PerformanceConfig;

    open spec fn deep_view(&self) -> PerformanceConfig {
        *self
    }
}

/// View of a [`ModelConfig`] for use in specifications.
pub ghost struct ModelConfigView {
    pub model_type: Seq<char>,
    pub model_path: Seq<char>,
    pub accuracy: u64,
    pub optimal_horizons: Seq<usize>,
    pub required_features: Seq<Seq<char>>,
    pub parameters: Seq<(Seq<char>, MetaValueView)>,
}

/// Static configuration of one model.
#[derive(Debug)]
pub struct ModelConfig {
    pub model_type: String,
    pub model_path: String,
    /// Expected accuracy, in micro-units of a fraction.
    pub accuracy: u64,
    pub optimal_horizons: Vec<usize>,
    pub required_features: Vec<String>,
    pub parameters: Vec<(String, MetaValue)>,
}

impl DeepView for ModelConfig {
    type V = ModelConfigView;

    open spec fn deep_view(&self) -> ModelConfigView {
        ModelConfigView {
            model_type: self.model_type@,
            model_path: self.model_path@,
            accuracy: self.accuracy,
            optimal_horizons: self.optimal_horizons@,
            required_features: self.required_features.deep_view(),
            parameters: self.parameters.deep_view(),
        }
    }
}

impl Clone for ModelConfig {
    /// Cloning keeps the configuration's content.
    fn clone(&self) -> (r: Self)
        ensures
            r.deep_view() == self.deep_view(),
    {
        ModelConfig {
            model_type: self.model_type.clone(),
            model_path: self.model_path.clone(),
            accuracy: self.accuracy,
            optimal_horizons: clone_copy_vec(&self.optimal_horizons),
            required_features: clone_string_vec(&self.required_features),
            parameters: clone_meta_vec(&self.parameters),
        }
    }
}

/// View of a [`NeuralForecastConfig`] for use in specifications.
pub ghost struct NeuralForecastConfigView {
    pub model_repo_path: Seq<char>,
    pub models: Seq<(Seq<char>, ModelConfigView)>,
    pub default_horizon: usize,
    pub max_batch_size: usize,
}

/// Configuration of the forecasting backend: the model repository and the
/// models it can serve.
#[derive(Debug)]
pub struct NeuralForecastConfig {
    pub model_repo_path: String,
    pub models: Vec<(String, ModelConfig)>,
    pub default_horizon: usize,
    pub max_batch_size: usize,
}

impl DeepView for NeuralForecastConfig {
    type V = NeuralForecastConfigView;

    open spec fn deep_view(&self) -> NeuralForecastConfigView {
        NeuralForecastConfigView {
            model_repo_path: self.model_repo_path@,
            models: self.models.deep_view(),
            default_horizon: self.default_horizon,
            max_batch_size: self.max_batch_size,
        }
    }
}

/// View of a [`NeuralBridgeConfig`] for use in specifications.
pub ghost struct NeuralBridgeConfigView {
    pub python_path: Option<Seq<char>>,
    pub neuralforecast: NeuralForecastConfigView,
    pub cache_size: usize,
    pub cache_ttl_seconds: u64,
    pub max_cache_entries: usize,
    pub preload_models: Seq<Seq<char>>,
    pub performance: PerformanceConfig,
}

/// Top-level configuration of the serving layer.
#[derive(Debug)]
pub struct NeuralBridgeConfig {
    pub python_path: Option<String>,
    pub neuralforecast: NeuralForecastConfig,
    /// Model cache capacity, in entries.
    pub cache_size: usize,
    /// Prediction cache time-to-live, in seconds.
    pub cache_ttl_seconds: u64,
    /// Prediction cache capacity, in entries.
    pub max_cache_entries: usize,
    /// Models loaded ahead of serving.
    pub preload_models: Vec<String>,
    pub performance: PerformanceConfig,
}

impl DeepView for NeuralBridgeConfig {
    type V = NeuralBridgeConfigView;

    open spec fn deep_view(&self) -> NeuralBridgeConfigView {
        NeuralBridgeConfigView {
            python_path: match &self.python_path {
                Some(p) => Some(p@),
                None => None,
            },
            neuralforecast: self.neuralforecast.deep_view(),
            cache_size: self.cache_size,
            cache_ttl_seconds: self.cache_ttl_seconds,
            max_cache_entries: self.max_cache_entries,
            preload_models: self.preload_models.deep_view(),
            performance: self.performance,
        }
    }
}

/// The default configuration of the attention model.
pub open spec fn spec_default_tft() -> ModelConfigView {
    ModelConfigView {
        model_type: "TemporalFusionTransformer"@,
        model_path: "models/tft_model.pkl"@,
        accuracy: 800_000,
        optimal_horizons: seq![5usize, 10, 15, 20],
        required_features: seq!["price"@, "volume"@],
        parameters: seq![("input_size"@, MetaValueView::Int(168))],
    }
}

/// The default configuration of the short-term model.
pub open spec fn spec_default_nbeats() -> ModelConfigView {
    ModelConfigView {
        model_type: "NBEATS"@,
        model_path: "models/nbeats_model.pkl"@,
        accuracy: 735_000,
        optimal_horizons: seq![1usize, 2, 3, 4, 5],
        required_features: seq!["price"@],
        parameters: seq![("stack_types"@, MetaValueView::TextList(seq!["trend"@, "seasonality"@]))],
    }
}

/// The default configuration of the recurrent model.
pub open spec fn spec_default_lstm() -> ModelConfigView {
    ModelConfigView {
        model_type: "LSTM"@,
        model_path: "models/lstm_model.pkl"@,
        accuracy: 700_000,
        optimal_horizons: seq![10usize, 20, 30, 50],
        required_features: seq!["price"@, "volume"@],
        parameters: seq![("hidden_size"@, MetaValueView::Int(128))],
    }
}

/// The default top-level configuration: the three stock models, a model
/// cache of one thousand entries, a five-minute result time-to-live, ten
/// thousand result slots, and all three models preloaded.
pub open spec fn spec_default_config() -> NeuralBridgeConfigView {
    NeuralBridgeConfigView {
        python_path: None,
        neuralforecast: NeuralForecastConfigView {
            model_repo_path: "./models"@,
            models: seq![
                ("TFT"@, spec_default_tft()),
                ("NBEATS"@, spec_default_nbeats()),
                ("LSTM"@, spec_default_lstm()),
            ],
            default_horizon: 10,
            max_batch_size: 32,
        },
        cache_size: 1000,
        cache_ttl_seconds: 300,
        max_cache_entries: 10000,
        preload_models: seq!["TFT"@, "NBEATS"@, "LSTM"@],
        performance: PerformanceConfig {
            target_inference_ms: 10,
            enable_gpu: true,
            worker_threads: 4,
            enable_compilation: true,
        },
    }
}

fn default_tft() -> (r: ModelConfig)
    ensures
        r.deep_view() == spec_default_tft(),
{
    let mut horizons: Vec<usize> = Vec::new();
    horizons.push(5);
    horizons.push(10);
    horizons.push(15);
    horizons.push(20);
    let mut feats: Vec<String> = Vec::new();
    feats.push("price".to_owned());
    feats.push("volume".to_owned());
    let mut params: Vec<(String, MetaValue)> = Vec::new();
    params.push(("input_size".to_owned(), MetaValue::Int(168)));
    let r = ModelConfig {
        model_type: "TemporalFusionTransformer".to_owned(),
        model_path: "models/tft_model.pkl".to_owned(),
        accuracy: 800_000,
        optimal_horizons: horizons,
        required_features: feats,
        parameters: params,
    };
    proof {
        assert(r.optimal_horizons@ =~= spec_default_tft().optimal_horizons);
        assert(r.required_features.deep_view() =~= spec_default_tft().required_features);
        assert(r.parameters.deep_view() =~= spec_default_tft().parameters);
    }
    r
}

fn default_nbeats() -> (r: ModelConfig)
    ensures
        r.deep_view() == spec_default_nbeats(),
{
    let mut horizons: Vec<usize> = Vec::new();
    horizons.push(1);
    horizons.push(2);
    horizons.push(3);
    horizons.push(4);
    horizons.push(5);
    let mut feats: Vec<String> = Vec::new();
    feats.push("price".to_owned());
    let mut stacks: Vec<String> = Vec::new();
    stacks.push("trend".to_owned());
    stacks.push("seasonality".to_owned());
    proof {
        assert(stacks.deep_view() =~= seq!["trend"@, "seasonality"@]);
    }
    let mut params: Vec<(String, MetaValue)> = Vec::new();
    params.push(("stack_types".to_owned(), MetaValue::TextList(stacks)));
    let r = ModelConfig {
        model_type: "NBEATS".to_owned(),
        model_path: "models/nbeats_model.pkl".to_owned(),
        accuracy: 735_000,
        optimal_horizons: horizons,
        required_features: feats,
        parameters: params,
    };
    proof {
        assert(r.optimal_horizons@ =~= spec_default_nbeats().optimal_horizons);
        assert(r.required_features.deep_view() =~= spec_default_nbeats().required_features);
        assert(r.parameters.deep_view() =~= spec_default_nbeats().parameters);
    }
    r
}

fn default_lstm() -> (r: ModelConfig)
    ensures
        r.deep_view() == spec_default_lstm(),
{
    let mut horizons: Vec<usize> = Vec::new();
    horizons.push(10);
    horizons.push(20);
    horizons.push(30);
    horizons.push(50);
    let mut feats: Vec<String> = Vec::new();
    feats.push("price".to_owned());
    feats.push("volume".to_owned());
    let mut params: Vec<(String, MetaValue)> = Vec::new();
    params.push(("hidden_size".to_owned(), MetaValue::Int(128)));
    let r = ModelConfig {
        model_type: "LSTM".to_owned(),
        model_path: "models/lstm_model.pkl".to_owned(),
        accuracy: 700_000,
        optimal_horizons: horizons,
        required_features: feats,
        parameters: params,
    };
    proof {
        assert(r.optimal_horizons@ =~= spec_default_lstm().optimal_horizons);
        assert(r.required_features.deep_view() =~= spec_default_lstm().required_features);
        assert(r.parameters.deep_view() =~= spec_default_lstm().parameters);
    }
    r
}

impl Default for NeuralBridgeConfig {
    /// The default configuration; its content is pinned by
    /// [`spec_default_config`].
    fn default() -> (r: Self)
        ensures
            r.deep_view() == spec_default_config(),
    {
        let mut models: Vec<(String, ModelConfig)> = Vec::new();
        models.push(("TFT".to_owned(), default_tft()));
        models.push(("NBEATS".to_owned(), default_nbeats()));
        models.push(("LSTM".to_owned(), default_lstm()));
        let mut preload: Vec<String> = Vec::new();
        preload.push("TFT".to_owned());
        preload.push("NBEATS".to_owned());
        preload.push("LSTM".to_owned());
        let r = NeuralBridgeConfig {
            python_path: None,
            neuralforecast: NeuralForecastConfig {
                model_repo_path: "./models".to_owned(),
                models,
                default_horizon: 10,
                max_batch_size: 32,
            },
            cache_size: 1000,
            cache_ttl_seconds: 300,
            max_cache_entries: 10000,
            preload_models: preload,
            performance: PerformanceConfig {
                target_inference_ms: 10,
                enable_gpu: true,
                worker_threads: 4,
                enable_compilation: true,
            },
        };
        proof {
            assert(r.neuralforecast.models.deep_view() =~= spec_default_config().neuralforecast.models);
            assert(r.preload_models.deep_view() =~= spec_default_config().preload_models);
        }
        r
    }
}

} // verus!
