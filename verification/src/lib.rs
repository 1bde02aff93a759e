//! Serving cache and selection layer for a pool of named predictive models.
//!
//! The crate holds the bounded model cache, the time-boxed prediction-result
//! cache, the per-model performance tracker, the horizon-band model selector,
//! the admission checks on inputs and results, and the per-request serving
//! control flow that ties them together. The numerical model execution itself
//! is an external collaborator: the serving step takes its reply as a value
//! and is specified for every reply it may hand back.

use vstd::prelude::*;

pub mod cache;
pub mod clock;
pub mod config;
pub mod errors;
pub mod market;
pub mod models;
pub mod polygon;
pub mod prediction;
pub mod result_cache;
pub mod values;

use crate::cache::{CacheStats, CachedModel, CachedModelView, ModelCache, mc_after_insert, mc_has, mc_idx, mc_touched};
use crate::config::NeuralBridgeConfig;
use crate::config::NeuralBridgeConfigView;
use crate::errors::{ServingError, ServingErrorView};
use crate::models::{ModelSelector, ModelStats, ModelStatsView, spec_selected, tr_has, tr_idx, tr_record};
use crate::prediction::{PredictionValidator, spec_validate_input, spec_validate_result};
use crate::result_cache::{CacheKey, PredictionCache, derive_cache_key, pc_after_put, pc_lookup, spec_cache_key};
use crate::values::{DataValue, MetaValue, MetaValueView, clone_copy_vec, clone_meta_vec};

verus! {

/// View of a [`PredictionInput`] for use in specifications.
pub ghost struct PredictionInputView {
    pub symbol: Seq<char>,
    pub historical_data: Seq<DataValue>,
    pub timestamps: Seq<u64>,
    pub features: Seq<(Seq<char>, Seq<DataValue>)>,
    pub horizon: usize,
}

/// A forecast request: the symbol, its chronological history with matching
/// timestamps, named auxiliary feature series, and the number of future
/// steps asked for.
#[derive(Debug)]
pub struct PredictionInput {
    pub symbol: String,
    pub historical_data: Vec<DataValue>,
    /// One stamp per historical point, in milliseconds.
    pub timestamps: Vec<u64>,
    pub features: Vec<(String, Vec<DataValue>)>,
    pub horizon: usize,
}

impl DeepView for PredictionInput {
    type V = PredictionInputView;

    open spec fn deep_view(&self) -> PredictionInputView {
        PredictionInputView {
            symbol: self.symbol@,
            historical_data: self.historical_data@,
            timestamps: self.timestamps@,
            features: self.features.deep_view(),
            horizon: self.horizon,
        }
    }
}

impl Clone for PredictionInput {
    /// Cloning keeps the request's content.
    fn clone(&self) -> (r: Self)
        ensures
            r.deep_view() == self.deep_view(),
    {
        let mut feats: Vec<(String, Vec<DataValue>)> = Vec::new();
        let mut i: usize = 0;
        while i < self.features.len()
            invariant
                i <= self.features.len(),
                feats.deep_view().len() == i,
                forall|k: int| 0 <= k < i ==> feats.deep_view()[k] == self.features.deep_view()[k],
            decreases self.features.len() - i,
        {
            let ghost prev = feats.deep_view();
            feats.push((self.features[i].0.clone(), clone_copy_vec(&self.features[i].1)));
            proof {
                assert(feats.deep_view() =~= prev.push(self.features.deep_view()[i as int]));
            }
            i = i + 1;
        }
        proof {
            assert(feats.deep_view() =~= self.features.deep_view());
        }
        PredictionInput {
            symbol: self.symbol.clone(),
            historical_data: clone_copy_vec(&self.historical_data),
            timestamps: clone_copy_vec(&self.timestamps),
            features: feats,
            horizon: self.horizon,
        }
    }
}

/// View of a [`PredictionResult`] for use in specifications.
pub ghost struct PredictionResultView {
    pub model_name: Seq<char>,
    pub symbol: Seq<char>,
    pub prediction: Seq<DataValue>,
    pub confidence: DataValue,
    pub timestamp: u64,
    pub horizon: usize,
    pub metadata: Seq<(Seq<char>, MetaValueView)>,
}

/// A forecast: the answering model, the symbol, one value per future step,
/// the backend-supplied confidence, the generation time, and free-form
/// metadata.
#[derive(Debug)]
pub struct PredictionResult {
    pub model_name: String,
    pub symbol: String,
    pub prediction: Vec<DataValue>,
    /// Backend-supplied confidence; valid results keep it between zero and
    /// one (in micro-units).
    pub confidence: DataValue,
    /// Generation time, in milliseconds.
    pub timestamp: u64,
    pub horizon: usize,
    pub metadata: Vec<(String, MetaValue)>,
}

impl DeepView for PredictionResult {
    type V = PredictionResultView;

    open spec fn deep_view(&self) -> PredictionResultView {
        PredictionResultView {
            model_name: self.model_name@,
            symbol: self.symbol@,
            prediction: self.prediction@,
            confidence: self.confidence,
            timestamp: self.timestamp,
            horizon: self.horizon,
            metadata: self.metadata.deep_view(),
        }
    }
}

impl Clone for PredictionResult {
    /// Cloning keeps the forecast's content.
    fn clone(&self) -> (r: Self)
        ensures
            r.deep_view() == self.deep_view(),
    {
        PredictionResult {
            model_name: self.model_name.clone(),
            symbol: self.symbol.clone(),
            prediction: clone_copy_vec(&self.prediction),
            confidence: self.confidence,
            timestamp: self.timestamp,
            horizon: self.horizon,
            metadata: clone_meta_vec(&self.metadata),
        }
    }
}

/// View of a [`BackendResponse`] for use in specifications.
pub ghost struct BackendResponseView {
    pub prediction: Seq<DataValue>,
    pub confidence: DataValue,
}

/// What a successful backend inference hands back: one value per future
/// step and an opaque confidence.
#[derive(Debug)]
pub struct BackendResponse {
    pub prediction: Vec<DataValue>,
    pub confidence: DataValue,
}

impl DeepView for BackendResponse {
    type V = BackendResponseView;

    open spec fn deep_view(&self) -> BackendResponseView {
        BackendResponseView { prediction: self.prediction@, confidence: self.confidence }
    }
}

/// View of a [`BackendReply`] for use in specifications.
pub ghost struct BackendReplyView {
    pub outcome: Result<BackendResponseView, Seq<char>>,
    pub elapsed_ms: u64,
}

/// The observed outcome of one backend invocation: its response or its
/// failure message, and the elapsed time the caller measured around it.
#[derive(Debug)]
pub struct BackendReply {
    pub outcome: Result<BackendResponse, String>,
    pub elapsed_ms: u64,
}

impl DeepView for BackendReply {
    type V = BackendReplyView;

    open spec fn deep_view(&self) -> BackendReplyView {
        BackendReplyView {
            outcome: match &self.outcome {
                Ok(resp) => Ok(resp.deep_view()),
                Err(msg) => Err(msg@),
            },
            elapsed_ms: self.elapsed_ms,
        }
    }
}

/// View of a served outcome for use in specifications.
pub open spec fn serving_outcome_view(r: Result<PredictionResult, ServingError>) -> Result<PredictionResultView, ServingErrorView> {
    match r {
        Ok(res) => Ok(res.deep_view()),
        Err(e) => Err(e.deep_view()),
    }
}

/// View of a [`PredictStep`] for use in specifications.
pub ghost enum PrepareOutcomeView {
    Done(Result<PredictionResultView, ServingErrorView>),
    NeedsBackend { model: CachedModelView, key: (Seq<char>, u64), name: Seq<char> },
}

/// What the pre-backend part of a request decided: either the request is
/// already answered (from the cache or with an error), or the backend must
/// be invoked with the given resident model.
#[derive(Debug)]
pub enum PredictStep {
    Done(Result<PredictionResult, ServingError>),
    NeedsBackend { model: CachedModel, cache_key: CacheKey, model_name: String },
}

impl DeepView for PredictStep {
    type V = PrepareOutcomeView;

    open spec fn deep_view(&self) -> PrepareOutcomeView {
        match self {
            PredictStep::Done(r) => PrepareOutcomeView::Done(serving_outcome_view(*r)),
            PredictStep::NeedsBackend { model, cache_key, model_name } => PrepareOutcomeView::NeedsBackend {
                model: model.deep_view(),
                key: cache_key.deep_view(),
                name: model_name@,
            },
        }
    }
}

/// The result a successful backend response is folded into: the selected
/// model's name, the request's symbol and horizon, the backend's forecast
/// and confidence, the serving time as the generation stamp, and two
/// metadata entries recording the input length and the model type.
pub open spec fn spec_result_built(
    input: PredictionInputView,
    name: Seq<char>,
    resp: BackendResponseView,
    now: u64,
) -> PredictionResultView {
    PredictionResultView {
        model_name: name,
        symbol: input.symbol,
        prediction: resp.prediction,
        confidence: resp.confidence,
        timestamp: now,
        horizon: input.horizon,
        metadata: seq![
            ("input_length"@, MetaValueView::Int(input.historical_data.len() as u64)),
            ("model_type"@, MetaValueView::Text(name)),
        ],
    }
}

/// The pre-backend part of one request: admission, cache lookup, model
/// selection, and the residency check with its recency touch. Yields the
/// model cache contents after the step and what was decided.
pub open spec fn spec_prepare(
    models: Seq<(Seq<char>, CachedModelView)>,
    results: Seq<((Seq<char>, u64), PredictionResultView)>,
    tracker: Seq<ModelStatsView>,
    ttl: u64,
    input: PredictionInputView,
    now: u64,
) -> (Seq<(Seq<char>, CachedModelView)>, PrepareOutcomeView) {
    let key = spec_cache_key(input.symbol, input.horizon as u64, input.historical_data);
    match spec_validate_input(input) {
        Result::Err(e) => (models, PrepareOutcomeView::Done(Err(ServingErrorView::Validation(e)))),
        Result::Ok(_) => match pc_lookup(results, key, ttl, now) {
            Option::Some(rv) => (models, PrepareOutcomeView::Done(Ok(rv))),
            Option::None => {
                let name = spec_selected(tracker, input.horizon as int, now);
                if !mc_has(models, name) {
                    (models, PrepareOutcomeView::Done(Err(ServingErrorView::ModelNotLoaded(name))))
                } else {
                    let touched = mc_touched(models, mc_idx(models, name), now);
                    (touched, PrepareOutcomeView::NeedsBackend {
                        model: touched[mc_idx(models, name)].1,
                        key,
                        name,
                    })
                }
            },
        },
    }
}

/// The post-backend part of one request: the tracker records the outcome
/// whatever it was; a response is folded into a result, admitted, cached
/// and returned; a failure is wrapped and returned. Yields the result
/// cache contents, the tracker contents, and the served outcome.
pub open spec fn spec_finish(
    results: Seq<((Seq<char>, u64), PredictionResultView)>,
    tracker: Seq<ModelStatsView>,
    pc_cap: nat,
    input: PredictionInputView,
    name: Seq<char>,
    key: (Seq<char>, u64),
    reply: BackendReplyView,
    now: u64,
) -> (
    Seq<((Seq<char>, u64), PredictionResultView)>,
    Seq<ModelStatsView>,
    Result<PredictionResultView, ServingErrorView>,
) {
    match reply.outcome {
        Result::Err(msg) => (
            results,
            tr_record(tracker, name, reply.elapsed_ms, false, now),
            Err(ServingErrorView::Backend(msg)),
        ),
        Result::Ok(resp) => {
            let tracker1 = tr_record(tracker, name, reply.elapsed_ms, true, now);
            let built = spec_result_built(input, name, resp, now);
            match spec_validate_result(built) {
                Result::Err(e) => (results, tracker1, Err(ServingErrorView::Validation(e))),
                Result::Ok(_) => (pc_after_put(results, pc_cap, key, built), tracker1, Ok(built)),
            }
        },
    }
}

/// One whole request: the pre-backend part, then — only when the backend
/// was needed — the post-backend part with the given reply. Yields the
/// model cache, result cache and tracker contents and the served outcome.
pub open spec fn spec_predict_step(
    models: Seq<(Seq<char>, CachedModelView)>,
    results: Seq<((Seq<char>, u64), PredictionResultView)>,
    tracker: Seq<ModelStatsView>,
    pc_cap: nat,
    ttl: u64,
    input: PredictionInputView,
    reply: BackendReplyView,
    now: u64,
) -> (
    Seq<(Seq<char>, CachedModelView)>,
    Seq<((Seq<char>, u64), PredictionResultView)>,
    Seq<ModelStatsView>,
    Result<PredictionResultView, ServingErrorView>,
) {
    let prep = spec_prepare(models, results, tracker, ttl, input, now);
    match prep.1 {
        PrepareOutcomeView::Done(r) => (prep.0, results, tracker, r),
        PrepareOutcomeView::NeedsBackend { model: _, key, name } => {
            let fin = spec_finish(results, tracker, pc_cap, input, name, key, reply, now);
            (prep.0, fin.0, fin.1, fin.2)
        },
    }
}

/// The serving orchestrator: the bounded model cache, the time-boxed
/// result cache, and the tracker-guided selector, driven through the fixed
/// per-request control flow. The backend itself is external; its reply
/// enters as a value.
pub struct NeuralBridgeManager {
    config: NeuralBridgeConfig,
    model_cache: ModelCache,
    prediction_cache: PredictionCache,
    selector: ModelSelector,
}

impl NeuralBridgeManager {
    /// Contents of the model cache.
    pub closed spec fn models_view(&self) -> Seq<(Seq<char>, CachedModelView)> {
        self.model_cache@
    }

    /// Contents of the prediction-result cache.
    pub closed spec fn results_view(&self) -> Seq<((Seq<char>, u64), PredictionResultView)> {
        self.prediction_cache@
    }

    /// Contents of the performance tracker.
    pub closed spec fn tracker_view(&self) -> Seq<ModelStatsView> {
        self.selector@
    }

    /// Model cache capacity.
    pub closed spec fn model_capacity(&self) -> nat {
        self.model_cache.capacity()
    }

    /// Result cache capacity.
    pub closed spec fn result_capacity(&self) -> nat {
        self.prediction_cache.capacity()
    }

    /// Result time-to-live, in seconds.
    pub closed spec fn ttl_seconds(&self) -> u64 {
        self.prediction_cache.ttl()
    }

    /// The configuration the orchestrator was built with.
    pub closed spec fn config_view(&self) -> NeuralBridgeConfigView {
        self.config.deep_view()
    }

    /// Well-formed orchestrator: each component is well-formed.
    pub closed spec fn wf(&self) -> bool {
        &&& self.model_cache.wf()
        &&& self.prediction_cache.wf()
        &&& self.selector.wf()
    }

    /// The fixed capacities and configuration a step leaves untouched.
    pub open spec fn same_shape(&self, other: &Self) -> bool {
        &&& self.model_capacity() == other.model_capacity()
        &&& self.result_capacity() == other.result_capacity()
        &&& self.ttl_seconds() == other.ttl_seconds()
        &&& self.config_view() == other.config_view()
    }

    /// Build an orchestrator from its configuration, with empty caches and
    /// an empty tracker.
    pub fn new(config: NeuralBridgeConfig) -> (r: Self)
        ensures
            r.wf(),
            r.models_view().len() == 0,
            r.results_view().len() == 0,
            r.tracker_view().len() == 0,
            r.model_capacity() == config.cache_size,
            r.result_capacity() == config.max_cache_entries,
            r.ttl_seconds() == config.cache_ttl_seconds,
            r.config_view() == config.deep_view(),
    {
        let model_cache = ModelCache::new(config.cache_size);
        let prediction_cache = PredictionCache::new(config.max_cache_entries, config.cache_ttl_seconds);
        let selector = ModelSelector::new();
        NeuralBridgeManager { config, model_cache, prediction_cache, selector }
    }

    /// Install an already-loaded model under `model_name` — preloading is
    /// an out-of-band operation; a request never loads a model. A full
    /// cache silently evicts its oldest-accessed entry first.
    pub fn load_model(&mut self, model_name: &str, model: CachedModel)
        requires
            old(self).wf(),
        ensures
            final(self).wf(),
            final(self).same_shape(old(self)),
            final(self).models_view() == mc_after_insert(
                old(self).models_view(),
                old(self).model_capacity(),
                model_name@,
                model.deep_view(),
            ),
            final(self).results_view() == old(self).results_view(),
            final(self).tracker_view() == old(self).tracker_view(),
    {
        self.model_cache.insert(model_name.to_owned(), model);
    }

    /// Names of the resident models, in storage order.
    pub fn get_available_models(&self) -> (r: Vec<String>)
        ensures
            r.deep_view().len() == self.models_view().len(),
            forall|k: int| 0 <= k < self.models_view().len() ==> r.deep_view()[k] == self.models_view()[k].0,
    {
        self.model_cache.list_models()
    }

    /// Aggregate statistics of the model cache: the resident count, the
    /// total serialized bytes, and the total accesses (sums saturating).
    pub fn cache_stats(&self) -> (r: CacheStats)
        ensures
            r.total_models == self.models_view().len(),
            r.total_memory_bytes == crate::cache::sat_usize(
                crate::cache::spec_mem_total(self.models_view(), self.models_view().len() as int),
            ),
            r.total_accesses == crate::cache::sat_u64(
                crate::cache::spec_access_total(self.models_view(), self.models_view().len() as int),
            ),
    {
        self.model_cache.stats()
    }

    /// The tracker's record for `model_name`, if any.
    pub fn get_model_stats(&self, model_name: &str) -> (r: Option<&ModelStats>)
        requires
            self.wf(),
        ensures
            match r {
                Some(st) => tr_has(self.tracker_view(), model_name@)
                    && st.deep_view() == self.tracker_view()[tr_idx(self.tracker_view(), model_name@)],
                None => !tr_has(self.tracker_view(), model_name@),
            },
    {
        self.selector.performance_tracker.get_stats(model_name)
    }

    /// Read access to the selector (and through it the tracker).
    pub fn get_selector(&self) -> (r: &ModelSelector)
        ensures
            r@ == self.tracker_view(),
    {
        &self.selector
    }

    /// Record one prediction outcome for `model_name` in the tracker.
    pub fn record_outcome(&mut self, model_name: &str, latency_ms: u64, success: bool, now_ms: u64)
        requires
            old(self).wf(),
        ensures
            final(self).wf(),
            final(self).same_shape(old(self)),
            final(self).models_view() == old(self).models_view(),
            final(self).results_view() == old(self).results_view(),
            final(self).tracker_view() == tr_record(old(self).tracker_view(), model_name@, latency_ms, success, now_ms),
    {
        self.selector.performance_tracker.record_prediction(model_name, latency_ms, success, now_ms);
    }

    /// Select the model to answer `input`, consulting the tracker (the
    /// input's validity is not assumed here; a zero horizon is the one
    /// error).
    pub fn select_best_model(&self, input: &PredictionInput, now_ms: u64) -> (r: Result<String, ServingError>)
        requires
            self.wf(),
        ensures
            match r {
                Ok(name) => input.horizon >= 1
                    && name@ == spec_selected(self.tracker_view(), input.horizon as int, now_ms),
                Err(e) => input.horizon == 0 && e is InvalidHorizon,
            },
    {
        self.selector.select_model(input.horizon, "", &[], now_ms)
    }

    /// Derive the cache key identifying `input` (see
    /// [`crate::result_cache::derive_cache_key`]).
    pub fn generate_cache_key(&self, input: &PredictionInput) -> (k: CacheKey)
        ensures
            k.deep_view() == spec_cache_key(input.symbol@, input.horizon as u64, input.historical_data@),
    {
        derive_cache_key(input.symbol.as_str(), input.horizon, &input.historical_data)
    }

    /// What the result cache holds for `cache_key` at `now_ms`, if fresh.
    pub fn get_cached_prediction(&self, cache_key: &CacheKey, now_ms: u64) -> (r: Option<PredictionResult>)
        requires
            self.wf(),
        ensures
            r.deep_view() == pc_lookup(self.results_view(), cache_key.deep_view(), self.ttl_seconds(), now_ms),
    {
        self.prediction_cache.get(cache_key, now_ms)
    }

    /// Store a served result under its key; a full cache silently evicts
    /// the entry with the oldest generation stamp first.
    pub fn cache_prediction(&mut self, cache_key: CacheKey, result: PredictionResult)
        requires
            old(self).wf(),
        ensures
            final(self).wf(),
            final(self).same_shape(old(self)),
            final(self).models_view() == old(self).models_view(),
            final(self).tracker_view() == old(self).tracker_view(),
            final(self).results_view() == pc_after_put(
                old(self).results_view(),
                old(self).result_capacity(),
                cache_key.deep_view(),
                result.deep_view(),
            ),
    {
        self.prediction_cache.put(cache_key, result);
    }

    /// The pre-backend part of one request: admit the input (a rejected
    /// input touches nothing), answer from the result cache when a fresh
    /// entry exists, otherwise select a model and hand out its resident
    /// handle — or fail when it was never preloaded. Only a residency hit
    /// changes state, by its recency touch.
    pub fn predict_prepare(&mut self, input: &PredictionInput, now_ms: u64) -> (r: PredictStep)
        requires
            old(self).wf(),
        ensures
            final(self).wf(),
            final(self).same_shape(old(self)),
            final(self).results_view() == old(self).results_view(),
            final(self).tracker_view() == old(self).tracker_view(),
            ({
                let prep = spec_prepare(
                    old(self).models_view(),
                    old(self).results_view(),
                    old(self).tracker_view(),
                    old(self).ttl_seconds(),
                    input.deep_view(),
                    now_ms,
                );
                final(self).models_view() == prep.0 && r.deep_view() == prep.1
            }),
    {
        match PredictionValidator::validate_input(input) {
            Err(e) => PredictStep::Done(Err(ServingError::Validation(e))),
            Ok(_) => {
                let key = self.generate_cache_key(input);
                match self.get_cached_prediction(&key, now_ms) {
                    Some(res) => PredictStep::Done(Ok(res)),
                    None => match self.select_best_model(input, now_ms) {
                        Err(e) => {
                            proof {
                                assert(input.deep_view().horizon >= 1);
                                assert(false);
                            }
                            PredictStep::Done(Err(e))
                        },
                        Ok(name) => match self.model_cache.get(name.as_str(), now_ms) {
                            None => PredictStep::Done(Err(ServingError::ModelNotLoaded(name))),
                            Some(model) => PredictStep::NeedsBackend {
                                model,
                                cache_key: key,
                                model_name: name,
                            },
                        },
                    },
                }
            },
        }
    }

    /// The post-backend part of one request: record the outcome in the
    /// tracker whatever it was, then fold a response into a result, admit
    /// it, cache it and return it — or surface the failure. A result that
    /// fails admission is not cached.
    pub fn predict_finish(
        &mut self,
        input: &PredictionInput,
        model_name: &str,
        cache_key: CacheKey,
        reply: &BackendReply,
        now_ms: u64,
    ) -> (r: Result<PredictionResult, ServingError>)
        requires
            old(self).wf(),
        ensures
            final(self).wf(),
            final(self).same_shape(old(self)),
            final(self).models_view() == old(self).models_view(),
            ({
                let fin = spec_finish(
                    old(self).results_view(),
                    old(self).tracker_view(),
                    old(self).result_capacity(),
                    input.deep_view(),
                    model_name@,
                    cache_key.deep_view(),
                    reply.deep_view(),
                    now_ms,
                );
                final(self).results_view() == fin.0
                    && final(self).tracker_view() == fin.1
                    && serving_outcome_view(r) == fin.2
            }),
    {
        match &reply.outcome {
            Err(msg) => {
                self.record_outcome(model_name, reply.elapsed_ms, false, now_ms);
                Err(ServingError::Backend(msg.clone()))
            },
            Ok(resp) => {
                self.record_outcome(model_name, reply.elapsed_ms, true, now_ms);
                let mut metadata: Vec<(String, MetaValue)> = Vec::new();
                metadata.push(("input_length".to_owned(), MetaValue::Int(input.historical_data.len() as u64)));
                metadata.push(("model_type".to_owned(), MetaValue::Text(model_name.to_owned())));
                let result = PredictionResult {
                    model_name: model_name.to_owned(),
                    symbol: input.symbol.clone(),
                    prediction: clone_copy_vec(&resp.prediction),
                    confidence: resp.confidence,
                    timestamp: now_ms,
                    horizon: input.horizon,
                    metadata,
                };
                proof {
                    assert(result.deep_view().metadata =~= spec_result_built(
                        input.deep_view(),
                        model_name@,
                        resp.deep_view(),
                        now_ms,
                    ).metadata);
                    assert(result.deep_view() == spec_result_built(
                        input.deep_view(),
                        model_name@,
                        resp.deep_view(),
                        now_ms,
                    ));
                }
                match PredictionValidator::validate_result(&result) {
                    Err(e) => Err(ServingError::Validation(e)),
                    Ok(_) => {
                        let stored = result.clone();
                        self.cache_prediction(cache_key, stored);
                        Ok(result)
                    },
                }
            },
        }
    }

    /// One whole request against a backend reply supplied as a value: the
    /// pre-backend part; then, only when the backend was needed, the
    /// post-backend part. A cache hit returns the stored result with no
    /// tracker update and no use of the reply.
    pub fn predict(&mut self, input: &PredictionInput, reply: &BackendReply, now_ms: u64) -> (r: Result<PredictionResult, ServingError>)
        requires
            old(self).wf(),
        ensures
            final(self).wf(),
            final(self).same_shape(old(self)),
            ({
                let st = spec_predict_step(
                    old(self).models_view(),
                    old(self).results_view(),
                    old(self).tracker_view(),
                    old(self).result_capacity(),
                    old(self).ttl_seconds(),
                    input.deep_view(),
                    reply.deep_view(),
                    now_ms,
                );
                final(self).models_view() == st.0
                    && final(self).results_view() == st.1
                    && final(self).tracker_view() == st.2
                    && serving_outcome_view(r) == st.3
            }),
    {
        match self.predict_prepare(input, now_ms) {
            PredictStep::Done(r) => r,
            PredictStep::NeedsBackend { model: _, cache_key, model_name } => {
                self.predict_finish(input, model_name.as_str(), cache_key, reply, now_ms)
            },
        }
    }

    /// An ordered batch: each input goes through one whole request against
    /// its own backend reply, in order; a failed item is omitted from the
    /// output and the batch never aborts as a whole. The output keeps the
    /// relative order of the items that succeeded.
    pub fn batch_predict(&mut self, inputs: &Vec<PredictionInput>, replies: &Vec<BackendReply>, now_ms: u64) -> (r: Vec<PredictionResult>)
        requires
            old(self).wf(),
            replies@.len() == inputs@.len(),
        ensures
            final(self).wf(),
            final(self).same_shape(old(self)),
            ({
                let b = spec_batch(
                    old(self).models_view(),
                    old(self).results_view(),
                    old(self).tracker_view(),
                    old(self).result_capacity(),
                    old(self).ttl_seconds(),
                    inputs.deep_view(),
                    replies.deep_view(),
                    now_ms,
                );
                final(self).models_view() == b.0
                    && final(self).results_view() == b.1
                    && final(self).tracker_view() == b.2
                    && r.deep_view() == b.3
            }),
    {
        let ghost ivs = inputs.deep_view();
        let ghost rvs = replies.deep_view();
        let ghost pc_cap = self.result_capacity();
        let ghost ttl = self.ttl_seconds();
        let ghost b = spec_batch(
            self.models_view(),
            self.results_view(),
            self.tracker_view(),
            pc_cap,
            ttl,
            ivs,
            rvs,
            now_ms,
        );
        proof {
            assert(ivs.skip(0) =~= ivs);
            assert(rvs.skip(0) =~= rvs);
        }
        let n = inputs.len();
        let mut out: Vec<PredictionResult> = Vec::new();
        let mut i: usize = 0;
        while i < n
            invariant
                n == ivs.len(),
                n == rvs.len(),
                ivs == inputs.deep_view(),
                rvs == replies.deep_view(),
                i <= n,
                self.wf(),
                self.same_shape(old(self)),
                pc_cap == self.result_capacity(),
                ttl == self.ttl_seconds(),
                b == spec_batch(
                    old(self).models_view(),
                    old(self).results_view(),
                    old(self).tracker_view(),
                    pc_cap,
                    ttl,
                    ivs,
                    rvs,
                    now_ms,
                ),
                ({
                    let rem = spec_batch(
                        self.models_view(),
                        self.results_view(),
                        self.tracker_view(),
                        pc_cap,
                        ttl,
                        ivs.skip(i as int),
                        rvs.skip(i as int),
                        now_ms,
                    );
                    b.0 == rem.0 && b.1 == rem.1 && b.2 == rem.2
                        && b.3 == out.deep_view() + rem.3
                }),
            decreases n - i,
        {
            let ghost pre_models = self.models_view();
            let ghost pre_results = self.results_view();
            let ghost pre_tracker = self.tracker_view();
            let ghost pre_out = out.deep_view();
            proof {
                assert(ivs.skip(i as int)[0] == ivs[i as int]);
                assert(rvs.skip(i as int)[0] == rvs[i as int]);
                assert(ivs.skip(i as int).drop_first() =~= ivs.skip(i as int + 1));
                assert(rvs.skip(i as int).drop_first() =~= rvs.skip(i as int + 1));
            }
            let served = self.predict(&inputs[i], &replies[i], now_ms);
            match served {
                Ok(p) => {
                    out.push(p);
                    proof {
                        assert(out.deep_view() =~= pre_out.push(p.deep_view()));
                        let st = spec_predict_step(
                            pre_models, pre_results, pre_tracker, pc_cap, ttl,
                            ivs[i as int], rvs[i as int], now_ms,
                        );
                        let rem1 = spec_batch(
                            self.models_view(), self.results_view(), self.tracker_view(),
                            pc_cap, ttl, ivs.skip(i as int + 1), rvs.skip(i as int + 1), now_ms,
                        );
                        assert(b.3 == pre_out + (seq![p.deep_view()] + rem1.3));
                        assert(pre_out + (seq![p.deep_view()] + rem1.3)
                            =~= out.deep_view() + rem1.3);
                    }
                },
                Err(_) => (),
            }
            i = i + 1;
        }
        proof {
            assert(ivs.skip(n as int) =~= Seq::<PredictionInputView>::empty());
            assert(rvs.skip(n as int) =~= Seq::<BackendReplyView>::empty());
            assert(b.3 =~= out.deep_view());
        }
        out
    }
}

/// The fold of a batch: the first input's whole request transforms the
/// state, and the rest of the batch runs from there; the outputs of the
/// successful items are kept in order.
pub open spec fn spec_batch(
    models: Seq<(Seq<char>, CachedModelView)>,
    results: Seq<((Seq<char>, u64), PredictionResultView)>,
    tracker: Seq<ModelStatsView>,
    pc_cap: nat,
    ttl: u64,
    inputs: Seq<PredictionInputView>,
    replies: Seq<BackendReplyView>,
    now: u64,
) -> (
    Seq<(Seq<char>, CachedModelView)>,
    Seq<((Seq<char>, u64), PredictionResultView)>,
    Seq<ModelStatsView>,
    Seq<PredictionResultView>,
)
    decreases inputs.len(),
{
    if inputs.len() == 0 {
        (models, results, tracker, Seq::empty())
    } else {
        let st = spec_predict_step(models, results, tracker, pc_cap, ttl, inputs[0], replies[0], now);
        let rest = spec_batch(st.0, st.1, st.2, pc_cap, ttl, inputs.drop_first(), replies.drop_first(), now);
        (
            rest.0,
            rest.1,
            rest.2,
            match st.3 {
                Result::Ok(rv) => seq![rv] + rest.3,
                Result::Err(_) => rest.3,
            },
        )
    }
}

/// A batch hands back at most one result per input: a failed item is
/// omitted and never replaced.
pub proof fn lemma_batch_output_bounded(
    models: Seq<(Seq<char>, CachedModelView)>,
    results: Seq<((Seq<char>, u64), PredictionResultView)>,
    tracker: Seq<ModelStatsView>,
    pc_cap: nat,
    ttl: u64,
    inputs: Seq<PredictionInputView>,
    replies: Seq<BackendReplyView>,
    now: u64,
)
    ensures
        spec_batch(models, results, tracker, pc_cap, ttl, inputs, replies, now).3.len() <= inputs.len(),
    decreases inputs.len(),
{
    if inputs.len() > 0 {
        let st = spec_predict_step(models, results, tracker, pc_cap, ttl, inputs[0], replies[0], now);
        lemma_batch_output_bounded(
            st.0, st.1, st.2, pc_cap, ttl, inputs.drop_first(), replies.drop_first(), now,
        );
    }
}

/// All entries of the result store stay admitted across a put of an
/// admitted result.
pub proof fn lemma_put_preserves_admission(
    s: Seq<((Seq<char>, u64), PredictionResultView)>,
    cap: nat,
    key: (Seq<char>, u64),
    r: PredictionResultView,
)
    requires
        forall|i: int| 0 <= i < s.len() ==> spec_validate_result((#[trigger] s[i]).1) is Ok,
        spec_validate_result(r) is Ok,
    ensures
        ({
            let t = pc_after_put(s, cap, key, r);
            forall|i: int| 0 <= i < t.len() ==> spec_validate_result((#[trigger] t[i]).1) is Ok
        }),
{
    let s1 = if s.len() >= cap && s.len() > 0 {
        s.remove(crate::result_cache::oldest_stamp_idx(s))
    } else {
        s
    };
    let v = crate::result_cache::oldest_stamp_idx(s);
    if s.len() > 0 {
        crate::result_cache::lemma_oldest_stamp_exists(s);
        assert(crate::result_cache::oldest_stamp_first(s, v));
    }
    assert forall|i: int| 0 <= i < s1.len() implies spec_validate_result((#[trigger] s1[i]).1) is Ok by {
        if s.len() >= cap && s.len() > 0 {
            if i < v {
                assert(s1[i] == s[i]);
            } else {
                assert(s1[i] == s[i + 1]);
            }
        }
    }
    let t = pc_after_put(s, cap, key, r);
    assert forall|i: int| 0 <= i < t.len() implies spec_validate_result((#[trigger] t[i]).1) is Ok by {
        if crate::result_cache::pc_has(s1, key) {
            let w = crate::result_cache::pc_idx(s1, key);
            if i != w {
                assert(t[i] == s1[i]);
            }
        } else {
            if i < s1.len() {
                assert(t[i] == s1[i]);
            }
        }
    }
}

/// The result invariants hold of everything the serving step hands out:
/// provided the result store holds only admitted results, a served `Ok`
/// outcome is an admitted result — its forecast length equals its horizon
/// and its confidence lies between zero and one — and the store after the
/// step again holds only admitted results.
pub proof fn lemma_served_results_are_admitted(
    models: Seq<(Seq<char>, CachedModelView)>,
    results: Seq<((Seq<char>, u64), PredictionResultView)>,
    tracker: Seq<ModelStatsView>,
    pc_cap: nat,
    ttl: u64,
    input: PredictionInputView,
    reply: BackendReplyView,
    now: u64,
)
    requires
        forall|i: int| 0 <= i < results.len() ==> spec_validate_result((#[trigger] results[i]).1) is Ok,
    ensures
        ({
            let st = spec_predict_step(models, results, tracker, pc_cap, ttl, input, reply, now);
            &&& (st.3 is Ok ==> spec_validate_result(st.3->Ok_0) is Ok)
            &&& (st.3 is Ok ==> st.3->Ok_0.prediction.len() == st.3->Ok_0.horizon)
            &&& (st.3 is Ok ==> st.3->Ok_0.confidence.is_valid_confidence())
            &&& forall|i: int| 0 <= i < st.1.len() ==> spec_validate_result((#[trigger] st.1[i]).1) is Ok
        }),
{
    let st = spec_predict_step(models, results, tracker, pc_cap, ttl, input, reply, now);
    let key = spec_cache_key(input.symbol, input.horizon as u64, input.historical_data);
    if spec_validate_input(input) is Ok {
        match pc_lookup(results, key, ttl, now) {
            Option::Some(rv) => {
                let w = crate::result_cache::pc_idx(results, key);
                assert(0 <= w < results.len() && results[w].0 == key);
                assert(rv == results[w].1);
            },
            Option::None => {
                let name = spec_selected(tracker, input.horizon as int, now);
                if mc_has(models, name) {
                    match reply.outcome {
                        Result::Ok(resp) => {
                            let built = spec_result_built(input, name, resp, now);
                            if spec_validate_result(built) is Ok {
                                lemma_put_preserves_admission(results, pc_cap, key, built);
                            }
                        },
                        Result::Err(_) => {},
                    }
                }
            },
        }
    }
}

} // verus!
