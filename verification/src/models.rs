//! Per-model running statistics and performance-guided model selection.
//!
//! The tracker keeps one record per model name: outcome counters, a running
//! mean of inference latency, and a last-used stamp. The selector maps a
//! requested horizon to a static band default and substitutes the band's
//! fixed fallback whenever the default is not currently performing well by
//! the tracker's evidence.

use vstd::prelude::*;
use vstd::pervasive::VecAdditionalExecFns;
use vstd::arithmetic::div_mod::{lemma_div_by_multiple, lemma_div_is_ordered, lemma_div_pos_is_pos};
use vstd::arithmetic::mul::{lemma_mul_inequality, lemma_mul_nonnegative, lemma_mul_upper_bound};
use crate::errors::ServingError;
use crate::values::{sat_inc, saturating_inc};

verus! {

/// Milliseconds in one day; a model used less than this long ago counts as
/// recently used.
pub const MS_PER_DAY: u64 = 86_400_000;

/// Latency budget in milliseconds; a model whose mean inference latency
/// reaches it is not considered to be performing well.
pub const LATENCY_BUDGET_MS: u64 = 10;

/// View of [`ModelStats`] for use in specifications.
pub ghost struct ModelStatsView {
    pub model_name: Seq<char>,
    pub accuracy: u64,
    pub average_inference_time_ms: u64,
    pub total_predictions: u64,
    pub successful_predictions: u64,
    pub failed_predictions: u64,
    pub last_used: u64,
    pub memory_usage_mb: u64,
}

/// Running statistics for one model.
#[derive(Debug)]
pub struct ModelStats {
    pub model_name: String,
    /// Externally set accuracy, in micro-units of a fraction.
    pub accuracy: u64,
    /// Running mean inference latency, in whole milliseconds.
    pub average_inference_time_ms: u64,
    pub total_predictions: u64,
    pub successful_predictions: u64,
    pub failed_predictions: u64,
    /// Time of the last recorded prediction, in milliseconds.
    pub last_used: u64,
    /// Externally set resident size, in whole mebibytes.
    pub memory_usage_mb: u64,
}

impl DeepView for ModelStats {
    type V = ModelStatsView;

    open spec fn deep_view(&self) -> ModelStatsView {
        ModelStatsView {
            model_name: self.model_name@,
            accuracy: self.accuracy,
            average_inference_time_ms: self.average_inference_time_ms,
            total_predictions: self.total_predictions,
            successful_predictions: self.successful_predictions,
            failed_predictions: self.failed_predictions,
            last_used: self.last_used,
            memory_usage_mb: self.memory_usage_mb,
        }
    }
}

impl Clone for ModelStats {
    /// Cloning keeps the record's content.
    fn clone(&self) -> (r: Self)
        ensures
            r.deep_view() == self.deep_view(),
    {
        ModelStats {
            model_name: self.model_name.clone(),
            accuracy: self.accuracy,
            average_inference_time_ms: self.average_inference_time_ms,
            total_predictions: self.total_predictions,
            successful_predictions: self.successful_predictions,
            failed_predictions: self.failed_predictions,
            last_used: self.last_used,
            memory_usage_mb: self.memory_usage_mb,
        }
    }
}

/// Whether some record of `s` is for the model `name`.
pub open spec fn tr_has(s: Seq<ModelStatsView>, name: Seq<char>) -> bool {
    exists|i: int| 0 <= i < s.len() && s[i].model_name == name
}

/// Index of the record for `name` (meaningful when [`tr_has`] holds; unique
/// under [`tr_distinct`]).
pub open spec fn tr_idx(s: Seq<ModelStatsView>, name: Seq<char>) -> int {
    choose|i: int| 0 <= i < s.len() && s[i].model_name == name
}

/// No two records are for the same model name.
pub open spec fn tr_distinct(s: Seq<ModelStatsView>) -> bool {
    forall|i: int, j: int| 0 <= i < j < s.len() ==> s[i].model_name != s[j].model_name
}

/// The running mean after one more latency sample, by the incremental
/// formula: the previous mean weighted by the previous count, plus the new
/// sample, divided by the new count (integer division, rounding down).
pub open spec fn spec_new_mean(old_mean: u64, total_after: u64, lat: u64) -> u64 {
    if total_after == 0 {
        lat
    } else {
        ((old_mean * (total_after - 1) + lat) / (total_after as int)) as u64
    }
}

/// A zeroed record for a model's first appearance.
pub open spec fn fresh_record(name: Seq<char>) -> ModelStatsView {
    ModelStatsView {
        model_name: name,
        accuracy: 0,
        average_inference_time_ms: 0,
        total_predictions: 0,
        successful_predictions: 0,
        failed_predictions: 0,
        last_used: 0,
        memory_usage_mb: 0,
    }
}

/// One record after absorbing one prediction outcome: counters grow
/// (saturating), the mean follows [`spec_new_mean`], and the last-used stamp
/// becomes `now`. The externally set fields are untouched.
pub open spec fn record_after(st: ModelStatsView, lat: u64, success: bool, now: u64) -> ModelStatsView {
    let total = saturating_inc(st.total_predictions);
    ModelStatsView {
        total_predictions: total,
        successful_predictions: if success {
            saturating_inc(st.successful_predictions)
        } else {
            st.successful_predictions
        },
        failed_predictions: if success {
            st.failed_predictions
        } else {
            saturating_inc(st.failed_predictions)
        },
        average_inference_time_ms: spec_new_mean(st.average_inference_time_ms, total, lat),
        last_used: now,
        ..st
    }
}

/// Tracker contents after recording one prediction for `name`: the existing
/// record absorbs the outcome, or a zeroed record is created first.
pub open spec fn tr_record(
    s: Seq<ModelStatsView>,
    name: Seq<char>,
    lat: u64,
    success: bool,
    now: u64,
) -> Seq<ModelStatsView> {
    if tr_has(s, name) {
        s.update(tr_idx(s, name), record_after(s[tr_idx(s, name)], lat, success, now))
    } else {
        s.push(record_after(fresh_record(name), lat, success, now))
    }
}

/// The incremental mean stays within the sample range's type: it never
/// exceeds the larger of the previous mean and the new sample.
proof fn lemma_mean_fits(mean: int, lat: int, t: int)
    requires
        0 <= mean <= u64::MAX,
        0 <= lat <= u64::MAX,
        1 <= t,
    ensures
        0 <= (mean * (t - 1) + lat) / t <= u64::MAX,
{
    let num = mean * (t - 1) + lat;
    lemma_mul_nonnegative(mean, t - 1);
    lemma_div_pos_is_pos(num, t);
    lemma_mul_inequality(mean, u64::MAX as int, t - 1);
    assert(num <= u64::MAX * t);
    lemma_div_is_ordered(num, u64::MAX * t, t);
    lemma_div_by_multiple(u64::MAX as int, t);
}

/// Tracker of per-model prediction statistics.
pub struct ModelPerformanceTracker {
    stats: Vec<ModelStats>,
}

impl View for ModelPerformanceTracker {
    type V = Seq<ModelStatsView>;

    closed spec fn view(&self) -> Seq<ModelStatsView> {
        self.stats.deep_view()
    }
}

impl ModelPerformanceTracker {
    /// Well-formed tracker: one record per model name.
    pub open spec fn wf(&self) -> bool {
        tr_distinct(self@)
    }

    /// Create an empty tracker.
    pub fn new() -> (r: Self)
        ensures
            r.wf(),
            r@.len() == 0,
    {
        ModelPerformanceTracker { stats: Vec::new() }
    }

    /// Index of the record for `name`, if any.
    fn index_of(&self, name: &String) -> (r: Option<usize>)
        ensures
            match r {
                Some(i) => i < self@.len() && self@[i as int].model_name == name@,
                None => !tr_has(self@, name@),
            },
    {
        let n = self.stats.len();
        let mut i: usize = 0;
        while i < n
            invariant
                n == self@.len(),
                i <= n,
                forall|k: int| 0 <= k < i ==> self@[k].model_name != name@,
            decreases n - i,
        {
            if self.stats[i].model_name == *name {
                return Some(i);
            }
            i = i + 1;
        }
        None
    }

    /// Record one prediction outcome for `model_name`: a zeroed record is
    /// created on first use; then the total grows by one, the matching
    /// outcome counter grows by one, the running mean latency absorbs
    /// `latency_ms`, and the last-used stamp becomes `now_ms`.
    pub fn record_prediction(&mut self, model_name: &str, latency_ms: u64, success: bool, now_ms: u64)
        requires
            old(self).wf(),
        ensures
            final(self).wf(),
            final(self)@ == tr_record(old(self)@, model_name@, latency_ms, success, now_ms),
    {
        let ghost s0 = self@;
        let key: String = model_name.to_owned();
        match self.index_of(&key) {
            Some(i) => {
                proof {
                    assert(tr_has(s0, model_name@));
                    let w = tr_idx(s0, model_name@);
                    assert(0 <= w < s0.len() && s0[w].model_name == model_name@);
                    assert(w == i as int);
                }
                let prev = &self.stats[i];
                let total = sat_inc(prev.total_predictions);
                let succ = if success {
                    sat_inc(prev.successful_predictions)
                } else {
                    prev.successful_predictions
                };
                let fail = if success {
                    prev.failed_predictions
                } else {
                    sat_inc(prev.failed_predictions)
                };
                let mean = Self::next_mean(prev.average_inference_time_ms, total, latency_ms);
                let updated = ModelStats {
                    model_name: prev.model_name.clone(),
                    accuracy: prev.accuracy,
                    average_inference_time_ms: mean,
                    total_predictions: total,
                    successful_predictions: succ,
                    failed_predictions: fail,
                    last_used: now_ms,
                    memory_usage_mb: prev.memory_usage_mb,
                };
                proof {
                    assert(updated.deep_view() == record_after(s0[i as int], latency_ms, success, now_ms));
                }
                self.stats.set(i, updated);
                proof {
                    assert(self.stats.deep_view() =~= tr_record(s0, model_name@, latency_ms, success, now_ms));
                    tr_distinct_after_update(s0, i as int, record_after(s0[i as int], latency_ms, success, now_ms));
                }
            },
            None => {
                let mean = Self::next_mean(0, 1, latency_ms);
                let fresh = ModelStats {
                    model_name: key,
                    accuracy: 0,
                    average_inference_time_ms: mean,
                    total_predictions: 1,
                    successful_predictions: if success { 1 } else { 0 },
                    failed_predictions: if success { 0 } else { 1 },
                    last_used: now_ms,
                    memory_usage_mb: 0,
                };
                proof {
                    assert(fresh.deep_view() == record_after(fresh_record(model_name@), latency_ms, success, now_ms));
                }
                self.stats.push(fresh);
                proof {
                    assert(self.stats.deep_view() =~= tr_record(s0, model_name@, latency_ms, success, now_ms));
                    assert(forall|k: int| 0 <= k < s0.len() ==> s0[k].model_name != model_name@);
                }
            },
        }
    }

    /// The incremental mean, computed without overflow.
    fn next_mean(old_mean: u64, total_after: u64, latency_ms: u64) -> (r: u64)
        requires
            total_after >= 1,
        ensures
            r == spec_new_mean(old_mean, total_after, latency_ms),
    {
        proof {
            lemma_mul_upper_bound(old_mean as int, u64::MAX as int, (total_after - 1) as int, u64::MAX as int);
            lemma_mean_fits(old_mean as int, latency_ms as int, total_after as int);
        }
        let num: u128 = (old_mean as u128) * ((total_after - 1) as u128) + (latency_ms as u128);
        (num / (total_after as u128)) as u64
    }

    /// The record for `model_name`, if one exists.
    pub fn get_stats(&self, model_name: &str) -> (r: Option<&ModelStats>)
        requires
            self.wf(),
        ensures
            match r {
                Some(st) => tr_has(self@, model_name@)
                    && st.deep_view() == self@[tr_idx(self@, model_name@)],
                None => !tr_has(self@, model_name@),
            },
    {
        let key: String = model_name.to_owned();
        match self.index_of(&key) {
            Some(i) => {
                proof {
                    let w = tr_idx(self@, model_name@);
                    assert(0 <= w < self@.len() && self@[w].model_name == model_name@);
                    assert(w == i as int);
                }
                Some(&self.stats[i])
            },
            None => None,
        }
    }

    /// All records, in creation order.
    pub fn get_all_stats(&self) -> (r: &Vec<ModelStats>)
        ensures
            r.deep_view() == self@,
    {
        &self.stats
    }

    /// Set the externally measured accuracy (in micro-units) for
    /// `model_name`; a no-op if the model has no record yet.
    pub fn update_accuracy(&mut self, model_name: &str, accuracy_micros: u64)
        requires
            old(self).wf(),
        ensures
            final(self).wf(),
            if tr_has(old(self)@, model_name@) {
                final(self)@ == old(self)@.update(
                    tr_idx(old(self)@, model_name@),
                    ModelStatsView {
                        accuracy: accuracy_micros,
                        ..old(self)@[tr_idx(old(self)@, model_name@)]
                    },
                )
            } else {
                final(self)@ == old(self)@
            },
    {
        let ghost s0 = self@;
        let key: String = model_name.to_owned();
        match self.index_of(&key) {
            None => (),
            Some(i) => {
                proof {
                    let w = tr_idx(s0, model_name@);
                    assert(0 <= w < s0.len() && s0[w].model_name == model_name@);
                    assert(w == i as int);
                }
                let prev = &self.stats[i];
                let updated = ModelStats { accuracy: accuracy_micros, ..prev.clone() };
                self.stats.set(i, updated);
                proof {
                    assert(self.stats.deep_view() =~= s0.update(i as int, ModelStatsView {
                        accuracy: accuracy_micros,
                        ..s0[i as int]
                    }));
                    tr_distinct_after_update(s0, i as int, ModelStatsView {
                        accuracy: accuracy_micros,
                        ..s0[i as int]
                    });
                }
            },
        }
    }

    /// Set the externally measured resident size (in mebibytes) for
    /// `model_name`; a no-op if the model has no record yet.
    pub fn update_memory_usage(&mut self, model_name: &str, memory_mb: u64)
        requires
            old(self).wf(),
        ensures
            final(self).wf(),
            if tr_has(old(self)@, model_name@) {
                final(self)@ == old(self)@.update(
                    tr_idx(old(self)@, model_name@),
                    ModelStatsView {
                        memory_usage_mb: memory_mb,
                        ..old(self)@[tr_idx(old(self)@, model_name@)]
                    },
                )
            } else {
                final(self)@ == old(self)@
            },
    {
        let ghost s0 = self@;
        let key: String = model_name.to_owned();
        match self.index_of(&key) {
            None => (),
            Some(i) => {
                proof {
                    let w = tr_idx(s0, model_name@);
                    assert(0 <= w < s0.len() && s0[w].model_name == model_name@);
                    assert(w == i as int);
                }
                let prev = &self.stats[i];
                let updated = ModelStats { memory_usage_mb: memory_mb, ..prev.clone() };
                self.stats.set(i, updated);
                proof {
                    assert(self.stats.deep_view() =~= s0.update(i as int, ModelStatsView {
                        memory_usage_mb: memory_mb,
                        ..s0[i as int]
                    }));
                    tr_distinct_after_update(s0, i as int, ModelStatsView {
                        memory_usage_mb: memory_mb,
                        ..s0[i as int]
                    });
                }
            },
        }
    }
}

/// Updating a record without changing its name keeps names distinct.
proof fn tr_distinct_after_update(s: Seq<ModelStatsView>, i: int, st: ModelStatsView)
    requires
        tr_distinct(s),
        0 <= i < s.len(),
        st.model_name == s[i].model_name,
    ensures
        tr_distinct(s.update(i, st)),
{
}

/// The band default: fast horizons prefer the short-term model, the middle
/// band the attention model, long horizons the recurrent model.
pub open spec fn band_default(horizon: int) -> Seq<char> {
    if 1 <= horizon <= 5 {
        "NBEATS"@
    } else if 6 <= horizon <= 20 {
        "TFT"@
    } else {
        "LSTM"@
    }
}

/// The fixed per-band fallback used when the default is not performing well.
pub open spec fn band_fallback(horizon: int) -> Seq<char> {
    if 1 <= horizon <= 5 {
        "TFT"@
    } else if 6 <= horizon <= 20 {
        "LSTM"@
    } else {
        "TFT"@
    }
}

/// A model is performing well when it has at least one recorded prediction,
/// a success rate above ninety-five hundredths, a mean latency under the
/// budget, and a last use within the past day.
pub open spec fn performing_well(s: Seq<ModelStatsView>, name: Seq<char>, now: u64) -> bool {
    &&& tr_has(s, name)
    &&& ({
        let st = s[tr_idx(s, name)];
        &&& st.total_predictions > 0
        &&& st.successful_predictions * 20 > st.total_predictions * 19
        &&& st.average_inference_time_ms < LATENCY_BUDGET_MS
        &&& now - st.last_used < MS_PER_DAY
    })
}

/// The model name selection yields for a positive horizon: the band default
/// when it is performing well, the band fallback otherwise.
pub open spec fn spec_selected(s: Seq<ModelStatsView>, horizon: int, now: u64) -> Seq<char> {
    if performing_well(s, band_default(horizon), now) {
        band_default(horizon)
    } else {
        band_fallback(horizon)
    }
}

/// Chooses a model for a request, consulting the tracker's evidence.
pub struct ModelSelector {
    pub performance_tracker: ModelPerformanceTracker,
}

impl View for ModelSelector {
    type V = Seq<ModelStatsView>;

    open spec fn view(&self) -> Seq<ModelStatsView> {
        self.performance_tracker@
    }
}

impl ModelSelector {
    /// Well-formed selector: its tracker is well-formed.
    pub open spec fn wf(&self) -> bool {
        self.performance_tracker.wf()
    }

    /// Create a selector over a fresh, empty tracker.
    pub fn new() -> (r: Self)
        ensures
            r.wf(),
            r@.len() == 0,
    {
        ModelSelector { performance_tracker: ModelPerformanceTracker::new() }
    }

    /// Whether `model_name` is currently performing well by the tracker.
    fn is_model_performing_well(&self, model_name: &str, now_ms: u64) -> (r: bool)
        requires
            self.wf(),
        ensures
            r == performing_well(self@, model_name@, now_ms),
    {
        match self.performance_tracker.get_stats(model_name) {
            None => false,
            Some(st) => {
                let good_rate = (st.successful_predictions as u128) * 20
                    > (st.total_predictions as u128) * 19;
                let recent = if st.last_used > now_ms {
                    true
                } else {
                    now_ms - st.last_used < MS_PER_DAY
                };
                st.total_predictions > 0
                    && good_rate
                    && st.average_inference_time_ms < LATENCY_BUDGET_MS
                    && recent
            },
        }
    }

    /// Select a model name for the given horizon. A zero horizon is the only
    /// error. The symbol class and feature list are accepted as extension
    /// points and do not influence the default policy.
    pub fn select_model(&self, horizon: usize, symbol_type: &str, features: &[String], now_ms: u64) -> (r: Result<String, ServingError>)
        requires
            self.wf(),
        ensures
            match r {
                Ok(name) => horizon >= 1 && name@ == spec_selected(self@, horizon as int, now_ms),
                Err(e) => horizon == 0 && e is InvalidHorizon,
            },
    {
        let _ = symbol_type;
        let _ = features;
        if horizon == 0 {
            Err(ServingError::InvalidHorizon)
        } else if horizon <= 5 {
            if self.is_model_performing_well("NBEATS", now_ms) {
                Ok("NBEATS".to_owned())
            } else {
                Ok("TFT".to_owned())
            }
        } else if horizon <= 20 {
            if self.is_model_performing_well("TFT", now_ms) {
                Ok("TFT".to_owned())
            } else {
                Ok("LSTM".to_owned())
            }
        } else {
            if self.is_model_performing_well("LSTM", now_ms) {
                Ok("LSTM".to_owned())
            } else {
                Ok("TFT".to_owned())
            }
        }
    }

    /// Read access to the tracker.
    pub fn get_performance_tracker(&self) -> (r: &ModelPerformanceTracker)
        ensures
            r@ == self@,
    {
        &self.performance_tracker
    }

    /// Write access to the tracker, for feeding it outcomes and externally
    /// measured figures.
    pub fn get_performance_tracker_mut(&mut self) -> (r: &mut ModelPerformanceTracker)
        ensures
            *r == old(self).performance_tracker,
            final(self).performance_tracker == *final(r),
    {
        &mut self.performance_tracker
    }
}

/// A tracker with no records never judges any model to be performing well,
/// so the first selection in any band yields that band's fallback, never its
/// default.
pub proof fn lemma_cold_start_selects_fallback(s: Seq<ModelStatsView>, horizon: int, now: u64)
    requires
        s.len() == 0,
        horizon >= 1,
    ensures
        !performing_well(s, band_default(horizon), now),
        spec_selected(s, horizon, now) == band_fallback(horizon),
{
}

/// Whenever the band default is performing well, selection yields it.
pub proof fn lemma_selection_prefers_default(s: Seq<ModelStatsView>, horizon: int, now: u64)
    requires
        horizon >= 1,
        performing_well(s, band_default(horizon), now),
    ensures
        spec_selected(s, horizon, now) == band_default(horizon),
{
}

} // verus!
