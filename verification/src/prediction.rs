//! Request and response envelopes, and the admission checks on forecast
//! inputs and backend results.
//!
//! The checks are pure and side-effect free. An input is admitted when its
//! symbol is non-empty, its history holds at least the minimum number of
//! finite, non-negative points with one timestamp each, and its horizon is
//! between one and the accepted maximum. A backend result is admitted when
//! its forecast is non-empty and finite throughout, its confidence is a
//! number between zero and one, and its length equals the horizon.

use vstd::prelude::*;
use crate::PredictionInput;
use crate::PredictionInputView;
use crate::PredictionResult;
use crate::PredictionResultView;
use crate::errors::ValidationError;

verus! {

/// Minimum number of historical points an input must carry.
pub const MIN_HISTORY_POINTS: usize = 20;

/// Largest accepted forecast horizon.
pub const MAX_HORIZON: usize = 100;

/// Priority attached to a queued prediction request.
#[derive(Clone, Copy, Debug, PartialEq, Eq, Structural)]
pub enum PredictionPriority {
    Low,
    Normal,
    High,
    Critical,
}

/// A prediction request with routing context.
#[derive(Debug)]
pub struct PredictionRequest {
    pub input: PredictionInput,
    pub model_preference: Option<String>,
    pub priority: PredictionPriority,
    pub callback_url: Option<String>,
    pub request_id: String,
}

/// A batch of prediction requests.
#[derive(Debug)]
pub struct BatchPredictionRequest {
    pub requests: Vec<PredictionRequest>,
    pub batch_id: String,
    pub max_parallel: Option<usize>,
}

/// Outcome tag of a served request, with the reason for a failure.
#[derive(Debug)]
pub enum PredictionStatus {
    Success,
    Failed { error: String },
    Timeout,
    Queued,
    Processing,
}

/// A served prediction with its handling times and status.
#[derive(Debug)]
pub struct PredictionResponse {
    pub result: PredictionResult,
    pub request_id: String,
    pub processing_time_ms: u64,
    pub queue_time_ms: u64,
    pub status: PredictionStatus,
}

/// The verdict of input admission: the checks run in a fixed order and the
/// first to fail names the error.
pub open spec fn spec_validate_input(i: PredictionInputView) -> Result<(), ValidationError> {
    if i.symbol.len() == 0 {
        Err(ValidationError::EmptySymbol)
    } else if i.historical_data.len() == 0 {
        Err(ValidationError::EmptyHistoricalData)
    } else if i.historical_data.len() < MIN_HISTORY_POINTS {
        Err(ValidationError::InsufficientHistoricalData)
    } else if exists|k: int|
        0 <= k < i.historical_data.len() && !(#[trigger] i.historical_data[k]).is_valid_data_point() {
        Err(ValidationError::InvalidDataPoint)
    } else if i.timestamps.len() != i.historical_data.len() {
        Err(ValidationError::TimestampMismatch)
    } else if i.horizon == 0 || i.horizon > MAX_HORIZON {
        Err(ValidationError::HorizonOutOfRange)
    } else {
        Ok(())
    }
}

/// The verdict of result admission: the checks run in a fixed order and
/// the first to fail names the error.
pub open spec fn spec_validate_result(r: PredictionResultView) -> Result<(), ValidationError> {
    if r.prediction.len() == 0 {
        Err(ValidationError::EmptyPrediction)
    } else if exists|k: int| 0 <= k < r.prediction.len() && !(#[trigger] r.prediction[k]).is_finite() {
        Err(ValidationError::InvalidPredictionValue)
    } else if !r.confidence.is_valid_confidence() {
        Err(ValidationError::ConfidenceOutOfRange)
    } else if r.prediction.len() != r.horizon {
        Err(ValidationError::HorizonMismatch)
    } else {
        Ok(())
    }
}

/// Admission checks on requests and backend results.
pub struct PredictionValidator;

impl PredictionValidator {
    /// Check a forecast request for admission; pure and side-effect free.
    pub fn validate_input(input: &PredictionInput) -> (r: Result<(), ValidationError>)
        ensures
            r == spec_validate_input(input.deep_view()),
    {
        if input.symbol.as_str().unicode_len() == 0 {
            return Err(ValidationError::EmptySymbol);
        }
        if input.historical_data.len() == 0 {
            return Err(ValidationError::EmptyHistoricalData);
        }
        if input.historical_data.len() < MIN_HISTORY_POINTS {
            return Err(ValidationError::InsufficientHistoricalData);
        }
        let n = input.historical_data.len();
        let mut k: usize = 0;
        while k < n
            invariant
                n == input.historical_data@.len(),
                k <= n,
                input.symbol@.len() != 0,
                input.historical_data@.len() >= MIN_HISTORY_POINTS,
                forall|j: int| 0 <= j < k ==> (#[trigger] input.historical_data@[j]).is_valid_data_point(),
            decreases n - k,
        {
            if !input.historical_data[k].valid_data_point() {
                proof {
                    let iv = input.deep_view();
                    assert(exists|j: int| 0 <= j < iv.historical_data.len()
                        && !(#[trigger] iv.historical_data[j]).is_valid_data_point());
                }
                return Err(ValidationError::InvalidDataPoint);
            }
            k = k + 1;
        }
        if input.timestamps.len() != input.historical_data.len() {
            return Err(ValidationError::TimestampMismatch);
        }
        if input.horizon == 0 || input.horizon > MAX_HORIZON {
            return Err(ValidationError::HorizonOutOfRange);
        }
        Ok(())
    }

    /// Check a backend result for admission; pure and side-effect free.
    pub fn validate_result(result: &PredictionResult) -> (r: Result<(), ValidationError>)
        ensures
            r == spec_validate_result(result.deep_view()),
    {
        if result.prediction.len() == 0 {
            return Err(ValidationError::EmptyPrediction);
        }
        let n = result.prediction.len();
        let mut k: usize = 0;
        while k < n
            invariant
                n == result.prediction@.len(),
                k <= n,
                result.prediction@.len() > 0,
                forall|j: int| 0 <= j < k ==> (#[trigger] result.prediction@[j]).is_finite(),
            decreases n - k,
        {
            if !result.prediction[k].finite() {
                proof {
                    let rv = result.deep_view();
                    assert(exists|j: int| 0 <= j < rv.prediction.len()
                        && !(#[trigger] rv.prediction[j]).is_finite());
                }
                return Err(ValidationError::InvalidPredictionValue);
            }
            k = k + 1;
        }
        if !result.confidence.valid_confidence() {
            return Err(ValidationError::ConfidenceOutOfRange);
        }
        if result.prediction.len() != result.horizon {
            return Err(ValidationError::HorizonMismatch);
        }
        Ok(())
    }
}

/// An admitted result's shape: its forecast length equals its horizon and
/// its confidence lies between zero and one.
pub proof fn lemma_valid_result_shape(r: PredictionResultView)
    requires
        spec_validate_result(r) is Ok,
    ensures
        r.prediction.len() == r.horizon,
        r.confidence.is_valid_confidence(),
        forall|k: int| 0 <= k < r.prediction.len() ==> (#[trigger] r.prediction[k]).is_finite(),
{
}

} // verus!
