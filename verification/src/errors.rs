//! Error taxonomy of the serving layer.
//!
//! A failed serving call yields one of four kinds: a rejected input or
//! backend output (caller-correctable), a model that was never preloaded
//! (operator-correctable), a horizon outside the selector's bands
//! (caller-correctable), or a wrapped backend failure. Cache eviction is
//! never an error.

use vstd::prelude::*;

verus! {

/// Reason an input or a backend result failed admission.
#[derive(Clone, Copy, Debug, PartialEq, Eq, Structural)]
pub enum ValidationError {
    /// The input's symbol is empty.
    EmptySymbol,
    /// The input carries no historical data at all.
    EmptyHistoricalData,
    /// The input carries fewer than the minimum number of points.
    InsufficientHistoricalData,
    /// Some historical point is not a finite, non-negative number.
    InvalidDataPoint,
    /// The timestamp sequence does not match the data sequence in length.
    TimestampMismatch,
    /// The requested horizon is zero or above the accepted maximum.
    HorizonOutOfRange,
    /// The backend's forecast is empty.
    EmptyPrediction,
    /// Some forecast value is not a finite number.
    InvalidPredictionValue,
    /// The confidence is not a number between zero and one.
    ConfidenceOutOfRange,
    /// The forecast's length does not equal the requested horizon.
    HorizonMismatch,
}

impl DeepView for ValidationError {
    type V = ValidationError;

    open spec fn deep_view(&self) -> ValidationError {
        *self
    }
}

/// View of a [`ServingError`] for use in specifications.
pub ghost enum ServingErrorView {
    Validation(ValidationError),
    ModelNotLoaded(Seq<char>),
    InvalidHorizon,
    Backend(Seq<char>),
}

/// A failed serving call, distinguishing the four failure kinds so a caller
/// can decide whether to retry or give up.
#[derive(Debug)]
pub enum ServingError {
    /// The input or the backend's output failed admission.
    Validation(ValidationError),
    /// The named model is not resident; it must be preloaded out of band.
    ModelNotLoaded(String),
    /// The requested horizon falls in no selection band.
    InvalidHorizon,
    /// The backend's load or inference call failed; its message is carried.
    Backend(String),
}

impl DeepView for ServingError {
    type V = ServingErrorView;

    open spec fn deep_view(&self) -> ServingErrorView {
        match self {
            ServingError::Validation(e) => ServingErrorView::Validation(*e),
            ServingError::ModelNotLoaded(name) => ServingErrorView::ModelNotLoaded(name@),
            ServingError::InvalidHorizon => ServingErrorView::InvalidHorizon,
            ServingError::Backend(msg) => ServingErrorView::Backend(msg@),
        }
    }
}

impl Clone for ServingError {
    /// Cloning keeps the error's content.
    fn clone(&self) -> (r: Self)
        ensures
            r.deep_view() == self.deep_view(),
    {
        match self {
            ServingError::Validation(e) => ServingError::Validation(*e),
            ServingError::ModelNotLoaded(name) => ServingError::ModelNotLoaded(name.clone()),
            ServingError::InvalidHorizon => ServingError::InvalidHorizon,
            ServingError::Backend(msg) => ServingError::Backend(msg.clone()),
        }
    }
}

} // verus!
