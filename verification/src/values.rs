//! Numeric model for market values and forecasts.
//!
//! Market feeds and model outputs are carried as fixed-point numbers with a
//! micro-unit resolution, together with the out-of-range shapes a feed can
//! produce (not-a-number and the two infinities). Keeping those shapes
//! explicit lets the admission checks state exactly which inputs they reject.

use vstd::prelude::*;

verus! {

/// Number of micro-units in one whole unit of a `DataValue`.
pub const MICROS_PER_UNIT: i64 = 1_000_000;

/// A single numeric observation or forecast value, in micro-units.
///
/// `Finite(m)` stands for the number `m / 1_000_000`; the other variants
/// stand for the non-finite shapes a data source can deliver.
#[derive(Clone, Copy, Debug, PartialEq, Eq, Structural)]
pub enum DataValue {
    NotANumber,
    PositiveInfinite,
    NegativeInfinite,
    Finite(i64),
}

impl DeepView for DataValue {
    type V = DataValue;

    open spec fn deep_view(&self) -> DataValue {
        *self
    }
}

impl DataValue {
    /// A historical data point is admissible when it is finite and not negative.
    pub open spec fn is_valid_data_point(self) -> bool {
        match self {
            DataValue::Finite(m) => m >= 0,
            _ => false,
        }
    }

    /// A value is finite when it carries an actual number.
    pub open spec fn is_finite(self) -> bool {
        self is Finite
    }

    /// Whole-unit truncation used by the cache-key derivation: the fractional
    /// part is discarded, negative and non-numeric values collapse to 0, and
    /// positive infinity saturates.
    pub open spec fn spec_truncated(self) -> u64 {
        match self {
            DataValue::NotANumber => 0,
            DataValue::NegativeInfinite => 0,
            DataValue::PositiveInfinite => u64::MAX,
            DataValue::Finite(m) => if m < 0 {
                0
            } else {
                (m / MICROS_PER_UNIT) as u64
            },
        }
    }

    /// A confidence is admissible when it is a number between zero and one.
    pub open spec fn is_valid_confidence(self) -> bool {
        match self {
            DataValue::Finite(m) => 0 <= m <= MICROS_PER_UNIT,
            _ => false,
        }
    }

    /// Whether this value may stand as a confidence.
    pub fn valid_confidence(&self) -> (r: bool)
        ensures
            r == self.is_valid_confidence(),
    {
        match self {
            DataValue::Finite(m) => 0 <= *m && *m <= MICROS_PER_UNIT,
            _ => false,
        }
    }

    /// A traded price is admissible when it is finite and strictly positive.
    pub open spec fn is_positive_price(self) -> bool {
        match self {
            DataValue::Finite(m) => m > 0,
            _ => false,
        }
    }

    /// The micro-unit count of a finite value (zero for the non-finite
    /// shapes; meaningful once finiteness is established).
    pub open spec fn spec_micros(self) -> i64 {
        match self {
            DataValue::Finite(m) => m,
            _ => 0,
        }
    }

    /// The micro-unit count when this value is a strictly positive price.
    pub fn positive_micros(&self) -> (r: Option<i64>)
        ensures
            match r {
                Some(m) => *self == DataValue::Finite(m) && m > 0,
                None => !self.is_positive_price(),
            },
    {
        match self {
            DataValue::Finite(m) => if *m > 0 {
                Some(*m)
            } else {
                None
            },
            _ => None,
        }
    }

    /// Whether this value may stand as a historical data point.
    pub fn valid_data_point(&self) -> (r: bool)
        ensures
            r == self.is_valid_data_point(),
    {
        match self {
            DataValue::Finite(m) => *m >= 0,
            _ => false,
        }
    }

    /// Whether this value carries an actual number.
    pub fn finite(&self) -> (r: bool)
        ensures
            r == self.is_finite(),
    {
        match self {
            DataValue::Finite(_) => true,
            _ => false,
        }
    }

    /// Whole-unit truncation of this value (see [`DataValue::spec_truncated`]).
    pub fn truncated(&self) -> (r: u64)
        ensures
            r == self.spec_truncated(),
    {
        match self {
            DataValue::NotANumber => 0,
            DataValue::NegativeInfinite => 0,
            DataValue::PositiveInfinite => u64::MAX,
            DataValue::Finite(m) => if *m < 0 {
                0
            } else {
                (*m / MICROS_PER_UNIT) as u64
            },
        }
    }
}

/// Increment that sticks at the largest representable count instead of
/// wrapping; the caches and the tracker use it for their event counters.
pub open spec fn saturating_inc(x: u64) -> u64 {
    if x < u64::MAX {
        (x + 1) as u64
    } else {
        u64::MAX
    }
}

/// Executable form of [`saturating_inc`].
pub fn sat_inc(x: u64) -> (r: u64)
    ensures
        r == saturating_inc(x),
{
    if x < u64::MAX {
        x + 1
    } else {
        u64::MAX
    }
}

/// Copy of a vector of plain copyable values.
pub fn clone_copy_vec<T: Copy>(v: &Vec<T>) -> (r: Vec<T>)
    ensures
        r@ == v@,
{
    let mut out: Vec<T> = Vec::new();
    let mut i: usize = 0;
    while i < v.len()
        invariant
            i <= v.len(),
            out@ == v@.subrange(0, i as int),
        decreases v.len() - i,
    {
        out.push(v[i]);
        i = i + 1;
        proof {
            assert(out@ =~= v@.subrange(0, i as int));
        }
    }
    proof {
        assert(out@ =~= v@);
    }
    out
}

/// Copy of a string vector whose content is pinned by the contract.
pub fn clone_string_vec(v: &Vec<String>) -> (r: Vec<String>)
    ensures
        r.deep_view() == v.deep_view(),
{
    let mut out: Vec<String> = Vec::new();
    let mut i: usize = 0;
    while i < v.len()
        invariant
            i <= v.len(),
            out.deep_view().len() == i,
            forall|k: int| 0 <= k < i ==> out.deep_view()[k] == v.deep_view()[k],
        decreases v.len() - i,
    {
        out.push(v[i].clone());
        i = i + 1;
    }
    proof {
        assert(out.deep_view() =~= v.deep_view());
    }
    out
}

/// Copy of a keyed metadata vector whose content is pinned by the contract.
pub fn clone_meta_vec(v: &Vec<(String, MetaValue)>) -> (r: Vec<(String, MetaValue)>)
    ensures
        r.deep_view() == v.deep_view(),
{
    let mut out: Vec<(String, MetaValue)> = Vec::new();
    let mut i: usize = 0;
    while i < v.len()
        invariant
            i <= v.len(),
            out.deep_view().len() == i,
            forall|k: int| 0 <= k < i ==> out.deep_view()[k] == v.deep_view()[k],
        decreases v.len() - i,
    {
        out.push((v[i].0.clone(), v[i].1.clone()));
        i = i + 1;
    }
    proof {
        assert(out.deep_view() =~= v.deep_view());
    }
    out
}

/// View of a [`MetaValue`] for use in specifications.
pub ghost enum MetaValueView {
    Int(u64),
    Text(Seq<char>),
    TextList(Seq<Seq<char>>),
}

/// A free-form metadata or hyperparameter value attached to models and results.
#[derive(Debug)]
pub enum MetaValue {
    Int(u64),
    Text(String),
    TextList(Vec<String>),
}

impl DeepView for MetaValue {
    type V = MetaValueView;

    open spec fn deep_view(&self) -> MetaValueView {
        match self {
            MetaValue::Int(n) => MetaValueView::Int(*n),
            MetaValue::Text(s) => MetaValueView::Text(s@),
            MetaValue::TextList(v) => MetaValueView::TextList(v.deep_view()),
        }
    }
}

impl Clone for MetaValue {
    /// Cloning keeps the value's content.
    fn clone(&self) -> (r: Self)
        ensures
            r.deep_view() == self.deep_view(),
    {
        match self {
            MetaValue::Int(n) => MetaValue::Int(*n),
            MetaValue::Text(s) => MetaValue::Text(s.clone()),
            MetaValue::TextList(v) => {
                let mut out: Vec<String> = Vec::new();
                let mut i: usize = 0;
                while i < v.len()
                    invariant
                        i <= v.len(),
                        out.deep_view().len() == i,
                        forall|k: int| 0 <= k < i ==> out.deep_view()[k] == v.deep_view()[k],
                    decreases v.len() - i,
                {
                    out.push(v[i].clone());
                    i = i + 1;
                }
                proof {
                    assert(out.deep_view() =~= v.deep_view());
                }
                MetaValue::TextList(out)
            },
        }
    }
}

} // verus!
