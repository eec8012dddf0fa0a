//! What a stored series of market data covers, and the filters a request
//! for it may carry.

use vstd::prelude::*;
use crate::text::str_eq;

verus! {

/// The symbol, time span (epoch seconds) and sampling frequency of a
/// stored series.
pub struct Meta {
    pub symbol: String,
    pub begins_at: i64,
    pub ends_at: i64,
    pub frequency: String,
}

/// A condition on the data a request wants.
pub enum Filters {
    DateRange { start: i64, end: i64 },
    Frequency(String),
}

/// The stored series covers the filter: the whole requested span, or
/// exactly the requested frequency.
pub open spec fn covers(m: &Meta, f: &Filters) -> bool {
    match f {
        Filters::DateRange { start, end } => m.begins_at <= *start && *end <= m.ends_at,
        Filters::Frequency(freq) => m.frequency@ == freq@,
    }
}

impl Meta {
    /// Whether the stored series meets every filter, so that it can answer
    /// the request without pulling more data.
    pub fn meets_filters(&self, filters: &Vec<Filters>) -> (r: bool)
        ensures
            r == forall|i: int| 0 <= i < filters@.len() ==> covers(self, &#[trigger] filters@[i]),
    {
        let mut i: usize = 0;
        while i < filters.len()
            invariant
                i <= filters@.len(),
                forall|j: int| 0 <= j < i ==> covers(self, &#[trigger] filters@[j]),
            decreases filters.len() - i,
        {
            match &filters[i] {
                Filters::DateRange { start, end } => {
                    if self.begins_at > *start || self.ends_at < *end {
                        return false;
                    }
                },
                Filters::Frequency(freq) => {
                    if !str_eq(self.frequency.as_str(), freq.as_str()) {
                        return false;
                    }
                },
            }
            i = i + 1;
        }
        true
    }
}

} // verus!
