//! What a user is told of an aggregate.

use vstd::prelude::*;
use crate::aggregate::{texts, ForecastAggregate};
use crate::average::average_items;
use crate::forecast::Forecast;

verus! {

/// The answer to a user: whether there is a forecast, the average of the
/// forecasts where there is one, and the warnings that arose on the way.
#[derive(Debug)]
pub struct ForecastUserResponse {
    pub ok: bool,
    pub forecast: Option<Forecast>,
    pub warnings: Vec<String>,
}

impl ForecastUserResponse {
    /// The answer that tells of `aggregate`. It is `ok` exactly where the
    /// aggregate holds a forecast; it then carries the average of the forecasts.
    /// The warnings of the aggregate go with it either way.
    pub fn from_aggregate(aggregate: &ForecastAggregate) -> (response: Self)
        ensures
            response.ok <==> aggregate@.forecasts.len() > 0,
            response.ok <==> response.forecast is Some,
            response.forecast matches Some(forecast) ==> forecast@.wf() && forecast@.items()
                == average_items(aggregate@.forecasts) && forecast@.source_name == "multiple"@,
            texts(response.warnings@) == aggregate@.warnings,
    {
        let forecast = aggregate.calculate_average_forecast();
        let given = aggregate.get_warnings();
        let mut warnings: Vec<String> = Vec::new();
        let mut i: usize = 0;
        while i < given.len()
            invariant
                i <= given.len(),
                warnings.len() == i,
                forall|k: int| 0 <= k < i ==> (#[trigger] warnings@[k])@ == given@[k]@,
            decreases given.len() - i,
        {
            warnings.push(given[i].clone());
            i += 1;
        }
        assert(texts(warnings@) =~= texts(given@));
        ForecastUserResponse { ok: forecast.is_some(), forecast, warnings }
    }
}

} // verus!
