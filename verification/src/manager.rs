//! Asking every provider for its forecast, and making one aggregate of what
//! they say.
//!
//! Each provider is asked once. What it says, a forecast or a failure, is taken
//! into the aggregate in the order in which the providers were given: a failure
//! of one provider leaves a warning and takes nothing from the others.

use vstd::prelude::*;
use crate::aggregate::{outcome_view, AggregateView, ForecastAggregate};
use crate::date::Date;
use crate::forecast::{Forecast, ForecastView};
use crate::provider::{ProviderError, WeatherProvider};

verus! {

/// What each of the providers said: its forecast, or the message of its
/// failure.
pub open spec fn outcome_views(results: Seq<Result<Forecast, ProviderError>>) -> Seq<
    Result<ForecastView, Seq<char>>,
> {
    Seq::new(results.len(), |i: int| outcome_view(results[i]))
}

/// The forecast of an attempt that brought one.
pub open spec fn forecast_of() -> spec_fn(Result<ForecastView, Seq<char>>) -> Option<
    ForecastView,
> {
    |outcome: Result<ForecastView, Seq<char>>|
        match outcome {
            Ok(forecast) => Some(forecast),
            Err(_) => None,
        }
}

/// The warning of an attempt that failed.
pub open spec fn warning_of() -> spec_fn(Result<ForecastView, Seq<char>>) -> Option<Seq<char>> {
    |outcome: Result<ForecastView, Seq<char>>|
        match outcome {
            Ok(_) => None,
            Err(message) => Some(message),
        }
}

/// The aggregate of the given attempts alone: the forecasts of those that
/// brought one, and the warnings of those that failed, each in the order of the
/// attempts.
pub open spec fn aggregate_of(outcomes: Seq<Result<ForecastView, Seq<char>>>) -> AggregateView {
    AggregateView {
        forecasts: outcomes.filter_map(forecast_of()),
        warnings: outcomes.filter_map(warning_of()),
    }
}

/// Makes one aggregate of what the providers said, in the order in which they
/// stand.
pub fn aggregate_results(results: Vec<Result<Forecast, ProviderError>>) -> (aggregate:
    ForecastAggregate)
    ensures
        aggregate@ == aggregate_of(outcome_views(results@)),
        aggregate@.attempts() == results.len(),
{
    let ghost outcomes = outcome_views(results@);
    let mut aggregate = ForecastAggregate::empty();
    assert(outcomes.take(0).filter_map(forecast_of()) =~= Seq::empty());
    assert(outcomes.take(0).filter_map(warning_of()) =~= Seq::empty());
    for result in it: results
        invariant
            outcomes == outcome_views(it.seq()),
            aggregate@ == aggregate_of(outcomes.take(it.index() as int)),
            aggregate@.attempts() == it.index(),
    {
        let ghost i = it.index() as int;
        assert(outcomes[i] == outcome_view(result));
        aggregate = aggregate.with_forecast_result(result);
        proof {
            outcomes.lemma_filter_map_take_succ(forecast_of(), i);
            outcomes.lemma_filter_map_take_succ(warning_of(), i);
            assert(aggregate@.forecasts =~= outcomes.take(i + 1).filter_map(forecast_of()));
            assert(aggregate@.warnings =~= outcomes.take(i + 1).filter_map(warning_of()));
        }
    }
    assert(outcomes.take(outcomes.len() as int) =~= outcomes);
    aggregate
}

/// The aggregate of what the providers said, cut down to `date`.
pub fn aggregate_results_at(date: Date, results: Vec<Result<Forecast, ProviderError>>) -> (aggregate:
    ForecastAggregate)
    ensures
        aggregate@ == aggregate_of(outcome_views(results@)).filter_by_date(date@),
        aggregate@.attempts() == results.len(),
{
    aggregate_results(results).filter_by_date(date)
}

/// The aggregate of what the providers said, cut down to the first week.
pub fn aggregate_results_on_week(results: Vec<Result<Forecast, ProviderError>>) -> (aggregate:
    ForecastAggregate)
    ensures
        aggregate@ == aggregate_of(outcome_views(results@)).into_week(),
        aggregate@.attempts() == results.len(),
{
    aggregate_results(results).into_week_aggregate()
}

/// Asks a fixed list of providers and aggregates what they say.
pub struct WeatherAggregateManager {
    providers: Vec<Box<dyn WeatherProvider>>,
}

impl WeatherAggregateManager {
    /// The number of providers that the manager asks.
    pub closed spec fn provider_count(&self) -> nat {
        self.providers@.len()
    }

    /// Makes the manager of the given providers.
    pub fn new(providers: Vec<Box<dyn WeatherProvider>>) -> (manager: Self)
        ensures
            manager.provider_count() == providers@.len(),
    {
        WeatherAggregateManager { providers }
    }

    /// Asks every provider for `location` and cuts what they say down to
    /// `date`. Whatever the providers say, each of them shows in the result
    /// once: with its forecast for the date, or with a warning.
    pub fn get_forecast_aggregate_at(&self, date: Date, location: &str) -> (aggregate:
        ForecastAggregate)
        ensures
            aggregate@.attempts() == self.provider_count(),
            exists|outcomes: Seq<Result<ForecastView, Seq<char>>>|
                outcomes.len() == self.provider_count() && aggregate@ == (#[trigger] aggregate_of(
                    outcomes,
                )).filter_by_date(date@),
    {
        let fetched = self.get_forecast_aggregate(location);
        let ghost outcomes = choose|outcomes: Seq<Result<ForecastView, Seq<char>>>|
            outcomes.len() == self.provider_count() && fetched@ == #[trigger] aggregate_of(
                outcomes,
            );
        let aggregate = fetched.filter_by_date(date);
        assert(aggregate@ == aggregate_of(outcomes).filter_by_date(date@));
        aggregate
    }

    /// Asks every provider for `location` and cuts what they say down to the
    /// first week. Whatever the providers say, each of them shows in the
    /// result once: with the first week of its forecast, or with a warning.
    pub fn get_forecast_aggregate_on_week(&self, location: &str) -> (aggregate: ForecastAggregate)
        ensures
            aggregate@.attempts() == self.provider_count(),
            exists|outcomes: Seq<Result<ForecastView, Seq<char>>>|
                outcomes.len() == self.provider_count() && aggregate@ == (#[trigger] aggregate_of(
                    outcomes,
                )).into_week(),
    {
        let fetched = self.get_forecast_aggregate(location);
        let ghost outcomes = choose|outcomes: Seq<Result<ForecastView, Seq<char>>>|
            outcomes.len() == self.provider_count() && fetched@ == #[trigger] aggregate_of(
                outcomes,
            );
        let aggregate = fetched.into_week_aggregate();
        assert(aggregate@ == aggregate_of(outcomes).into_week());
        aggregate
    }

    /// Asks every provider for `location` and aggregates what they say, in the
    /// order in which the providers stand.
    fn get_forecast_aggregate(&self, location: &str) -> (aggregate: ForecastAggregate)
        ensures
            aggregate@.attempts() == self.provider_count(),
            exists|outcomes: Seq<Result<ForecastView, Seq<char>>>|
                outcomes.len() == self.provider_count() && aggregate@ == #[trigger] aggregate_of(
                    outcomes,
                ),
    {
        let results = self.get_forecast_list(location);
        let ghost outcomes = outcome_views(results@);
        let aggregate = aggregate_results(results);
        assert(aggregate@ == aggregate_of(outcomes));
        aggregate
    }

    /// Asks every provider for `location`, in the order in which the providers
    /// stand, and waits for each of them.
    fn get_forecast_list(&self, location: &str) -> (results: Vec<Result<Forecast, ProviderError>>)
        ensures
            results.len() == self.provider_count(),
    {
        let mut results: Vec<Result<Forecast, ProviderError>> = Vec::new();
        let mut i: usize = 0;
        while i < self.providers.len()
            invariant
                i <= self.providers.len(),
                results.len() == i,
            decreases self.providers.len() - i,
        {
            results.push(self.providers[i].get_forecast(location));
            i += 1;
        }
        results
    }
}

/// The aggregate of attempts is built up attempt by attempt: that of no
/// attempt is empty, and one attempt more is taken in behind the others.
pub proof fn lemma_aggregate_of_fold(
    outcomes: Seq<Result<ForecastView, Seq<char>>>,
    outcome: Result<ForecastView, Seq<char>>,
)
    ensures
        aggregate_of(Seq::empty()) == AggregateView::empty(),
        aggregate_of(outcomes.push(outcome)) == aggregate_of(outcomes).with_outcome(outcome),
        aggregate_of(outcomes).attempts() == outcomes.len(),
    decreases outcomes.len(),
{
    let more = outcomes.push(outcome);
    assert(more.drop_last() =~= outcomes);
    assert(aggregate_of(more).forecasts =~= aggregate_of(outcomes).with_outcome(
        outcome,
    ).forecasts);
    assert(aggregate_of(more).warnings =~= aggregate_of(outcomes).with_outcome(outcome).warnings);
    if outcomes.len() > 0 {
        lemma_aggregate_of_fold(outcomes.drop_last(), outcomes.last());
        assert(outcomes.drop_last().push(outcomes.last()) =~= outcomes);
    }
}

} // verus!
