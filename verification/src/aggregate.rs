//! The forecasts of several providers for one request, with a warning for
//! each forecast that could not be had or used.

use vstd::prelude::*;
use vstd::string::*;
use crate::average::{average_forecast, average_items};
use crate::date::Date;
use crate::entries::lemma_items_of_entry;
use crate::fail::Fail;
use crate::forecast::{Forecast, ForecastView};

verus! {

/// What a list of forecasts holds.
pub open spec fn forecast_views(forecasts: Seq<Forecast>) -> Seq<ForecastView> {
    Seq::new(forecasts.len(), |i: int| forecasts[i]@)
}

/// What a list of warnings holds.
pub open spec fn texts(warnings: Seq<String>) -> Seq<Seq<char>> {
    Seq::new(warnings.len(), |i: int| warnings[i]@)
}

/// What came of one attempt to get a forecast: the forecast, or the message of
/// the failure.
pub open spec fn outcome_view<E: Fail>(outcome: Result<Forecast, E>) -> Result<
    ForecastView,
    Seq<char>,
> {
    match outcome {
        Ok(forecast) => Ok(forecast@),
        Err(error) => Err(error.message()),
    }
}

/// The forecast cut down to `date`, where it has that date.
pub open spec fn kept_on_date(date: Seq<char>) -> spec_fn(ForecastView) -> Option<ForecastView> {
    |forecast: ForecastView|
        if forecast.supports(date) {
            Some(forecast.date_forecast(date))
        } else {
            None
        }
}

/// The warning that the forecast leaves where it lacks `date`.
pub open spec fn warned_on_date(date: Seq<char>) -> spec_fn(ForecastView) -> Option<Seq<char>> {
    |forecast: ForecastView|
        if forecast.supports(date) {
            None
        } else {
            Some(forecast.unsupported_date(date).message())
        }
}

/// The forecast cut down to its first week, where it reaches over one.
pub open spec fn kept_on_week() -> spec_fn(ForecastView) -> Option<ForecastView> {
    |forecast: ForecastView|
        if forecast.covers_week() {
            Some(forecast.week_forecast())
        } else {
            None
        }
}

/// The warning that the forecast leaves where it is shorter than a week.
pub open spec fn warned_on_week() -> spec_fn(ForecastView) -> Option<Seq<char>> {
    |forecast: ForecastView|
        if forecast.covers_week() {
            None
        } else {
            Some(forecast.too_short().message())
        }
}

/// What a [`ForecastAggregate`] holds: the forecasts in the order in which
/// they came, and the warnings in the order in which they arose.
pub struct AggregateView {
    pub forecasts: Seq<ForecastView>,
    pub warnings: Seq<Seq<char>>,
}

impl AggregateView {
    /// The aggregate of no attempt at all.
    pub open spec fn empty() -> AggregateView {
        AggregateView { forecasts: Seq::empty(), warnings: Seq::empty() }
    }

    /// The number of attempts that the aggregate accounts for.
    pub open spec fn attempts(self) -> nat {
        self.forecasts.len() + self.warnings.len()
    }

    /// The aggregate with `more` forecasts behind its own.
    pub open spec fn with_forecasts(self, more: Seq<ForecastView>) -> AggregateView {
        AggregateView { forecasts: self.forecasts + more, warnings: self.warnings }
    }

    /// The aggregate with `more` warnings behind its own.
    pub open spec fn with_warnings(self, more: Seq<Seq<char>>) -> AggregateView {
        AggregateView { forecasts: self.forecasts, warnings: self.warnings + more }
    }

    /// The aggregate with one more attempt: its forecast where it brought
    /// one, else the message of its failure as a warning.
    pub open spec fn with_outcome(self, outcome: Result<ForecastView, Seq<char>>) -> AggregateView {
        match outcome {
            Ok(forecast) => self.with_forecasts(seq![forecast]),
            Err(message) => self.with_warnings(seq![message]),
        }
    }

    /// The aggregate cut down to `date`. Each forecast that has the date is
    /// cut down to it. Each forecast that lacks it leaves a warning; these
    /// warnings stand before the ones that the aggregate already had.
    pub open spec fn filter_by_date(self, date: Seq<char>) -> AggregateView {
        AggregateView {
            forecasts: self.forecasts.filter_map(kept_on_date(date)),
            warnings: self.forecasts.filter_map(warned_on_date(date)) + self.warnings,
        }
    }

    /// The aggregate cut down to the first week. Each forecast that reaches
    /// over a week is cut down to it. Each forecast that is shorter leaves a
    /// warning; these warnings stand before the ones that the aggregate
    /// already had.
    pub open spec fn into_week(self) -> AggregateView {
        AggregateView {
            forecasts: self.forecasts.filter_map(kept_on_week()),
            warnings: self.forecasts.filter_map(warned_on_week()) + self.warnings,
        }
    }
}

/// The forecasts that one request brought, and a warning for each attempt
/// that brought none.
#[derive(Debug)]
pub struct ForecastAggregate {
    forecast_collection: Vec<Forecast>,
    warnings: Vec<String>,
}

impl View for ForecastAggregate {
    type V = AggregateView;

    closed spec fn view(&self) -> AggregateView {
        AggregateView {
            forecasts: forecast_views(self.forecast_collection@),
            warnings: texts(self.warnings@),
        }
    }
}

impl ForecastAggregate {
    /// Makes the aggregate of the given forecasts and warnings.
    pub fn new(forecast_collection: Vec<Forecast>, warnings: Vec<String>) -> (aggregate: Self)
        ensures
            aggregate@.forecasts == forecast_views(forecast_collection@),
            aggregate@.warnings == texts(warnings@),
    {
        ForecastAggregate { forecast_collection, warnings }
    }

    /// The aggregate of no attempt at all.
    pub fn empty() -> (aggregate: Self)
        ensures
            aggregate@ == AggregateView::empty(),
    {
        let aggregate = ForecastAggregate::new(Vec::new(), Vec::new());
        assert(aggregate@.forecasts =~= Seq::empty());
        assert(aggregate@.warnings =~= Seq::empty());
        aggregate
    }

    /// The warnings, in the order in which they arose.
    pub fn get_warnings(&self) -> (warnings: &Vec<String>)
        ensures
            texts(warnings@) == self@.warnings,
    {
        &self.warnings
    }

    /// The forecasts, in the order in which they came.
    pub fn get_forecasts(&self) -> (forecasts: &Vec<Forecast>)
        ensures
            forecast_views(forecasts@) == self@.forecasts,
    {
        &self.forecast_collection
    }

    /// Puts the forecasts of `forecast_c` behind those of the aggregate.
    pub fn with_forecast_collection(self, forecast_c: Vec<Forecast>) -> (aggregate: Self)
        ensures
            aggregate@ == self@.with_forecasts(forecast_views(forecast_c@)),
    {
        let mut forecast_collection = self.forecast_collection;
        let mut more = forecast_c;
        forecast_collection.append(&mut more);
        let aggregate = ForecastAggregate::new(forecast_collection, self.warnings);
        assert(aggregate@.forecasts =~= self@.forecasts + forecast_views(forecast_c@));
        aggregate
    }

    /// Puts the warnings of `warning_c` behind those of the aggregate.
    pub fn with_warning_collection(self, warning_c: Vec<String>) -> (aggregate: Self)
        ensures
            aggregate@ == self@.with_warnings(texts(warning_c@)),
    {
        let mut warnings = self.warnings;
        let mut more = warning_c;
        warnings.append(&mut more);
        let aggregate = ForecastAggregate::new(self.forecast_collection, warnings);
        assert(aggregate@.warnings =~= self@.warnings + texts(warning_c@));
        aggregate
    }

    /// Takes in what came of one attempt: the forecast where there is one,
    /// else the message of the failure as a warning. Either way the aggregate
    /// accounts for one attempt more, on exactly one of its two sides.
    pub fn with_forecast_result<E: Fail>(self, forecast_opt: Result<Forecast, E>) -> (aggregate:
        Self)
        ensures
            aggregate@ == self@.with_outcome(outcome_view(forecast_opt)),
            aggregate@.attempts() == self@.attempts() + 1,
            forecast_opt is Ok ==> aggregate@.forecasts.len() == self@.forecasts.len() + 1
                && aggregate@.warnings == self@.warnings,
            forecast_opt is Err ==> aggregate@.warnings.len() == self@.warnings.len() + 1
                && aggregate@.forecasts == self@.forecasts,
    {
        match forecast_opt {
            Ok(forecast) => {
                let mut one: Vec<Forecast> = Vec::new();
                one.push(forecast);
                assert(forecast_views(one@) =~= seq![forecast@]);
                self.with_forecast_collection(one)
            },
            Err(error) => {
                let mut one: Vec<String> = Vec::new();
                one.push(error.to_string());
                assert(texts(one@) =~= seq![error.message()]);
                self.with_warning_collection(one)
            },
        }
    }

    /// Cuts the aggregate down to `date`. Each forecast that has the date is
    /// cut down to it. Each forecast that lacks it leaves a warning; these
    /// warnings stand before the ones that the aggregate already had.
    pub fn filter_by_date(self, date: Date) -> (aggregate: Self)
        ensures
            aggregate@ == self@.filter_by_date(date@),
            aggregate@.attempts() == self@.attempts(),
    {
        let ghost forecasts = self@.forecasts;
        let mut aggregate = ForecastAggregate::empty();
        assert(forecasts.take(0).filter_map(kept_on_date(date@)) =~= Seq::empty());
        assert(forecasts.take(0).filter_map(warned_on_date(date@)) =~= Seq::empty());
        for forecast in it: self.forecast_collection
            invariant
                forecasts == forecast_views(it.seq()),
                aggregate@.forecasts == forecasts.take(it.index() as int).filter_map(
                    kept_on_date(date@),
                ),
                aggregate@.warnings == forecasts.take(it.index() as int).filter_map(
                    warned_on_date(date@),
                ),
                aggregate@.attempts() == it.index(),
        {
            let ghost i = it.index() as int;
            assert(forecasts[i] == forecast@);
            let outcome = forecast.into_date_forecast(date.clone());
            aggregate = aggregate.with_forecast_result(outcome);
            proof {
                forecasts.lemma_filter_map_take_succ(kept_on_date(date@), i);
                forecasts.lemma_filter_map_take_succ(warned_on_date(date@), i);
                assert(aggregate@.forecasts =~= forecasts.take(i + 1).filter_map(
                    kept_on_date(date@),
                ));
                assert(aggregate@.warnings =~= forecasts.take(i + 1).filter_map(
                    warned_on_date(date@),
                ));
            }
        }
        assert(forecasts.take(forecasts.len() as int) =~= forecasts);
        aggregate.with_warning_collection(self.warnings)
    }

    /// Cuts the aggregate down to the first week. Each forecast that reaches
    /// over a week is cut down to it. Each forecast that is shorter leaves a
    /// warning; these warnings stand before the ones that the aggregate
    /// already had.
    pub fn into_week_aggregate(self) -> (aggregate: Self)
        ensures
            aggregate@ == self@.into_week(),
            aggregate@.attempts() == self@.attempts(),
    {
        let ghost forecasts = self@.forecasts;
        let mut aggregate = ForecastAggregate::empty();
        assert(forecasts.take(0).filter_map(kept_on_week()) =~= Seq::empty());
        assert(forecasts.take(0).filter_map(warned_on_week()) =~= Seq::empty());
        for forecast in it: self.forecast_collection
            invariant
                forecasts == forecast_views(it.seq()),
                aggregate@.forecasts == forecasts.take(it.index() as int).filter_map(
                    kept_on_week(),
                ),
                aggregate@.warnings == forecasts.take(it.index() as int).filter_map(
                    warned_on_week(),
                ),
                aggregate@.attempts() == it.index(),
        {
            let ghost i = it.index() as int;
            assert(forecasts[i] == forecast@);
            let outcome = forecast.into_week_forecast();
            aggregate = aggregate.with_forecast_result(outcome);
            proof {
                forecasts.lemma_filter_map_take_succ(kept_on_week(), i);
                forecasts.lemma_filter_map_take_succ(warned_on_week(), i);
                assert(aggregate@.forecasts =~= forecasts.take(i + 1).filter_map(kept_on_week()));
                assert(aggregate@.warnings =~= forecasts.take(i + 1).filter_map(warned_on_week()));
            }
        }
        assert(forecasts.take(forecasts.len() as int) =~= forecasts);
        aggregate.with_warning_collection(self.warnings)
    }

    /// The average of the forecasts, date by date, under the name
    /// `multiple`; nothing where the aggregate holds no forecast.
    ///
    /// The average has an entry for every date that any forecast has. The sum
    /// of the temperatures for a date is divided by the number of all the
    /// forecasts of the aggregate, also where only some of them have the date,
    /// and rounded towards zero.
    pub fn calculate_average_forecast(&self) -> (average: Option<Forecast>)
        ensures
            match average {
                Some(forecast) => self@.forecasts.len() > 0 && forecast@.wf() && forecast@.items()
                    == average_items(self@.forecasts) && forecast@.source_name == "multiple"@,
                None => self@.forecasts.len() == 0,
            },
    {
        if self.forecast_collection.len() == 0 {
            return None;
        }
        Some(average_forecast(&self.forecast_collection, String::from_str("multiple")))
    }
}

/// The forecast has one entry, and it is for `date`.
pub open spec fn only_date(forecast: ForecastView, date: Seq<char>) -> bool {
    forecast.entries.len() == 1 && forecast.entries[0].0 == date
}

/// Taking in an attempt adds one to exactly one side of the aggregate: to the
/// forecasts where the attempt brought one, else to the warnings.
pub proof fn lemma_with_outcome_counts(
    aggregate: AggregateView,
    outcome: Result<ForecastView, Seq<char>>,
)
    ensures
        aggregate.with_outcome(outcome).attempts() == aggregate.attempts() + 1,
        outcome is Ok ==> aggregate.with_outcome(outcome).forecasts.len()
            == aggregate.forecasts.len() + 1 && aggregate.with_outcome(outcome).warnings
            == aggregate.warnings,
        outcome is Err ==> aggregate.with_outcome(outcome).warnings.len()
            == aggregate.warnings.len() + 1 && aggregate.with_outcome(outcome).forecasts
            == aggregate.forecasts,
{
}

/// Where each forecast is either kept or warned of, and never both, the kept
/// and the warnings together are as many as the forecasts.
proof fn lemma_kept_and_warned(
    forecasts: Seq<ForecastView>,
    kept: spec_fn(ForecastView) -> Option<ForecastView>,
    warned: spec_fn(ForecastView) -> Option<Seq<char>>,
)
    requires
        forall|forecast: ForecastView| #[trigger] kept(forecast) is Some <==> warned(forecast) is None,
    ensures
        forecasts.filter_map(kept).len() + forecasts.filter_map(warned).len() == forecasts.len(),
    decreases forecasts.len(),
{
    if forecasts.len() > 0 {
        lemma_kept_and_warned(forecasts.drop_last(), kept, warned);
        assert(kept(forecasts.last()) is Some <==> warned(forecasts.last()) is None);
    }
}

/// Cutting an aggregate down to a date loses no attempt: each forecast that
/// lacks the date leaves exactly one warning, each other forecast stays, and
/// the warnings that were there before follow the new ones unchanged.
pub proof fn lemma_filter_by_date_counts(aggregate: AggregateView, date: Seq<char>)
    ensures
        ({
            let cut = aggregate.filter_by_date(date);
            let fresh = cut.warnings.len() - aggregate.warnings.len();
            &&& cut.attempts() == aggregate.attempts()
            &&& cut.forecasts.len() + fresh == aggregate.forecasts.len()
            &&& cut.warnings.subrange(fresh, cut.warnings.len() as int) == aggregate.warnings
        }),
{
    let cut = aggregate.filter_by_date(date);
    let fresh = cut.warnings.len() - aggregate.warnings.len();
    lemma_kept_and_warned(aggregate.forecasts, kept_on_date(date), warned_on_date(date));
    assert(cut.warnings.subrange(fresh, cut.warnings.len() as int) =~= aggregate.warnings);
}

/// Cutting an aggregate down to the first week loses no attempt: each
/// forecast that is too short leaves exactly one warning, each other forecast
/// stays, and the warnings that were there before follow the new ones
/// unchanged.
pub proof fn lemma_into_week_counts(aggregate: AggregateView)
    ensures
        ({
            let cut = aggregate.into_week();
            let fresh = cut.warnings.len() - aggregate.warnings.len();
            &&& cut.attempts() == aggregate.attempts()
            &&& cut.forecasts.len() + fresh == aggregate.forecasts.len()
            &&& cut.warnings.subrange(fresh, cut.warnings.len() as int) == aggregate.warnings
        }),
{
    let cut = aggregate.into_week();
    let fresh = cut.warnings.len() - aggregate.warnings.len();
    lemma_kept_and_warned(aggregate.forecasts, kept_on_week(), warned_on_week());
    assert(cut.warnings.subrange(fresh, cut.warnings.len() as int) =~= aggregate.warnings);
}

/// A forecast that holds `date` alone stays as it is when it is cut down to
/// that date.
pub proof fn lemma_date_forecast_of_only_date(forecast: ForecastView, date: Seq<char>)
    requires
        only_date(forecast, date),
    ensures
        forecast.supports(date),
        forecast.date_forecast(date) == forecast,
{
    lemma_items_of_entry(forecast.entries, 0);
    assert(forecast.date_forecast(date).entries =~= forecast.entries);
}

/// What is left of forecasts that are cut down to `date` holds that date
/// alone.
pub proof fn lemma_kept_on_date_only_date(forecasts: Seq<ForecastView>, date: Seq<char>)
    ensures
        forall|i: int|
            0 <= i < forecasts.filter_map(kept_on_date(date)).len() ==> only_date(
                #[trigger] forecasts.filter_map(kept_on_date(date))[i],
                date,
            ),
    decreases forecasts.len(),
{
    let kept = forecasts.filter_map(kept_on_date(date));
    if forecasts.len() > 0 {
        let rest = forecasts.drop_last().filter_map(kept_on_date(date));
        lemma_kept_on_date_only_date(forecasts.drop_last(), date);
        assert forall|i: int| 0 <= i < kept.len() implies only_date(#[trigger] kept[i], date) by {
            if i < rest.len() {
                assert(kept[i] == rest[i]);
            } else {
                assert(kept[i] == forecasts.last().date_forecast(date));
            }
        }
    }
}

/// Forecasts that each hold `date` alone all stay, unchanged and without a
/// warning, when they are cut down to that date.
pub proof fn lemma_only_date_all_kept(forecasts: Seq<ForecastView>, date: Seq<char>)
    requires
        forall|i: int| 0 <= i < forecasts.len() ==> only_date(#[trigger] forecasts[i], date),
    ensures
        forecasts.filter_map(kept_on_date(date)) == forecasts,
        forecasts.filter_map(warned_on_date(date)) == Seq::<Seq<char>>::empty(),
    decreases forecasts.len(),
{
    if forecasts.len() > 0 {
        let rest = forecasts.drop_last();
        assert forall|i: int| 0 <= i < rest.len() implies only_date(#[trigger] rest[i], date) by {
            assert(rest[i] == forecasts[i]);
        }
        lemma_only_date_all_kept(rest, date);
        lemma_date_forecast_of_only_date(forecasts.last(), date);
        assert(forecasts.filter_map(kept_on_date(date)) =~= forecasts);
    } else {
        assert(forecasts.filter_map(kept_on_date(date)) =~= forecasts);
    }
}

/// An aggregate whose forecasts each hold `date` alone is left as it is when
/// it is cut down to that date.
pub proof fn lemma_filter_by_date_fixes(aggregate: AggregateView, date: Seq<char>)
    requires
        forall|i: int|
            0 <= i < aggregate.forecasts.len() ==> only_date(
                #[trigger] aggregate.forecasts[i],
                date,
            ),
    ensures
        aggregate.filter_by_date(date) == aggregate,
{
    lemma_only_date_all_kept(aggregate.forecasts, date);
    assert(aggregate.filter_by_date(date).warnings =~= aggregate.warnings);
}

/// Cutting an aggregate down to a date a second time changes nothing.
pub proof fn lemma_filter_by_date_idempotent(aggregate: AggregateView, date: Seq<char>)
    ensures
        aggregate.filter_by_date(date).filter_by_date(date) == aggregate.filter_by_date(date),
{
    lemma_kept_on_date_only_date(aggregate.forecasts, date);
    lemma_filter_by_date_fixes(aggregate.filter_by_date(date), date);
}

} // verus!
