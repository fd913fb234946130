//! The average of several forecasts, date by date.
//!
//! The average has an entry for every date that any of the forecasts has. Its
//! temperature is the sum of what the forecasts give for that date, divided by
//! the number of all the forecasts, also of those that have nothing for the
//! date. A date that only some forecasts cover is thereby drawn towards zero.

use vstd::prelude::*;
use crate::date::Date;
use crate::entries::{
    ascending, dated_at, entries_of, items_of, lemma_items_of_entry, locate, put, Temperature,
};
use crate::forecast::{Forecast, ForecastView};
use crate::aggregate::forecast_views;

verus! {

/// What `forecast` adds to the sum for `date`: its temperature for the date,
/// or nothing where it has none.
pub open spec fn share(forecast: ForecastView, date: Seq<char>) -> int {
    if forecast.supports(date) {
        forecast.items()[date]
    } else {
        0
    }
}

/// The sum of the temperatures that the forecasts give for `date`.
pub open spec fn total_at(forecasts: Seq<ForecastView>, date: Seq<char>) -> int
    decreases forecasts.len(),
{
    if forecasts.len() == 0 {
        0
    } else {
        total_at(forecasts.drop_last(), date) + share(forecasts.last(), date)
    }
}

/// `total` divided by `count`, rounded towards zero.
pub open spec fn quotient(total: int, count: int) -> int {
    if total >= 0 {
        total / count
    } else {
        -((-total) / count)
    }
}

/// Forecast `i` has a temperature for `date`.
pub open spec fn covered_by(forecasts: Seq<ForecastView>, date: Seq<char>, i: int) -> bool {
    0 <= i < forecasts.len() && forecasts[i].supports(date)
}

/// At least one of the forecasts has a temperature for `date`.
pub open spec fn covered(forecasts: Seq<ForecastView>, date: Seq<char>) -> bool {
    exists|i: int| covered_by(forecasts, date, i)
}

/// The average of the forecasts as a mapping from date to temperature.
pub open spec fn average_items(forecasts: Seq<ForecastView>) -> Map<Seq<char>, int> {
    Map::new(
        |date: Seq<char>| covered(forecasts, date),
        |date: Seq<char>| quotient(total_at(forecasts, date), forecasts.len() as int),
    )
}

/// The least and the greatest temperature that an entry can hold.
pub open spec fn in_range(temperature: int) -> bool {
    -0x8000_0000_0000_0000 <= temperature <= 0x7fff_ffff_ffff_ffff
}

/// The dates that any of the forecasts covers, in ascending order, each with
/// the temperature zero.
fn all_dates(forecasts: &Vec<Forecast>) -> (dates: Vec<(Date, Temperature)>)
    ensures
        ascending(entries_of(dates@)),
        forall|date: Seq<char>|
            items_of(entries_of(dates@)).contains_key(date) <==> covered(
                forecast_views(forecasts@),
                date,
            ),
{
    let ghost views = forecast_views(forecasts@);
    let mut dates: Vec<(Date, Temperature)> = Vec::new();
    let mut i: usize = 0;
    proof {
        assert forall|date: Seq<char>|
            items_of(entries_of(dates@)).contains_key(date) == covered(views.take(0), date) by {
            if items_of(entries_of(dates@)).contains_key(date) {
                let k = choose|k: int| dated_at(entries_of(dates@), date, k);
            }
            if covered(views.take(0), date) {
                let k = choose|k: int| covered_by(views.take(0), date, k);
            }
        }
    }
    while i < forecasts.len()
        invariant
            views == forecast_views(forecasts@),
            i <= forecasts.len(),
            ascending(entries_of(dates@)),
            forall|date: Seq<char>|
                items_of(entries_of(dates@)).contains_key(date) <==> covered(
                    views.take(i as int),
                    date,
                ),
        decreases forecasts.len() - i,
    {
        let items = forecasts[i].items();
        let ghost entries = views[i as int].entries;
        let mut j: usize = 0;
        while j < items.len()
            invariant
                views == forecast_views(forecasts@),
                i < forecasts.len(),
                entries == views[i as int].entries,
                entries == entries_of(items@),
                j <= items.len(),
                ascending(entries_of(dates@)),
                forall|date: Seq<char>|
                    items_of(entries_of(dates@)).contains_key(date) <==> (covered(
                        views.take(i as int),
                        date,
                    ) || exists|k: int| 0 <= k < j && dated_at(entries, date, k)),
            decreases items.len() - j,
        {
            let ghost before = items_of(entries_of(dates@));
            let date = items[j].0.clone();
            put(&mut dates, date, 0);
            proof {
                let after = items_of(entries_of(dates@));
                assert(after == before.insert(date@, 0));
                assert(entries[j as int].0 == date@);
                assert forall|d: Seq<char>|
                    after.contains_key(d) == (covered(views.take(i as int), d) || exists|k: int|
                        0 <= k < j + 1 && dated_at(entries, d, k)) by {
                    if before.contains_key(d) && !covered(views.take(i as int), d) {
                        let k = choose|k: int| 0 <= k < j && dated_at(entries, d, k);
                        assert(0 <= k < j + 1 && dated_at(entries, d, k));
                    }
                    if d == date@ {
                        assert(0 <= j < j + 1 && dated_at(entries, d, j as int));
                    }
                    if exists|k: int| 0 <= k < j + 1 && dated_at(entries, d, k) {
                        let k = choose|k: int| 0 <= k < j + 1 && dated_at(entries, d, k);
                        if k < j {
                            assert(0 <= k < j && dated_at(entries, d, k));
                        }
                    }
                }
            }
            j += 1;
        }
        proof {
            let now = items_of(entries_of(dates@));
            let done = views.take(i as int);
            let next = views.take(i + 1);
            assert forall|d: Seq<char>| now.contains_key(d) == covered(next, d) by {
                if covered(done, d) {
                    let k = choose|k: int| covered_by(done, d, k);
                    assert(covered_by(next, d, k));
                }
                if exists|k: int| 0 <= k < j && dated_at(entries, d, k) {
                    let k = choose|k: int| 0 <= k < j && dated_at(entries, d, k);
                    assert(dated_at(entries, d, k));
                    assert(covered_by(next, d, i as int));
                }
                if covered(next, d) {
                    let k = choose|k: int| covered_by(next, d, k);
                    if k < i {
                        assert(covered_by(done, d, k));
                    } else {
                        let m = choose|m: int| dated_at(entries, d, m);
                        assert(0 <= m < j && dated_at(entries, d, m));
                    }
                }
            }
        }
        i += 1;
    }
    assert(views.take(i as int) =~= views);
    dates
}

/// The sum of the temperatures that the forecasts give for `date`.
fn total_temperature(forecasts: &Vec<Forecast>, date: &str) -> (total: i128)
    ensures
        total == total_at(forecast_views(forecasts@), date@),
        -0x8000_0000_0000_0000 * forecasts.len() <= total <= 0x7fff_ffff_ffff_ffff
            * forecasts.len(),
{
    let ghost views = forecast_views(forecasts@);
    let mut total: i128 = 0;
    let mut i: usize = 0;
    assert(views.take(0).len() == 0);
    while i < forecasts.len()
        invariant
            views == forecast_views(forecasts@),
            i <= forecasts.len(),
            total == total_at(views.take(i as int), date@),
            -0x8000_0000_0000_0000 * i <= total <= 0x7fff_ffff_ffff_ffff * i,
        decreases forecasts.len() - i,
    {
        let items = forecasts[i].items();
        let (at, found) = locate(items, date);
        proof {
            let next = views.take(i + 1);
            assert(next.drop_last() =~= views.take(i as int));
            assert(next.last() == views[i as int]);
            if found {
                lemma_items_of_entry(views[i as int].entries, at as int);
            }
        }
        if found {
            let temperature: Temperature = items[at].1;
            assert(share(views[i as int], date@) == temperature);
            total = total + temperature as i128;
        }
        i += 1;
    }
    assert(views.take(i as int) =~= views);
    total
}

/// `total` divided by `count`, rounded towards zero.
fn mean(total: i128, count: usize) -> (mean: Temperature)
    requires
        count > 0,
        -0x8000_0000_0000_0000 * count <= total <= 0x7fff_ffff_ffff_ffff * count,
    ensures
        mean == quotient(total as int, count as int),
{
    let divisor: u128 = count as u128;
    if total >= 0 {
        let dividend: u128 = total as u128;
        assert(dividend / divisor <= 0x7fff_ffff_ffff_ffff) by (nonlinear_arith)
            requires
                divisor > 0,
                dividend <= 0x7fff_ffff_ffff_ffff * divisor,
        ;
        (dividend / divisor) as i64
    } else {
        let dividend: u128 = (-total) as u128;
        assert(dividend / divisor <= 0x8000_0000_0000_0000) by (nonlinear_arith)
            requires
                divisor > 0,
                dividend <= 0x8000_0000_0000_0000 * divisor,
        ;
        let magnitude: i128 = (dividend / divisor) as i128;
        (-magnitude) as i64
    }
}

/// The average of the forecasts, under the name `source_name`.
pub(crate) fn average_forecast(forecasts: &Vec<Forecast>, source_name: String) -> (average:
    Forecast)
    requires
        forecasts.len() > 0,
    ensures
        average@.wf(),
        average@.items() == average_items(forecast_views(forecasts@)),
        average@.source_name == source_name@,
{
    let ghost views = forecast_views(forecasts@);
    let dates = all_dates(forecasts);
    let ghost days = entries_of(dates@);
    let mut items: Vec<(Date, Temperature)> = Vec::new();
    let mut k: usize = 0;
    while k < dates.len()
        invariant
            views == forecast_views(forecasts@),
            forecasts.len() > 0,
            days == entries_of(dates@),
            k <= dates.len(),
            items.len() == k,
            forall|m: int|
                0 <= m < k ==> #[trigger] entries_of(items@)[m] == (
                    days[m].0,
                    quotient(total_at(views, days[m].0), views.len() as int),
                ),
        decreases dates.len() - k,
    {
        let date = dates[k].0.clone();
        let total = total_temperature(forecasts, date.as_str());
        let temperature = mean(total, forecasts.len());
        let ghost before = entries_of(items@);
        items.push((date, temperature));
        proof {
            let after = entries_of(items@);
            assert forall|m: int| 0 <= m < k + 1 implies #[trigger] after[m] == (
                days[m].0,
                quotient(total_at(views, days[m].0), views.len() as int),
            ) by {
                if m < k {
                    assert(after[m] == before[m]);
                }
            }
        }
        k += 1;
    }
    proof {
        let entries = entries_of(items@);
        assert forall|i: int, j: int| 0 <= i < j < entries.len() implies crate::date::date_before(
            (#[trigger] entries[i]).0,
            (#[trigger] entries[j]).0,
        ) by {
            assert(entries[i].0 == days[i].0);
            assert(entries[j].0 == days[j].0);
        }
        assert forall|d: Seq<char>|
            items_of(entries).contains_key(d) == average_items(views).contains_key(d) by {
            if items_of(entries).contains_key(d) {
                let m = choose|m: int| dated_at(entries, d, m);
                assert(dated_at(days, d, m));
            }
            if covered(views, d) {
                assert(items_of(days).contains_key(d));
                let m = choose|m: int| dated_at(days, d, m);
                assert(dated_at(entries, d, m));
            }
        }
        assert forall|d: Seq<char>| items_of(entries).contains_key(d) implies items_of(
            entries,
        )[d] == average_items(views)[d] by {
            let m = choose|m: int| dated_at(entries, d, m);
            lemma_items_of_entry(entries, m);
        }
        assert(items_of(entries) =~= average_items(views));
    }
    Forecast::from_ascending(items, source_name)
}

/// The average of a forecast with itself is that forecast.
pub proof fn lemma_average_of_twins(forecast: ForecastView)
    ensures
        average_items(seq![forecast, forecast]) == forecast.items(),
{
    let twins = seq![forecast, forecast];
    assert forall|date: Seq<char>|
        average_items(twins).contains_key(date) == forecast.items().contains_key(date) by {
        if covered(twins, date) {
            let i = choose|i: int| covered_by(twins, date, i);
        }
        if forecast.supports(date) {
            assert(covered_by(twins, date, 0));
        }
    }
    assert forall|date: Seq<char>| forecast.items().contains_key(date) implies average_items(
        twins,
    )[date] == forecast.items()[date] by {
        lemma_total_of_two(forecast, forecast, date);
    }
    assert(average_items(twins) =~= forecast.items());
}

/// The sum over two forecasts is what the one gives and what the other gives.
pub proof fn lemma_total_of_two(first: ForecastView, second: ForecastView, date: Seq<char>)
    ensures
        total_at(seq![first, second], date) == share(first, date) + share(second, date),
{
    let both = seq![first, second];
    assert(both.drop_last() =~= seq![first]);
    assert(seq![first].drop_last() =~= Seq::<ForecastView>::empty());
    reveal_with_fuel(total_at, 3);
}

/// Where two forecasts give opposite temperatures for a date, their average
/// for that date is zero.
pub proof fn lemma_average_of_opposites(first: ForecastView, second: ForecastView, date: Seq<char>)
    requires
        first.supports(date),
        second.supports(date),
        second.items()[date] == -first.items()[date],
    ensures
        average_items(seq![first, second]).contains_key(date),
        average_items(seq![first, second])[date] == 0,
{
    assert(covered_by(seq![first, second], date, 0));
    lemma_total_of_two(first, second, date);
}

/// A date that only one of two forecasts covers still has its temperature
/// divided by two.
pub proof fn lemma_average_of_lone_date(first: ForecastView, second: ForecastView, date: Seq<char>)
    requires
        first.supports(date),
        !second.supports(date),
    ensures
        average_items(seq![first, second]).contains_key(date),
        average_items(seq![first, second])[date] == quotient(first.items()[date], 2),
{
    assert(covered_by(seq![first, second], date, 0));
    lemma_total_of_two(first, second, date);
}

} // verus!
