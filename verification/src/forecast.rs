//! The forecast of one provider: a temperature for each of a number of dates.

use vstd::prelude::*;
use vstd::string::*;
use crate::date::{date_before, Date};
use crate::entries::{
    ascending, collected, entries_of, items_of, lemma_ascending_unique, lemma_collected_ascending,
    lemma_items_of_entry, locate, put, Temperature,
};
use crate::fail::Fail;

verus! {

/// Why a forecast could not be turned into the forecast that was asked for.
#[derive(Debug)]
pub enum ForecastError {
    /// The forecast has no entry for the date.
    UnsupportedDate { date: Date, provider_name: String },
    /// The forecast has too few entries for a week.
    ToShortForecast { provider_name: String },
}

/// What a [`ForecastError`] holds, as plain text.
pub enum ForecastErrorView {
    UnsupportedDate { date: Seq<char>, provider_name: Seq<char> },
    ToShortForecast { provider_name: Seq<char> },
}

impl View for ForecastError {
    type V = ForecastErrorView;

    open spec fn view(&self) -> ForecastErrorView {
        match self {
            ForecastError::UnsupportedDate { date, provider_name } => {
                ForecastErrorView::UnsupportedDate { date: date@, provider_name: provider_name@ }
            },
            ForecastError::ToShortForecast { provider_name } => {
                ForecastErrorView::ToShortForecast { provider_name: provider_name@ }
            },
        }
    }
}

impl ForecastErrorView {
    /// The message of the error.
    pub open spec fn message(self) -> Seq<char> {
        match self {
            ForecastErrorView::UnsupportedDate { date, provider_name } => {
                "Unsupported date "@ + date + " for provider "@ + provider_name + " !"@
            },
            ForecastErrorView::ToShortForecast { provider_name } => {
                "To short forecast for provider "@ + provider_name + " !"@
            },
        }
    }
}

impl Fail for ForecastError {
    open spec fn message(&self) -> Seq<char> {
        self@.message()
    }

    fn to_string(&self) -> (text: String) {
        match self {
            ForecastError::UnsupportedDate { date, provider_name } => {
                let mut text = String::from_str("Unsupported date ");
                text.append(date.as_str());
                text.append(" for provider ");
                text.append(provider_name.as_str());
                text.append(" !");
                text
            },
            ForecastError::ToShortForecast { provider_name } => {
                let mut text = String::from_str("To short forecast for provider ");
                text.append(provider_name.as_str());
                text.append(" !");
                text
            },
        }
    }
}

/// The number of entries in the forecast of a week: its first five days.
pub const WEEK_LENGTH: usize = 5;

/// What a [`Forecast`] holds: its entries in ascending order of date, and the
/// name of the provider it came from.
pub struct ForecastView {
    pub entries: Seq<(Seq<char>, int)>,
    pub source_name: Seq<char>,
}

impl ForecastView {
    /// The entries are in ascending order of date, so no date occurs twice.
    pub open spec fn wf(self) -> bool {
        ascending(self.entries)
    }

    /// The forecast as a mapping from date to temperature.
    pub open spec fn items(self) -> Map<Seq<char>, int> {
        items_of(self.entries)
    }

    /// The forecast has a temperature for `date`.
    pub open spec fn supports(self, date: Seq<char>) -> bool {
        self.items().contains_key(date)
    }

    /// The forecast cut down to `date` alone.
    pub open spec fn date_forecast(self, date: Seq<char>) -> ForecastView {
        ForecastView { entries: seq![(date, self.items()[date])], source_name: self.source_name }
    }

    /// What is reported where the forecast has nothing for `date`.
    pub open spec fn unsupported_date(self, date: Seq<char>) -> ForecastErrorView {
        ForecastErrorView::UnsupportedDate { date, provider_name: self.source_name }
    }

    /// The forecast reaches over a week.
    pub open spec fn covers_week(self) -> bool {
        self.entries.len() >= WEEK_LENGTH
    }

    /// The forecast cut down to its first week.
    pub open spec fn week_forecast(self) -> ForecastView {
        ForecastView {
            entries: self.entries.subrange(0, WEEK_LENGTH as int),
            source_name: self.source_name,
        }
    }

    /// What is reported where the forecast does not reach over a week.
    pub open spec fn too_short(self) -> ForecastErrorView {
        ForecastErrorView::ToShortForecast { provider_name: self.source_name }
    }
}

/// A temperature for each of a number of dates, with the name of the provider
/// that forecast them.
#[derive(Debug, PartialEq)]
pub struct Forecast {
    items: Vec<(Date, Temperature)>,
    source_name: String,
}

impl View for Forecast {
    type V = ForecastView;

    closed spec fn view(&self) -> ForecastView {
        ForecastView { entries: entries_of(self.items@), source_name: self.source_name@ }
    }
}

impl Forecast {
    /// Every forecast keeps its entries in ascending order of date.
    #[verifier::type_invariant]
    pub open spec fn well_formed(&self) -> bool {
        self@.wf()
    }

    /// Makes the forecast of the provider `source_name` from dated
    /// temperatures in any order. Where a date comes twice, the later entry
    /// counts. Entries that come in ascending order of date stay as they are.
    pub fn new(raw_forecast: Vec<(Date, Temperature)>, source_name: String) -> (forecast: Self)
        ensures
            forecast@.wf(),
            forecast@.items() == collected(entries_of(raw_forecast@)),
            forecast@.source_name == source_name@,
            ascending(entries_of(raw_forecast@)) ==> forecast@.entries == entries_of(
                raw_forecast@,
            ),
    {
        let ghost raw = entries_of(raw_forecast@);
        let mut items: Vec<(Date, Temperature)> = Vec::new();
        let mut i: usize = 0;
        assert(items_of(entries_of(items@)) =~= collected(raw.take(0)));
        while i < raw_forecast.len()
            invariant
                raw == entries_of(raw_forecast@),
                i <= raw_forecast.len(),
                ascending(entries_of(items@)),
                items_of(entries_of(items@)) == collected(raw.take(i as int)),
            decreases raw_forecast.len() - i,
        {
            let date = raw_forecast[i].0.clone();
            let temperature = raw_forecast[i].1;
            proof {
                let next = raw.take(i + 1);
                assert(next.drop_last() =~= raw.take(i as int));
                assert(next.last() == (date@, temperature as int));
            }
            put(&mut items, date, temperature);
            i += 1;
        }
        proof {
            assert(raw.take(i as int) =~= raw);
            if ascending(raw) {
                lemma_collected_ascending(raw);
                lemma_ascending_unique(entries_of(items@), raw);
            }
        }
        Forecast { items, source_name }
    }

    /// Makes a forecast of entries that already stand in ascending order.
    pub(crate) fn from_ascending(items: Vec<(Date, Temperature)>, source_name: String) -> (forecast:
        Self)
        requires
            ascending(entries_of(items@)),
        ensures
            forecast@.entries == entries_of(items@),
            forecast@.source_name == source_name@,
    {
        Forecast { items, source_name }
    }

    /// The entries of the forecast, in ascending order of date.
    pub fn items(&self) -> (items: &Vec<(Date, Temperature)>)
        ensures
            entries_of(items@) == self@.entries,
            self@.wf(),
    {
        proof {
            use_type_invariant(self);
        }
        &self.items
    }

    /// The name of the provider that made the forecast.
    pub fn source_name(&self) -> (name: &String)
        ensures
            name@ == self@.source_name,
    {
        &self.source_name
    }

    /// The temperature forecast for `date`, where there is one.
    pub fn get_temperature_at(&self, date: Date) -> (temperature: Option<&Temperature>)
        ensures
            match temperature {
                Some(t) => self@.supports(date@) && *t == self@.items()[date@],
                None => !self@.supports(date@),
            },
    {
        proof {
            use_type_invariant(self);
        }
        let (at, found) = locate(&self.items, date.as_str());
        if found {
            proof {
                lemma_items_of_entry(self@.entries, at as int);
            }
            Some(&self.items[at].1)
        } else {
            None
        }
    }

    /// Cuts the forecast down to `date` alone. Fails where the forecast has
    /// nothing for that date.
    pub fn into_date_forecast(self, date: Date) -> (outcome: Result<Forecast, ForecastError>)
        ensures
            match outcome {
                Ok(forecast) => self@.supports(date@) && forecast@ == self@.date_forecast(date@)
                    && forecast@.wf(),
                Err(error) => !self@.supports(date@) && error@ == self@.unsupported_date(date@),
            },
    {
        proof {
            use_type_invariant(&self);
        }
        let (at, found) = locate(&self.items, date.as_str());
        if found {
            proof {
                lemma_items_of_entry(self@.entries, at as int);
            }
            let temperature = self.items[at].1;
            let mut items: Vec<(Date, Temperature)> = Vec::new();
            items.push((date, temperature));
            assert(entries_of(items@) =~= seq![(date@, temperature as int)]);
            Ok(Forecast { items, source_name: self.source_name })
        } else {
            Err(ForecastError::UnsupportedDate { date, provider_name: self.source_name })
        }
    }

    /// Cuts the forecast down to its first week: the five earliest dates.
    /// Fails where the forecast has fewer.
    pub fn into_week_forecast(self) -> (outcome: Result<Forecast, ForecastError>)
        ensures
            match outcome {
                Ok(forecast) => self@.covers_week() && forecast@ == self@.week_forecast()
                    && forecast@.wf(),
                Err(error) => !self@.covers_week() && error@ == self@.too_short(),
            },
    {
        proof {
            use_type_invariant(&self);
        }
        let ghost whole = self@.entries;
        let mut items = self.items;
        let source_name = self.source_name;
        if items.len() >= WEEK_LENGTH {
            items.truncate(WEEK_LENGTH);
            proof {
                let week = entries_of(items@);
                assert(week =~= whole.subrange(0, WEEK_LENGTH as int));
                assert forall|i: int, j: int| 0 <= i < j < week.len() implies date_before(
                    (#[trigger] week[i]).0,
                    (#[trigger] week[j]).0,
                ) by {
                    assert(week[i] == whole[i]);
                    assert(week[j] == whole[j]);
                }
            }
            Ok(Forecast { items, source_name })
        } else {
            Err(ForecastError::ToShortForecast { provider_name: source_name })
        }
    }
}

/// The first week of a forecast that reaches over one holds five entries in
/// ascending order: the first five of the forecast, each of them dated before
/// every entry that was left out.
pub proof fn lemma_week_holds_earliest(forecast: ForecastView)
    requires
        forecast.wf(),
        forecast.covers_week(),
    ensures
        forecast.week_forecast().wf(),
        forecast.week_forecast().entries.len() == WEEK_LENGTH,
        forall|i: int|
            0 <= i < WEEK_LENGTH ==> #[trigger] forecast.week_forecast().entries[i]
                == forecast.entries[i],
        forall|i: int, j: int|
            0 <= i < WEEK_LENGTH <= j < forecast.entries.len() ==> date_before(
                (#[trigger] forecast.week_forecast().entries[i]).0,
                (#[trigger] forecast.entries[j]).0,
            ),
{
    let week = forecast.week_forecast().entries;
    assert forall|i: int, j: int| 0 <= i < j < week.len() implies date_before(
        (#[trigger] week[i]).0,
        (#[trigger] week[j]).0,
    ) by {
        assert(week[i] == forecast.entries[i]);
        assert(week[j] == forecast.entries[j]);
    }
    assert forall|i: int, j: int| 0 <= i < WEEK_LENGTH <= j < forecast.entries.len() implies date_before(
        (#[trigger] week[i]).0,
        (#[trigger] forecast.entries[j]).0,
    ) by {
        assert(week[i] == forecast.entries[i]);
    }
}

} // verus!
