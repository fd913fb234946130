//! The provider Apixu.

use vstd::prelude::*;
use vstd::string::*;
use crate::date::Date;
use crate::entries::{entries_of, Temperature};
use crate::fail::Fail;
use crate::forecast::Forecast;
use crate::provider::utils::{ProviderRequest, RequestError};
use crate::provider::{ProviderError, ProviderErrorView, WeatherProviderResponse};

verus! {

/// The temperatures of one day.
#[derive(Debug)]
pub struct ApixuDay {
    pub avgtemp_c: Temperature,
    pub avgtemp_f: Temperature,
}

/// One day of the forecast.
#[derive(Debug)]
pub struct ApixuForecastDay {
    pub date: String,
    pub day: ApixuDay,
}

/// The days of the forecast.
#[derive(Debug)]
pub struct ApixuForecast {
    pub forecastday: Vec<ApixuForecastDay>,
}

/// The answer of Apixu.
#[derive(Debug)]
pub struct ApixuResponse {
    pub forecast: ApixuForecast,
}

/// The days of an answer as dated temperatures: each day's date with its mean
/// temperature in Celsius.
pub open spec fn apixu_entries(days: Seq<ApixuForecastDay>) -> Seq<(Seq<char>, int)> {
    Seq::new(days.len(), |i: int| (days[i].date@, days[i].day.avgtemp_c as int))
}

impl WeatherProviderResponse for ApixuResponse {
    open spec fn readable(&self) -> bool {
        true
    }

    open spec fn entries(&self) -> Seq<(Seq<char>, int)> {
        apixu_entries(self.forecast.forecastday@)
    }

    open spec fn provider_name(&self) -> Seq<char> {
        "Apixu"@
    }

    fn to_forecast(&self) -> (forecast: Option<Forecast>) {
        let days = &self.forecast.forecastday;
        let mut raw: Vec<(Date, Temperature)> = Vec::new();
        let mut i: usize = 0;
        while i < days.len()
            invariant
                i <= days.len(),
                raw.len() == i,
                forall|k: int|
                    0 <= k < i ==> (#[trigger] raw@[k]).0@ == days@[k].date@ && raw@[k].1
                        == days@[k].day.avgtemp_c,
            decreases days.len() - i,
        {
            raw.push((days[i].date.clone(), days[i].day.avgtemp_c));
            i += 1;
        }
        assert(entries_of(raw@) =~= apixu_entries(days@));
        Some(Forecast::new(raw, String::from_str(ApixuProvider::NAME)))
    }
}

/// The provider Apixu, asked with the key of an account.
pub struct ApixuProvider {
    key: String,
}

impl ApixuProvider {
    pub const BASE_URI: &'static str = "http://api.apixu.com/v1/forecast.json";

    pub const NAME: &'static str = "Apixu";

    /// The key of the account.
    pub closed spec fn key(&self) -> Seq<char> {
        self.key@
    }

    /// The address that is asked for the forecast of `location`.
    pub open spec fn request_url(&self, location: Seq<char>) -> Seq<char> {
        "http://api.apixu.com/v1/forecast.json"@ + "?key="@ + self.key() + "&q="@ + location
            + "&days=7"@
    }

    /// Makes the provider that asks with `key`.
    pub fn new(key: String) -> (provider: Self)
        ensures
            provider.key() == key@,
    {
        ApixuProvider { key }
    }

    /// The request for the forecast of the next seven days at `location`.
    pub fn build_request(&self, location: &str) -> (request: ProviderRequest)
        ensures
            request.url@ == self.request_url(location@),
            request.headers@.len() == 0,
    {
        let mut url = String::from_str(Self::BASE_URI);
        url.append("?key=");
        url.append(self.key.as_str());
        url.append("&q=");
        url.append(location);
        url.append("&days=7");
        ProviderRequest { url, headers: Vec::new() }
    }

    /// What is reported where the request could not even be made.
    pub fn request_refused() -> (error: ProviderError)
        ensures
            error@ == (ProviderErrorView::RequestError {
                reason: "Inner error!"@,
                provider_name: "Apixu"@,
            }),
    {
        ProviderError::RequestError {
            reason: String::from_str("Inner error!"),
            provider_name: String::from_str(Self::NAME),
        }
    }

    /// What is reported where the request failed with `error`.
    pub fn request_failed(error: RequestError) -> (reported: ProviderError)
        ensures
            reported@ == (ProviderErrorView::RequestError {
                reason: error.message(),
                provider_name: "Apixu"@,
            }),
    {
        ProviderError::RequestError {
            reason: error.to_string(),
            provider_name: String::from_str(Self::NAME),
        }
    }
}

} // verus!
