//! Providers of forecasts, and the ways in which asking one can fail.

use vstd::prelude::*;
use vstd::string::*;
use crate::date::Date;
use crate::fail::Fail;
use crate::entries::collected;
use crate::forecast::Forecast;

pub mod apixu;
pub mod encoding;
pub mod signing;
pub mod yahoo;
pub mod utils;

verus! {

/// Why a provider gave no forecast.
#[derive(Debug)]
pub enum ProviderError {
    /// The request to the provider failed.
    RequestError { reason: String, provider_name: String },
    /// The provider has no forecast for the date.
    UnsupportedDate { date: Date, provider_name: String },
}

/// What a [`ProviderError`] holds, as plain text.
pub enum ProviderErrorView {
    RequestError { reason: Seq<char>, provider_name: Seq<char> },
    UnsupportedDate { date: Seq<char>, provider_name: Seq<char> },
}

impl View for ProviderError {
    type V = ProviderErrorView;

    open spec fn view(&self) -> ProviderErrorView {
        match self {
            ProviderError::RequestError { reason, provider_name } => {
                ProviderErrorView::RequestError { reason: reason@, provider_name: provider_name@ }
            },
            ProviderError::UnsupportedDate { date, provider_name } => {
                ProviderErrorView::UnsupportedDate { date: date@, provider_name: provider_name@ }
            },
        }
    }
}

impl ProviderErrorView {
    /// The message of the error.
    pub open spec fn message(self) -> Seq<char> {
        match self {
            ProviderErrorView::RequestError { reason, provider_name } => {
                "Reason:"@ + reason + ", provider: "@ + provider_name + "!"@
            },
            ProviderErrorView::UnsupportedDate { date, provider_name } => {
                "Unsupported date "@ + date + " for provider "@ + provider_name + " !"@
            },
        }
    }
}

impl Fail for ProviderError {
    open spec fn message(&self) -> Seq<char> {
        self@.message()
    }

    fn to_string(&self) -> (text: String) {
        match self {
            ProviderError::RequestError { reason, provider_name } => {
                let mut text = String::from_str("Reason:");
                text.append(reason.as_str());
                text.append(", provider: ");
                text.append(provider_name.as_str());
                text.append("!");
                text
            },
            ProviderError::UnsupportedDate { date, provider_name } => {
                let mut text = String::from_str("Unsupported date ");
                text.append(date.as_str());
                text.append(" for provider ");
                text.append(provider_name.as_str());
                text.append(" !");
                text
            },
        }
    }
}

/// The answer of a provider, in the provider's own form.
pub trait WeatherProviderResponse {
    /// The answer can be read as a forecast.
    spec fn readable(&self) -> bool;

    /// The dated temperatures of the answer, in the order in which it gives
    /// them.
    spec fn entries(&self) -> Seq<(Seq<char>, int)>;

    /// The name of the provider that answered.
    spec fn provider_name(&self) -> Seq<char>;

    /// The forecast that the answer holds, where it can be read as one. Where
    /// the answer has a date twice, the later entry counts.
    fn to_forecast(&self) -> (forecast: Option<Forecast>)
        ensures
            match forecast {
                Some(forecast) => self.readable() && forecast@.wf() && forecast@.items()
                    == collected(self.entries()) && forecast@.source_name == self.provider_name(),
                None => !self.readable(),
            },
    ;
}

/// A source of forecasts.
pub trait WeatherProvider {
    /// Asks for the forecast for `location`. Nothing is known of the answer
    /// beforehand: it is what the provider says at that moment.
    fn get_forecast(&self, location: &str) -> Result<Forecast, ProviderError>;
}

} // verus!
