//! What providers have in common.

use vstd::prelude::*;
use vstd::string::*;
use crate::entries::collected;
use crate::fail::Fail;
use crate::forecast::Forecast;
use crate::provider::WeatherProviderResponse;

verus! {

/// Why a request to a provider brought no forecast.
#[derive(Debug)]
pub enum RequestError {
    /// The answer could not be read.
    UnknownError {  },
    /// The provider did not answer in time.
    ProviderTimeOut {  },
    /// The answer is not a forecast.
    InvalidResponse {  },
}

/// A request to a provider, ready to be sent: where it goes, and the headers
/// that go with it.
#[derive(Debug)]
pub struct ProviderRequest {
    pub url: String,
    pub headers: Vec<(String, String)>,
}

impl Fail for RequestError {
    open spec fn message(&self) -> Seq<char> {
        match self {
            RequestError::UnknownError {  } => "Request Unknown error"@,
            RequestError::ProviderTimeOut {  } => "Request time out"@,
            RequestError::InvalidResponse {  } => "Invalid response (invalid location)"@,
        }
    }

    fn to_string(&self) -> (text: String) {
        match self {
            RequestError::UnknownError {  } => String::from_str("Request Unknown error"),
            RequestError::ProviderTimeOut {  } => String::from_str("Request time out"),
            RequestError::InvalidResponse {  } => String::from_str(
                "Invalid response (invalid location)",
            ),
        }
    }
}

/// What came of sending a request to a provider.
#[derive(Debug)]
pub enum Fetched<T> {
    /// No answer came in time.
    TimedOut,
    /// An answer came, and its body could not be read.
    Unreadable,
    /// The body is not an answer of the provider.
    Invalid,
    /// The answer of the provider.
    Answer(T),
}

/// Turns what came of a request into the forecast or the failure that it
/// amounts to. An answer that cannot be read as a forecast counts as invalid.
pub fn fetch_forecast_request<T: WeatherProviderResponse>(fetched: Fetched<T>) -> (outcome: Result<
    Forecast,
    RequestError,
>)
    ensures
        match outcome {
            Ok(forecast) => fetched matches Fetched::Answer(answer) && answer.readable()
                && forecast@.wf() && forecast@.items() == collected(answer.entries())
                && forecast@.source_name == answer.provider_name(),
            Err(RequestError::ProviderTimeOut {  }) => fetched is TimedOut,
            Err(RequestError::UnknownError {  }) => fetched is Unreadable,
            Err(RequestError::InvalidResponse {  }) => fetched is Invalid || (
            fetched matches Fetched::Answer(answer) && !answer.readable()),
        },
{
    match fetched {
        Fetched::TimedOut => Err(RequestError::ProviderTimeOut {  }),
        Fetched::Unreadable => Err(RequestError::UnknownError {  }),
        Fetched::Invalid => Err(RequestError::InvalidResponse {  }),
        Fetched::Answer(answer) => match answer.to_forecast() {
            Some(forecast) => Ok(forecast),
            None => Err(RequestError::InvalidResponse {  }),
        },
    }
}

} // verus!
