use weather_service::fail::Fail;
use weather_service::provider::apixu::{
    ApixuDay, ApixuForecast, ApixuForecastDay, ApixuProvider, ApixuResponse,
};
use weather_service::provider::utils::RequestError;
use weather_service::provider::{ProviderError, WeatherProviderResponse};

fn apixu_day(date: &str, celsius: i64) -> ApixuForecastDay {
    ApixuForecastDay {
        date: String::from(date),
        day: ApixuDay { avgtemp_c: celsius, avgtemp_f: celsius * 9 / 5 + 32000 },
    }
}

#[test]
fn request_errors_have_their_messages() {
    assert_eq!(RequestError::UnknownError {}.to_string(), "Request Unknown error");
    assert_eq!(RequestError::ProviderTimeOut {}.to_string(), "Request time out");
    assert_eq!(RequestError::InvalidResponse {}.to_string(), "Invalid response (invalid location)");
}

#[test]
fn provider_errors_have_their_messages() {
    let request = ProviderError::RequestError {
        reason: String::from("Request time out"),
        provider_name: String::from("Apixu"),
    };
    assert_eq!(request.to_string(), "Reason:Request time out, provider: Apixu!");
    let date = ProviderError::UnsupportedDate {
        date: String::from("2019-03-11"),
        provider_name: String::from("Yahoo"),
    };
    assert_eq!(date.to_string(), "Unsupported date 2019-03-11 for provider Yahoo !");
}

#[test]
fn apixu_asks_for_seven_days_at_the_location() {
    let provider = ApixuProvider::new(String::from("k3y"));
    let request = provider.build_request("Moscow");
    assert_eq!(request.url, "http://api.apixu.com/v1/forecast.json?key=k3y&q=Moscow&days=7");
    assert!(request.headers.is_empty());
}

#[test]
fn apixu_reports_failures_under_its_name() {
    assert_eq!(
        ApixuProvider::request_refused().to_string(),
        "Reason:Inner error!, provider: Apixu!"
    );
    assert_eq!(
        ApixuProvider::request_failed(RequestError::InvalidResponse {}).to_string(),
        "Reason:Invalid response (invalid location), provider: Apixu!"
    );
}

#[test]
fn apixu_response_gives_the_mean_celsius_temperature_of_each_day() {
    let response = ApixuResponse {
        forecast: ApixuForecast {
            forecastday: vec![
                apixu_day("2019-03-02", 4000),
                apixu_day("2019-03-01", -3500),
                apixu_day("2019-03-03", 0),
            ],
        },
    };
    let forecast = response.to_forecast().unwrap();
    assert_eq!(forecast.source_name(), "Apixu");
    assert_eq!(
        *forecast.items(),
        vec![
            (String::from("2019-03-01"), -3500),
            (String::from("2019-03-02"), 4000),
            (String::from("2019-03-03"), 0),
        ]
    );
}
