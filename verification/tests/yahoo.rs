use weather_service::fail::Fail;
use weather_service::provider::utils::{fetch_forecast_request, Fetched, RequestError};
use weather_service::provider::yahoo::{YahooDay, YahooLocation, YahooProvider, YahooResponse};
use weather_service::provider::apixu::{ApixuDay, ApixuForecast, ApixuForecastDay, ApixuResponse};
use weather_service::provider::WeatherProviderResponse;

fn provider() -> YahooProvider {
    YahooProvider::new(String::from("app"), String::from("s3cret"), String::from("userkey"))
}

fn response(timezone: &str, days: Vec<(i64, i64, i64)>) -> YahooResponse {
    YahooResponse {
        forecasts: days.into_iter().map(|(date, low, high)| YahooDay { date, low, high }).collect(),
        location: YahooLocation { timezone_id: String::from(timezone) },
    }
}

#[test]
fn forecast_url_names_the_location() {
    assert_eq!(
        provider().build_forecast_url("Moscow"),
        "https://weather-ydn-yql.media.yahoo.com/forecastrss?location=Moscow&format=json&u=c"
    );
}

#[test]
fn oauth_parameters_stand_in_the_order_of_their_names() {
    let parameters =
        YahooProvider::oauth_parameters("userkey", String::from("abcDEF0123"), 1551387600);
    let expected: Vec<(String, String)> = vec![
        ("oauth_consumer_key", "userkey"),
        ("oauth_nonce", "abcDEF0123"),
        ("oauth_signature_method", "HMAC-SHA1"),
        ("oauth_timestamp", "1551387600"),
        ("oauth_version", "1.0"),
    ]
    .into_iter()
    .map(|(name, value)| (String::from(name), String::from(value)))
    .collect();
    assert_eq!(parameters, expected);
    let mut sorted = parameters.clone();
    sorted.sort();
    assert_eq!(parameters, sorted);
}

#[test]
fn generated_oauth_parameters_have_a_new_word_and_the_time() {
    let parameters = YahooProvider::generate_oauth_parameters("userkey");
    assert_eq!(parameters.len(), 5);
    assert_eq!(parameters[0], (String::from("oauth_consumer_key"), String::from("userkey")));
    assert_eq!(parameters[1].0, "oauth_nonce");
    assert_eq!(parameters[1].1.len(), 10);
    assert!(parameters[1].1.chars().all(|c| c.is_ascii_alphanumeric()));
    assert_eq!(parameters[3].0, "oauth_timestamp");
    assert!(parameters[3].1.parse::<u64>().unwrap() > 1_500_000_000);
}

#[test]
fn base_string_is_method_address_and_query() {
    let parameters =
        YahooProvider::oauth_parameters("userkey", String::from("abcDEF0123"), 1551387600);
    assert_eq!(
        YahooProvider::build_base_string(&parameters, "Moscow"),
        "GET&https%3A%2F%2Fweather-ydn-yql.media.yahoo.com%2Fforecastrss&format%3Djson%26location\
         %3DMoscow%26oauth_consumer_key%3Duserkey%26oauth_nonce%3DabcDEF0123%26oauth_signature_method\
         %3DHMAC-SHA1%26oauth_timestamp%3D1551387600%26oauth_version%3D1.0%26u%3Dc"
    );
}

#[test]
fn base_string_without_parameters_has_only_the_fixed_query() {
    assert_eq!(
        YahooProvider::build_base_string(&Vec::new(), "a b"),
        "GET&https%3A%2F%2Fweather-ydn-yql.media.yahoo.com%2Fforecastrss&format%3Djson%26location\
         %3Da%20b%26u%3Dc"
    );
}

#[test]
fn authorization_token_signs_with_word_and_time() {
    let token = provider().authorization_token("Moscow", String::from("abcDEF0123"), 1551387600);
    assert_eq!(
        token.unwrap(),
        "OAuth oauth_consumer_key=userkey, oauth_nonce=abcDEF0123, \
         oauth_signature=Rrnb5AExhiCR0ehQW3GFYYXk2%2F0%3D, oauth_signature_method=HMAC-SHA1, \
         oauth_timestamp=1551387600, oauth_version=1.0"
    );
}

#[test]
fn authorization_token_encodes_what_is_not_plain() {
    let provider =
        YahooProvider::new(String::from("app"), String::from("p&ss w/rd"), String::from("k=y"));
    let token = provider.authorization_token("São Paulo, BR", String::from("0000000000"), 0);
    assert_eq!(
        token.unwrap(),
        "OAuth oauth_consumer_key=k%3Dy, oauth_nonce=0000000000, \
         oauth_signature=h9N+cg1A1J0CUAxTramS8jdLW9c%3D, oauth_signature_method=HMAC-SHA1, \
         oauth_timestamp=0, oauth_version=1.0"
    );
}

#[test]
fn authorization_token_of_empty_texts_and_the_last_moment() {
    let provider = YahooProvider::new(String::new(), String::new(), String::new());
    let token = provider.authorization_token("", String::from("ZZZZZZZZZZ"), u64::MAX);
    assert_eq!(
        token.unwrap(),
        "OAuth oauth_consumer_key=, oauth_nonce=ZZZZZZZZZZ, \
         oauth_signature=5oa1IlcjkxJcd83irX2hsHOjiAY%3D, oauth_signature_method=HMAC-SHA1, \
         oauth_timestamp=18446744073709551615, oauth_version=1.0"
    );
}

#[test]
fn authorization_token_signs_a_long_location() {
    let location = "x y".repeat(100_000);
    let token = provider().authorization_token(&location, String::from("abcDEF0123"), 0);
    assert!(token.unwrap().contains("oauth_signature="));
}

#[test]
fn build_authorization_token_has_all_six_parameters() {
    let token = provider().build_authorization_token("Moscow").unwrap();
    assert!(token.starts_with("OAuth oauth_consumer_key=userkey, oauth_nonce="));
    let fields: Vec<&str> = token["OAuth ".len()..].split(", ").collect();
    assert_eq!(fields.len(), 6);
    assert!(fields[2].starts_with("oauth_signature="));
    assert_eq!(fields[3], "oauth_signature_method=HMAC-SHA1");
    assert!(fields[4].starts_with("oauth_timestamp="));
    assert_eq!(fields[5], "oauth_version=1.0");
}

#[test]
fn build_request_carries_application_and_authorization() {
    let request = provider().build_request("Moscow").unwrap();
    assert_eq!(
        request.url,
        "https://weather-ydn-yql.media.yahoo.com/forecastrss?location=Moscow&format=json&u=c"
    );
    assert_eq!(request.headers.len(), 2);
    assert_eq!(request.headers[0], (String::from("X-Yahoo-App-Id"), String::from("app")));
    assert_eq!(request.headers[1].0, "Authorization");
    assert!(request.headers[1].1.starts_with("OAuth oauth_consumer_key=userkey, "));
}

#[test]
fn yahoo_reports_failures_under_its_name() {
    assert_eq!(
        YahooProvider::request_refused().to_string(),
        "Reason:Unknown error!, provider: Yahoo!"
    );
    assert_eq!(
        YahooProvider::request_failed(RequestError::ProviderTimeOut {}).to_string(),
        "Reason:Request time out, provider: Yahoo!"
    );
}

#[test]
fn yahoo_response_dates_each_day_in_the_time_zone_of_the_place() {
    let days = vec![(1551387600, 2000, 4000), (1551474000, -3000, -1000)];
    let moscow = response("Europe/Moscow", days.clone()).to_forecast().unwrap();
    assert_eq!(moscow.source_name(), "Yahoo");
    assert_eq!(
        *moscow.items(),
        vec![(String::from("2019-03-01"), 3000), (String::from("2019-03-02"), -2000)]
    );
    let new_york = response("America/New_York", days).to_forecast().unwrap();
    assert_eq!(
        *new_york.items(),
        vec![(String::from("2019-02-28"), 3000), (String::from("2019-03-01"), -2000)]
    );
}

#[test]
fn yahoo_response_dates_moments_before_1970() {
    let forecast = response("America/New_York", vec![(0, 0, 0)]).to_forecast().unwrap();
    assert_eq!(*forecast.items(), vec![(String::from("1969-12-31"), 0)]);
    let forecast = response("UTC", vec![(-1, 0, 0)]).to_forecast().unwrap();
    assert_eq!(*forecast.items(), vec![(String::from("1969-12-31"), 0)]);
}

#[test]
fn yahoo_response_takes_the_temperature_halfway() {
    let days = vec![
        (1551387600, 1000, 2001),
        (1551474000, -2001, -1000),
        (1551560400, 5000, 5000),
        (1551646800, 3000, 1000),
        (1551733200, i64::MIN, i64::MAX),
        (1551819600, i64::MAX, i64::MIN),
    ];
    let forecast = response("Europe/Moscow", days).to_forecast().unwrap();
    let temperatures: Vec<i64> = forecast.items().iter().map(|entry| entry.1).collect();
    assert_eq!(temperatures, vec![1500, -1501, 5000, 2000, -1, 0]);
}

#[test]
fn yahoo_response_of_two_days_on_one_date_keeps_the_later() {
    let days = vec![(1551387600, 1000, 3000), (1551391200, 5000, 7000)];
    let forecast = response("Europe/Moscow", days).to_forecast().unwrap();
    assert_eq!(*forecast.items(), vec![(String::from("2019-03-01"), 6000)]);
}

#[test]
fn yahoo_response_of_an_unknown_time_zone_cannot_be_read() {
    assert!(response("Nowhere/Land", vec![(1551387600, 0, 0)]).to_forecast().is_none());
    assert!(response("", vec![(1551387600, 0, 0)]).to_forecast().is_none());
}

#[test]
fn yahoo_response_of_a_moment_out_of_range_cannot_be_read() {
    assert!(response("Europe/Moscow", vec![(i64::MAX, 0, 0)]).to_forecast().is_none());
    assert!(response("Europe/Moscow", vec![(1551387600, 0, 0), (i64::MIN, 0, 0)])
        .to_forecast()
        .is_none());
}

#[test]
fn yahoo_response_without_days_is_an_empty_forecast() {
    let forecast = response("Nowhere/Land", Vec::new()).to_forecast().unwrap();
    assert!(forecast.items().is_empty());
    assert_eq!(forecast.source_name(), "Yahoo");
}

#[test]
fn fetch_forecast_request_maps_each_failure() {
    let timed_out: Fetched<YahooResponse> = Fetched::TimedOut;
    assert!(matches!(
        fetch_forecast_request(timed_out),
        Err(RequestError::ProviderTimeOut {})
    ));
    let unreadable: Fetched<YahooResponse> = Fetched::Unreadable;
    assert!(matches!(fetch_forecast_request(unreadable), Err(RequestError::UnknownError {})));
    let invalid: Fetched<YahooResponse> = Fetched::Invalid;
    assert!(matches!(fetch_forecast_request(invalid), Err(RequestError::InvalidResponse {})));
    let unknown_zone = Fetched::Answer(response("Nowhere/Land", vec![(1551387600, 0, 0)]));
    assert!(matches!(
        fetch_forecast_request(unknown_zone),
        Err(RequestError::InvalidResponse {})
    ));
}

#[test]
fn fetch_forecast_request_reads_an_answer() {
    let answer = Fetched::Answer(response("Europe/Moscow", vec![(1551387600, 2000, 4000)]));
    let forecast = fetch_forecast_request(answer).unwrap();
    assert_eq!(*forecast.items(), vec![(String::from("2019-03-01"), 3000)]);
    let answer = Fetched::Answer(ApixuResponse {
        forecast: ApixuForecast {
            forecastday: vec![ApixuForecastDay {
                date: String::from("2019-03-01"),
                day: ApixuDay { avgtemp_c: 1500, avgtemp_f: 34700 },
            }],
        },
    });
    let forecast = fetch_forecast_request(answer).unwrap();
    assert_eq!(forecast.source_name(), "Apixu");
    assert_eq!(*forecast.items(), vec![(String::from("2019-03-01"), 1500)]);
}
