use weather_service::entries::Temperature;
use weather_service::fail::Fail;
use weather_service::forecast::{Forecast, ForecastError};

fn celsius(degrees: f64) -> Temperature {
    (degrees * 1000.0).round() as Temperature
}

fn raw(entries: Vec<(&str, f64)>) -> Vec<(String, Temperature)> {
    entries.into_iter().map(|(date, degrees)| (String::from(date), celsius(degrees))).collect()
}

fn create_forecast() -> Forecast {
    Forecast::new(
        raw(vec![
            ("2019-03-01", 3.0),
            ("2019-03-02", 4.0),
            ("2019-03-03", 5.0),
            ("2019-03-04", 6.0),
            ("2019-03-05", 7.0),
            ("2019-03-06", 8.0),
            ("2019-03-07", 9.0),
        ]),
        String::from("test"),
    )
}

#[test]
fn test_forecast_into_date_work_as_expected() {
    let forecast = create_forecast();

    let date_forecast = forecast.into_date_forecast(String::from("2019-03-02"));
    assert_eq!(*date_forecast.unwrap().items(), raw(vec![("2019-03-02", 4.0)]));
}

#[test]
fn test_forecast_into_date_fail_if_no_date() {
    let forecast = create_forecast();

    let date_forecast = forecast.into_date_forecast(String::from("2019-03-11"));
    assert!(date_forecast.is_err());
}

#[test]
fn test_forecast_into_week_work_as_expected() {
    let forecast = create_forecast();

    let week_forecast = forecast.into_week_forecast();
    assert_eq!(
        *week_forecast.unwrap().items(),
        raw(vec![
            ("2019-03-01", 3.0),
            ("2019-03-02", 4.0),
            ("2019-03-03", 5.0),
            ("2019-03-04", 6.0),
            ("2019-03-05", 7.0),
        ])
    );
}

#[test]
fn test_forecast_into_week_fail_if_forecast_to_short() {
    let forecast = Forecast::new(
        raw(vec![("2019-03-01", 3.0), ("2019-03-02", 4.0), ("2019-03-03", 5.0)]),
        String::from("test"),
    );

    let week_forecast = forecast.into_week_forecast();
    assert!(week_forecast.is_err());
}

#[test]
fn new_orders_entries_by_date() {
    let forecast = Forecast::new(
        raw(vec![("2019-03-03", 5.0), ("2019-03-01", 3.0), ("2019-03-02", 4.0)]),
        String::from("test"),
    );
    assert_eq!(
        *forecast.items(),
        raw(vec![("2019-03-01", 3.0), ("2019-03-02", 4.0), ("2019-03-03", 5.0)])
    );
    assert_eq!(forecast.source_name(), "test");
}

#[test]
fn new_keeps_the_later_entry_of_a_date() {
    let forecast = Forecast::new(
        raw(vec![("2019-03-02", 4.0), ("2019-03-01", 3.0), ("2019-03-02", -1.5)]),
        String::from("test"),
    );
    assert_eq!(*forecast.items(), raw(vec![("2019-03-01", 3.0), ("2019-03-02", -1.5)]));
}

#[test]
fn new_of_nothing_is_empty() {
    let forecast = Forecast::new(Vec::new(), String::from("test"));
    assert!(forecast.items().is_empty());
    assert_eq!(forecast.get_temperature_at(String::from("2019-03-01")), None);
}

#[test]
fn get_temperature_at_finds_every_date() {
    let forecast = create_forecast();
    assert_eq!(forecast.get_temperature_at(String::from("2019-03-01")), Some(&3000));
    assert_eq!(forecast.get_temperature_at(String::from("2019-03-04")), Some(&6000));
    assert_eq!(forecast.get_temperature_at(String::from("2019-03-07")), Some(&9000));
}

#[test]
fn get_temperature_at_misses_other_dates() {
    let forecast = create_forecast();
    assert_eq!(forecast.get_temperature_at(String::from("2019-02-28")), None);
    assert_eq!(forecast.get_temperature_at(String::from("2019-03-08")), None);
    assert_eq!(forecast.get_temperature_at(String::from("2019-03-0")), None);
    assert_eq!(forecast.get_temperature_at(String::from("2019-03-011")), None);
    assert_eq!(forecast.get_temperature_at(String::new()), None);
}

#[test]
fn into_date_forecast_keeps_the_source_name() {
    let forecast = create_forecast().into_date_forecast(String::from("2019-03-07")).unwrap();
    assert_eq!(forecast.source_name(), "test");
    assert_eq!(*forecast.items(), raw(vec![("2019-03-07", 9.0)]));
}

#[test]
fn into_date_forecast_names_date_and_provider_on_failure() {
    let error = create_forecast().into_date_forecast(String::from("2019-03-11")).unwrap_err();
    match &error {
        ForecastError::UnsupportedDate { date, provider_name } => {
            assert_eq!(date, "2019-03-11");
            assert_eq!(provider_name, "test");
        }
        other => panic!("unexpected error {:?}", other),
    }
    assert_eq!(error.to_string(), "Unsupported date 2019-03-11 for provider test !");
}

#[test]
fn into_week_forecast_of_exactly_five_days_keeps_all() {
    let days = raw(vec![
        ("2019-03-05", 7.0),
        ("2019-03-04", 6.0),
        ("2019-03-03", 5.0),
        ("2019-03-02", 4.0),
        ("2019-03-01", 3.0),
    ]);
    let week = Forecast::new(days, String::from("test")).into_week_forecast().unwrap();
    assert_eq!(week.items().len(), 5);
    assert_eq!(week.items()[0], (String::from("2019-03-01"), 3000));
    assert_eq!(week.items()[4], (String::from("2019-03-05"), 7000));
    assert_eq!(week.source_name(), "test");
}

#[test]
fn into_week_forecast_of_four_days_fails() {
    let days = raw(vec![
        ("2019-03-01", 3.0),
        ("2019-03-02", 4.0),
        ("2019-03-03", 5.0),
        ("2019-03-04", 6.0),
    ]);
    let error = Forecast::new(days, String::from("short")).into_week_forecast().unwrap_err();
    match &error {
        ForecastError::ToShortForecast { provider_name } => assert_eq!(provider_name, "short"),
        other => panic!("unexpected error {:?}", other),
    }
    assert_eq!(error.to_string(), "To short forecast for provider short !");
}

#[test]
fn into_week_forecast_takes_the_earliest_dates_whatever_the_input_order() {
    let days = raw(vec![
        ("2019-03-07", 9.0),
        ("2019-03-01", 3.0),
        ("2019-03-06", 8.0),
        ("2019-03-02", 4.0),
        ("2019-03-05", 7.0),
        ("2019-03-03", 5.0),
        ("2019-03-04", 6.0),
    ]);
    let week = Forecast::new(days, String::from("test")).into_week_forecast().unwrap();
    assert_eq!(
        *week.items(),
        raw(vec![
            ("2019-03-01", 3.0),
            ("2019-03-02", 4.0),
            ("2019-03-03", 5.0),
            ("2019-03-04", 6.0),
            ("2019-03-05", 7.0),
        ])
    );
}
