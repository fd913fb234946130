use weather_service::aggregate::ForecastAggregate;
use weather_service::entries::Temperature;
use weather_service::forecast::{Forecast, ForecastError};
use weather_service::provider::ProviderError;

fn celsius(degrees: f64) -> Temperature {
    (degrees * 1000.0).round() as Temperature
}

fn raw(entries: Vec<(&str, f64)>) -> Vec<(String, Temperature)> {
    entries.into_iter().map(|(date, degrees)| (String::from(date), celsius(degrees))).collect()
}

fn create_forecast() -> Forecast {
    Forecast::new(
        raw(vec![
            ("2019-03-01", 3.0),
            ("2019-03-02", 4.0),
            ("2019-03-03", 5.0),
            ("2019-03-04", 6.0),
            ("2019-03-05", 7.0),
            ("2019-03-06", 8.0),
            ("2019-03-07", 9.0),
        ]),
        String::from("test"),
    )
}

fn create_forecast_on_date(date: String, temp: f64) -> Forecast {
    Forecast::new(vec![(date, celsius(temp))], String::from("test"))
}

fn create_week_forecast() -> Forecast {
    Forecast::new(
        raw(vec![
            ("2019-03-01", 3.0),
            ("2019-03-02", 4.0),
            ("2019-03-03", 5.0),
            ("2019-03-04", 6.0),
            ("2019-03-05", 7.0),
        ]),
        String::from("test"),
    )
}

#[test]
fn test_forecast_aggregate_filter_by_date_work_as_expected() {
    let aggregate = ForecastAggregate::new(vec![create_forecast(), create_forecast()], vec![])
        .filter_by_date(String::from("2019-03-02"));

    assert_eq!(
        *aggregate.get_forecasts(),
        vec![
            create_forecast_on_date(String::from("2019-03-02"), 4.0),
            create_forecast_on_date(String::from("2019-03-02"), 4.0)
        ]
    );

    assert_eq!(aggregate.get_warnings().len(), 0);
}

#[test]
fn test_forecast_aggregate_filter_by_date_add_warnings_for_invalid_forecasts() {
    let aggregate = ForecastAggregate::new(
        vec![create_forecast(), create_forecast_on_date(String::from("2019-03-05"), 4.0)],
        vec![],
    )
    .filter_by_date(String::from("2019-03-02"));

    assert_eq!(
        *aggregate.get_forecasts(),
        vec![create_forecast_on_date(String::from("2019-03-02"), 4.0),]
    );

    assert_eq!(aggregate.get_warnings().len(), 1);
}

#[test]
fn test_forecast_aggregate_into_week_work_as_expected() {
    let aggregate = ForecastAggregate::new(vec![create_forecast(), create_forecast()], vec![])
        .into_week_aggregate();

    assert_eq!(*aggregate.get_forecasts(), vec![create_week_forecast(), create_week_forecast()]);

    assert_eq!(aggregate.get_warnings().len(), 0);
}

#[test]
fn test_forecast_aggregate_into_week_add_warnings_for_invalid_forecasts() {
    let aggregate = ForecastAggregate::new(
        vec![create_forecast(), create_forecast_on_date(String::from("2019-03-05"), 4.0)],
        vec![],
    )
    .into_week_aggregate();

    assert_eq!(*aggregate.get_forecasts(), vec![create_week_forecast()]);

    assert_eq!(aggregate.get_warnings().len(), 1);
}

#[test]
fn test_forecast_aggregate_average_forecast() {
    let aggregate = ForecastAggregate::new(vec![create_forecast(), create_forecast()], vec![]);

    assert_eq!(
        aggregate.calculate_average_forecast().unwrap().items(),
        create_forecast().items()
    );
}

#[test]
fn test_forecast_aggregate_average_forecast_2() {
    let aggregate = ForecastAggregate::new(
        vec![
            create_forecast(),
            Forecast::new(
                raw(vec![
                    ("2019-03-01", -3.0),
                    ("2019-03-02", -4.0),
                    ("2019-03-03", -5.0),
                    ("2019-03-04", -6.0),
                    ("2019-03-05", -7.0),
                    ("2019-03-06", -8.0),
                    ("2019-03-07", -9.0),
                ]),
                String::from("test"),
            ),
        ],
        vec![],
    );

    assert_eq!(
        aggregate.calculate_average_forecast().unwrap().items(),
        Forecast::new(
            raw(vec![
                ("2019-03-01", 0.0),
                ("2019-03-02", 0.0),
                ("2019-03-03", 0.0),
                ("2019-03-04", 0.0),
                ("2019-03-05", 0.0),
                ("2019-03-06", 0.0),
                ("2019-03-07", 0.0),
            ]),
            String::from("test"),
        )
        .items()
    );
}

#[test]
fn test_forecast_aggregate_average_forecast_return_none_if_no_forecasts() {
    let aggregate = ForecastAggregate::new(vec![], vec![]);

    assert!(aggregate.calculate_average_forecast().is_none());
}

#[test]
fn empty_holds_nothing() {
    let aggregate = ForecastAggregate::empty();
    assert!(aggregate.get_forecasts().is_empty());
    assert!(aggregate.get_warnings().is_empty());
    assert!(aggregate.calculate_average_forecast().is_none());
}

#[test]
fn average_of_warnings_alone_is_none() {
    let aggregate = ForecastAggregate::new(vec![], vec![String::from("no luck")]);
    assert!(aggregate.calculate_average_forecast().is_none());
    assert_eq!(*aggregate.get_warnings(), vec![String::from("no luck")]);
}

#[test]
fn with_forecast_collection_appends_in_order() {
    let aggregate = ForecastAggregate::new(
        vec![create_forecast_on_date(String::from("2019-03-01"), 1.0)],
        vec![String::from("w")],
    )
    .with_forecast_collection(vec![
        create_forecast_on_date(String::from("2019-03-02"), 2.0),
        create_forecast_on_date(String::from("2019-03-03"), 3.0),
    ]);
    assert_eq!(
        *aggregate.get_forecasts(),
        vec![
            create_forecast_on_date(String::from("2019-03-01"), 1.0),
            create_forecast_on_date(String::from("2019-03-02"), 2.0),
            create_forecast_on_date(String::from("2019-03-03"), 3.0),
        ]
    );
    assert_eq!(*aggregate.get_warnings(), vec![String::from("w")]);
}

#[test]
fn with_warning_collection_appends_in_order() {
    let aggregate = ForecastAggregate::new(vec![create_forecast()], vec![String::from("a")])
        .with_warning_collection(vec![String::from("b"), String::from("a")]);
    assert_eq!(
        *aggregate.get_warnings(),
        vec![String::from("a"), String::from("b"), String::from("a")]
    );
    assert_eq!(*aggregate.get_forecasts(), vec![create_forecast()]);
}

#[test]
fn with_forecast_result_adds_one_to_one_side() {
    let start = ForecastAggregate::new(vec![create_forecast()], vec![String::from("old")]);
    let ok: Result<Forecast, ForecastError> = Ok(create_week_forecast());
    let grown = start.with_forecast_result(ok);
    assert_eq!(grown.get_forecasts().len(), 2);
    assert_eq!(grown.get_warnings().len(), 1);
    assert_eq!(grown.get_forecasts()[1], create_week_forecast());

    let failed: Result<Forecast, ForecastError> =
        Err(ForecastError::ToShortForecast { provider_name: String::from("p") });
    let warned = grown.with_forecast_result(failed);
    assert_eq!(warned.get_forecasts().len(), 2);
    assert_eq!(
        *warned.get_warnings(),
        vec![String::from("old"), String::from("To short forecast for provider p !")]
    );
}

#[test]
fn with_forecast_result_takes_the_message_of_a_provider_error() {
    let failed: Result<Forecast, ProviderError> = Err(ProviderError::RequestError {
        reason: String::from("Request time out"),
        provider_name: String::from("Yahoo"),
    });
    let aggregate = ForecastAggregate::empty().with_forecast_result(failed);
    assert_eq!(
        *aggregate.get_warnings(),
        vec![String::from("Reason:Request time out, provider: Yahoo!")]
    );
    let unsupported: Result<Forecast, ProviderError> = Err(ProviderError::UnsupportedDate {
        date: String::from("2019-03-09"),
        provider_name: String::from("Apixu"),
    });
    let aggregate = aggregate.with_forecast_result(unsupported);
    assert_eq!(
        aggregate.get_warnings()[1],
        "Unsupported date 2019-03-09 for provider Apixu !"
    );
}

#[test]
fn filter_by_date_puts_new_warnings_before_old_ones() {
    let other = Forecast::new(raw(vec![("2019-03-05", 4.0)]), String::from("other"));
    let aggregate = ForecastAggregate::new(
        vec![other, create_forecast()],
        vec![String::from("first"), String::from("second")],
    )
    .filter_by_date(String::from("2019-03-02"));
    assert_eq!(
        *aggregate.get_warnings(),
        vec![
            String::from("Unsupported date 2019-03-02 for provider other !"),
            String::from("first"),
            String::from("second"),
        ]
    );
    assert_eq!(
        *aggregate.get_forecasts(),
        vec![create_forecast_on_date(String::from("2019-03-02"), 4.0)]
    );
}

#[test]
fn filter_by_date_twice_is_filter_by_date_once() {
    let date = String::from("2019-03-02");
    let once = ForecastAggregate::new(
        vec![create_forecast(), create_forecast_on_date(String::from("2019-03-05"), 4.0)],
        vec![String::from("old")],
    )
    .filter_by_date(date.clone());
    let forecasts = vec![create_forecast_on_date(date.clone(), 4.0)];
    let warnings = once.get_warnings().clone();
    assert_eq!(*once.get_forecasts(), forecasts);
    let twice = once.filter_by_date(date);
    assert_eq!(*twice.get_forecasts(), forecasts);
    assert_eq!(*twice.get_warnings(), warnings);
}

#[test]
fn into_week_aggregate_puts_new_warnings_before_old_ones() {
    let short = Forecast::new(raw(vec![("2019-03-05", 4.0)]), String::from("short"));
    let aggregate =
        ForecastAggregate::new(vec![short, create_forecast()], vec![String::from("old")])
            .into_week_aggregate();
    assert_eq!(
        *aggregate.get_warnings(),
        vec![String::from("To short forecast for provider short !"), String::from("old")]
    );
    assert_eq!(*aggregate.get_forecasts(), vec![create_week_forecast()]);
}

#[test]
fn average_divides_by_the_number_of_all_forecasts() {
    let aggregate = ForecastAggregate::new(
        vec![
            Forecast::new(raw(vec![("2019-03-01", 3.0), ("2019-03-02", 4.0)]), String::from("a")),
            Forecast::new(raw(vec![("2019-03-02", 6.0), ("2019-03-03", -9.0)]), String::from("b")),
            Forecast::new(raw(vec![("2019-03-02", 2.0)]), String::from("c")),
        ],
        vec![],
    );
    let average = aggregate.calculate_average_forecast().unwrap();
    assert_eq!(average.source_name(), "multiple");
    assert_eq!(
        *average.items(),
        vec![
            (String::from("2019-03-01"), 1000),
            (String::from("2019-03-02"), 4000),
            (String::from("2019-03-03"), -3000),
        ]
    );
}

#[test]
fn average_rounds_towards_zero() {
    let aggregate = ForecastAggregate::new(
        vec![
            Forecast::new(
                vec![(String::from("2019-03-01"), 7), (String::from("2019-03-02"), -7)],
                String::from("a"),
            ),
            Forecast::new(Vec::new(), String::from("b")),
        ],
        vec![],
    );
    let average = aggregate.calculate_average_forecast().unwrap();
    assert_eq!(
        *average.items(),
        vec![(String::from("2019-03-01"), 3), (String::from("2019-03-02"), -3)]
    );
}

#[test]
fn average_of_extreme_temperatures_does_not_overflow() {
    let hot = || Forecast::new(vec![(String::from("2019-03-01"), i64::MAX)], String::from("hot"));
    let cold = || Forecast::new(vec![(String::from("2019-03-01"), i64::MIN)], String::from("cold"));
    let all_hot = ForecastAggregate::new(vec![hot(), hot(), hot()], vec![]);
    assert_eq!(
        *all_hot.calculate_average_forecast().unwrap().items(),
        vec![(String::from("2019-03-01"), i64::MAX)]
    );
    let all_cold = ForecastAggregate::new(vec![cold(), cold(), cold()], vec![]);
    assert_eq!(
        *all_cold.calculate_average_forecast().unwrap().items(),
        vec![(String::from("2019-03-01"), i64::MIN)]
    );
    let mixed = ForecastAggregate::new(vec![hot(), cold()], vec![]);
    assert_eq!(
        *mixed.calculate_average_forecast().unwrap().items(),
        vec![(String::from("2019-03-01"), 0)]
    );
}

#[test]
fn average_of_one_forecast_is_that_forecast() {
    let aggregate = ForecastAggregate::new(vec![create_forecast()], vec![]);
    let average = aggregate.calculate_average_forecast().unwrap();
    assert_eq!(average.items(), create_forecast().items());
    assert_eq!(average.source_name(), "multiple");
}
