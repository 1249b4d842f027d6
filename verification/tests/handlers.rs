use stormcastrs::decimal::Decimal;
use stormcastrs::error::AppError;
use stormcastrs::field::Field;
use stormcastrs::handler::{
    error_response, handle_health, handle_metrics, handle_weather_data, metrics, Response,
    EXPOSITION, TEXT_PLAIN,
};
use stormcastrs::metrics::Metrics;
use stormcastrs::values::GaugeWrite;

fn dec(text: &str) -> Decimal {
    Decimal::parse(text).expect("a decimal")
}

#[test]
fn weather_data_is_acknowledged() {
    let registry = Metrics::new().unwrap();
    let accepted = handle_weather_data(Ok(&registry), "tempf=72.456&humidity=45&id=7").unwrap();
    assert_eq!(accepted.body, "ok");
    assert_eq!(
        accepted.writes,
        vec![
            GaugeWrite { field: Field::Temperature, value: dec("72.5") },
            GaugeWrite { field: Field::Humidity, value: dec("45") },
        ]
    );
    let accepted = handle_weather_data(Ok(&registry), "").unwrap();
    assert_eq!(accepted.body, "ok");
    assert!(accepted.writes.is_empty());
}

#[test]
fn weather_data_that_is_misread_is_the_senders_fault() {
    let registry = Metrics::new().unwrap();
    let error = handle_weather_data(Ok(&registry), "humidity=45&tempf=notanumber").unwrap_err();
    assert_eq!(
        error,
        AppError::ParseError { key: "tempf".to_string(), value: "notanumber".to_string() }
    );
    let response = error_response(&error);
    assert_eq!(response.status, 400);
    assert_eq!(response.content_type, TEXT_PLAIN);
    assert_eq!(
        String::from_utf8(response.body).unwrap(),
        "failed to parse weather data: invalid value 'notanumber' for 'tempf'"
    );
    // nothing of the request reached the gauges
    assert_eq!(registry.gauge(Field::Humidity).gauge.get(), 0.0);
}

#[test]
fn weather_data_without_a_registry_is_a_server_error() {
    let cause = "failed to register metric 'x': boom".to_string();
    let error = handle_weather_data(Err(&cause), "tempf=72.5").unwrap_err();
    assert_eq!(
        error,
        AppError::MetricRegistrationError {
            name: "global",
            cause: "Error: failed to register metric 'x': boom".to_string()
        }
    );
    let response = error_response(&error);
    assert_eq!(response.status, 500);
    assert_eq!(
        String::from_utf8(response.body).unwrap(),
        "failed to register metric 'global': Error: failed to register metric 'x': boom"
    );
    // a misread value is reported first
    let error = handle_weather_data(Err(&cause), "tempf=bad").unwrap_err();
    assert!(matches!(error, AppError::ParseError { .. }));
}

#[test]
fn metrics_are_exposed_as_text() {
    let registry = Metrics::new().unwrap();
    registry.gauge(Field::Temperature).gauge.set(72.5);
    let response = handle_metrics(Ok(&registry)).unwrap();
    assert_eq!(response.status, 200);
    assert_eq!(response.content_type, "text/plain; version=0.0.4; charset=utf-8");
    assert_eq!(response.content_type, EXPOSITION);
    let body = String::from_utf8(response.body).unwrap();
    assert!(body.contains("weather_temperature_fahrenheit 72.5\n"));
    assert_eq!(body.into_bytes(), registry.encode().unwrap());
}

#[test]
fn metrics_without_a_registry_are_a_server_error() {
    let cause = "no registry".to_string();
    let error = handle_metrics(Err(&cause)).unwrap_err();
    assert_eq!(error.message(), "failed to register metric 'global': Error: no registry");
    assert_eq!(error_response(&error).status, 500);
}

#[test]
fn metrics_hands_the_registry_on() {
    let registry = Metrics::new().unwrap();
    assert!(std::ptr::eq(metrics(Ok(&registry)).unwrap(), &registry));
    let cause = "gone".to_string();
    assert_eq!(
        metrics(Err(&cause)).err(),
        Some(AppError::MetricRegistrationError { name: "global", cause: "Error: gone".to_string() })
    );
}

#[test]
fn health_is_always_ok() {
    assert_eq!(
        handle_health(),
        Response { status: 200, content_type: "text/plain; charset=utf-8", body: b"ok".to_vec() }
    );
}

#[test]
fn every_failure_has_its_wording_and_status() {
    let cases = [
        (
            AppError::ParseError { key: "uv".to_string(), value: "-1".to_string() },
            "failed to parse weather data: invalid value '-1' for 'uv'",
            400,
        ),
        (
            AppError::SerializeError("unsupported value".to_string()),
            "failed to serialize query params: unsupported value",
            400,
        ),
        (
            AppError::MetricsEncodeError("MetricFamily has no name".to_string()),
            "failed to encode metrics: MetricFamily has no name",
            500,
        ),
        (
            AppError::MetricRegistrationError {
                name: "weather_uv_index",
                cause: "Duplicate metrics collector registration attempted".to_string(),
            },
            "failed to register metric 'weather_uv_index': Duplicate metrics collector registration attempted",
            500,
        ),
        (
            AppError::ServerError("address in use".to_string()),
            "server error: address in use",
            500,
        ),
    ];
    for (error, message, status) in cases {
        assert_eq!(error.message(), message);
        assert_eq!(error.status(), status);
        let response = error_response(&error);
        assert_eq!(response.status, status);
        assert_eq!(response.content_type, TEXT_PLAIN);
        assert_eq!(response.body, message.as_bytes());
    }
}

#[test]
fn failures_with_other_letters_are_worded_in_utf8() {
    let error = AppError::ParseError { key: "tempf".to_string(), value: "zwölf°".to_string() };
    let response = error_response(&error);
    assert_eq!(
        String::from_utf8(response.body).unwrap(),
        "failed to parse weather data: invalid value 'zwölf°' for 'tempf'"
    );
}
