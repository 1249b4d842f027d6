use stormcastrs::config::Config;
use stormcastrs::decimal::{round, Decimal};
use stormcastrs::error::AppError;
use stormcastrs::field::Field;
use stormcastrs::metrics::Metrics;
use stormcastrs::values::GaugeWrite;
use stormcastrs::weather::WeatherData;

fn dec(text: &str) -> Decimal {
    Decimal::parse(text).expect("a decimal")
}

fn perform(metrics: &Metrics, writes: &[GaugeWrite]) {
    for write in writes {
        metrics
            .gauge(write.field)
            .gauge
            .set(write.value.units() as f64 / 10_000.0);
    }
}

fn get(metrics: &Metrics, field: Field) -> f64 {
    metrics.gauge(field).gauge.get()
}

#[test]
fn test_round() {
    assert_eq!(round(dec("72.456"), 1), dec("72.5"));
    assert_eq!(round(dec("72.444"), 1), dec("72.4"));
    assert_eq!(round(dec("0.123456"), 3), dec("0.123"));
    assert_eq!(round(dec("0.1239"), 3), dec("0.124"));
}

#[test]
fn test_weather_data_partial() {
    // should parse even with missing fields
    let data = WeatherData::from_query("tempf=72.5&humidity=45").unwrap();
    assert_eq!(data.tempf, Some(dec("72.5")));
    assert_eq!(data.humidity, Some(45));
    assert_eq!(data.windspeedmph, None);
}

#[test]
fn test_weather_data_empty() {
    // should handle completely empty data
    let data = WeatherData::from_query("").unwrap();
    assert_eq!(data.tempf, None);
}

#[test]
fn test_config_from_values() {
    let default_bind = "0.0.0.0:8080";
    let config = Config::from_value(None);
    assert_eq!(config.bind_addr, default_bind);
    let config = Config::from_value(Some("127.0.0.1:9000".to_string()));
    assert_eq!(config.bind_addr, "127.0.0.1:9000");
}

#[test]
fn test_metrics_update_partial_data() {
    let metrics = Metrics::new().expect("failed to create metrics");

    let data = WeatherData {
        tempf: Some(dec("72.5")),
        humidity: Some(45),
        windspeedmph: Some(dec("5.5")),
        ..Default::default()
    };

    let writes = metrics.update(&data);
    perform(&metrics, &writes);

    assert_eq!(get(&metrics, Field::Temperature), 72.5);
    assert_eq!(get(&metrics, Field::Humidity), 45.0);
    assert_eq!(get(&metrics, Field::WindSpeed), 5.5);

    assert_eq!(get(&metrics, Field::WindGust), 0.0);
    assert_eq!(get(&metrics, Field::RainDaily), 0.0);
}

#[test]
fn test_metrics_update_all_fields() {
    let metrics = Metrics::new().expect("failed to create metrics");

    let data = WeatherData {
        tempf: Some(dec("85.3")),
        humidity: Some(65),
        windspeedmph: Some(dec("12.34")),
        windgustmph: Some(dec("18.76")),
        maxdailygust: Some(dec("25.5")),
        winddir: Some(180),
        winddir_avg10m: Some(175),
        uv: Some(8),
        solarradiation: Some(dec("456.78")),
        hourlyrainin: Some(dec("0.123")),
        eventrainin: Some(dec("0.456")),
        dailyrainin: Some(dec("1.234")),
        weeklyrainin: Some(dec("2.5")),
        monthlyrainin: Some(dec("5.0")),
        yearlyrainin: Some(dec("25.0")),
        tempinf: Some(dec("70.2")),
        humidityin: Some(50),
        baromrelin: Some(dec("29.92")),
        baromabsin: Some(dec("29.85")),
        battout: Some(1),
        battin: Some(1),
        extra: Vec::new(),
    };

    let writes = metrics.update(&data);
    assert_eq!(writes.len(), 21);
    perform(&metrics, &writes);

    assert_eq!(get(&metrics, Field::Temperature), 85.3);
    assert_eq!(get(&metrics, Field::Humidity), 65.0);
    assert_eq!(get(&metrics, Field::WindSpeed), 12.34);
    assert_eq!(get(&metrics, Field::WindGust), 18.76);
    assert_eq!(get(&metrics, Field::MaxDailyGust), 25.5);
    assert_eq!(get(&metrics, Field::WindDirection), 180.0);
    assert_eq!(get(&metrics, Field::WindDirectionAvg), 175.0);
    assert_eq!(get(&metrics, Field::UvIndex), 8.0);
    assert_eq!(get(&metrics, Field::SolarRadiation), 456.78);
    assert_eq!(get(&metrics, Field::RainHourly), 0.123);
    assert_eq!(get(&metrics, Field::RainEvent), 0.456);
    assert_eq!(get(&metrics, Field::RainDaily), 1.234);
    assert_eq!(get(&metrics, Field::RainWeekly), 2.5);
    assert_eq!(get(&metrics, Field::RainMonthly), 5.0);
    assert_eq!(get(&metrics, Field::RainYearly), 25.0);
    assert_eq!(get(&metrics, Field::TemperatureIndoor), 70.2);
    assert_eq!(get(&metrics, Field::HumidityIndoor), 50.0);
    assert_eq!(get(&metrics, Field::BarometerRelative), 29.92);
    assert_eq!(get(&metrics, Field::BarometerAbsolute), 29.85);
    assert_eq!(get(&metrics, Field::BatteryOutdoor), 1.0);
    assert_eq!(get(&metrics, Field::BatteryIndoor), 1.0);
}

#[test]
fn test_app_error_display() {
    let parse_err = WeatherData::from_query("tempf=notanumber").unwrap_err();
    assert!(matches!(parse_err, AppError::ParseError { .. }));
    assert!(parse_err.message().contains("failed to parse weather data"));
    assert!(parse_err.message().contains("tempf"));
    assert!(parse_err.message().contains("notanumber"));

    let metric_err = AppError::MetricRegistrationError {
        name: "test_metric",
        cause: "duplicate metric".to_string(),
    };
    assert!(metric_err.message().contains("test_metric"));
    assert!(metric_err.message().contains("duplicate metric"));
}

#[test]
fn test_metrics_encode() {
    let metrics = Metrics::new().expect("failed to create metrics");
    metrics.gauge(Field::Temperature).gauge.set(72.5);

    let encoded = metrics.encode().expect("failed to encode metrics");
    let output = String::from_utf8(encoded).expect("invalid utf8");

    assert!(output.contains("weather_temperature_fahrenheit"));
    assert!(output.contains("72.5"));
}
