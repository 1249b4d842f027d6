use stormcastrs::decimal::Decimal;
use stormcastrs::error::AppError;
use stormcastrs::field::{Field, FIELD_COUNT};
use stormcastrs::metrics::{
    message_wording, new_registry, register_gauge, registration_error, Metrics, ALREADY_REGISTERED,
};
use stormcastrs::values::{gauge_writes, GaugeValues, GaugeWrite};
use stormcastrs::weather::WeatherData;

fn dec(text: &str) -> Decimal {
    Decimal::parse(text).expect("a decimal")
}

fn perform(metrics: &Metrics, writes: &[GaugeWrite]) {
    for write in writes {
        metrics
            .gauge(write.field)
            .gauge
            .set(write.value.units() as f64 / 10_000.0);
    }
}

fn exposition(metrics: &Metrics) -> String {
    String::from_utf8(metrics.encode().expect("an encoding")).expect("utf-8")
}

fn expected_exposition(value: impl Fn(Field) -> String) -> String {
    let mut fields: Vec<Field> = (0..FIELD_COUNT).map(|i| Field::at(i).unwrap()).collect();
    fields.sort_by(|a, b| a.name().cmp(b.name()));
    let mut text = String::new();
    for field in fields {
        text.push_str(&format!(
            "# HELP {} {}\n# TYPE {} gauge\n{} {}\n",
            field.name(),
            field.help(),
            field.name(),
            field.name(),
            value(field)
        ));
    }
    text
}

#[test]
fn encode_writes_three_lines_for_each_gauge_in_the_order_of_the_names() {
    let metrics = Metrics::new().unwrap();
    assert_eq!(exposition(&metrics), expected_exposition(|_| "0".to_string()));
    let data = WeatherData::from_query("tempf=-3.14159&battin=1&baromabsin=29.9215&winddir=359")
        .unwrap();
    perform(&metrics, &metrics.update(&data));
    let expected = expected_exposition(|field| {
        match field {
            Field::Temperature => "-3.1",
            Field::BatteryIndoor => "1",
            Field::BarometerAbsolute => "29.922",
            Field::WindDirection => "359",
            _ => "0",
        }
        .to_string()
    });
    assert_eq!(exposition(&metrics), expected);
    assert!(expected.starts_with(
        "# HELP weather_barometer_absolute_inhg Absolute barometric pressure in inches of mercury\n\
         # TYPE weather_barometer_absolute_inhg gauge\n\
         weather_barometer_absolute_inhg 29.922\n\
         # HELP weather_barometer_relative_inhg "
    ));
}

#[test]
fn new_registers_the_whole_catalog() {
    let metrics = Metrics::new().expect("the catalog registers");
    let output = exposition(&metrics);
    for i in 0..FIELD_COUNT {
        let field = Field::at(i).unwrap();
        assert!(output.contains(&format!("# HELP {} {}\n", field.name(), field.help())));
        assert!(output.contains(&format!("# TYPE {} gauge\n", field.name())));
        assert!(output.contains(&format!("\n{} 0\n", field.name())));
        assert_eq!(metrics.gauge(field).gauge.get(), 0.0);
    }
    assert_eq!(output.lines().count(), 3 * FIELD_COUNT);
}

#[test]
fn new_can_be_called_again() {
    let first = Metrics::new().expect("the catalog registers");
    let second = Metrics::new().expect("the catalog registers again");
    first.gauge(Field::Temperature).gauge.set(1.5);
    assert_eq!(second.gauge(Field::Temperature).gauge.get(), 0.0);
}

#[test]
fn register_gauge_refuses_a_name_twice() {
    let mut registry = new_registry();
    let gauge = register_gauge(&mut registry, "weather_probe", "A probe").expect("a new name");
    gauge.gauge.set(4.0);
    let families = registry.gather();
    assert_eq!(families.len(), 1);
    assert_eq!(families[0].name(), "weather_probe");
    assert_eq!(families[0].help(), "A probe");

    let error = register_gauge(&mut registry, "weather_probe", "A probe").unwrap_err();
    match &error {
        AppError::MetricRegistrationError { name, cause } => {
            assert_eq!(*name, "weather_probe");
            assert_eq!(cause, "Duplicate metrics collector registration attempted");
            assert_eq!(cause, ALREADY_REGISTERED);
        }
        other => panic!("{:?}", other),
    }
    assert_eq!(
        error.message(),
        "failed to register metric 'weather_probe': Duplicate metrics collector registration attempted"
    );
    assert_eq!(error.status(), 500);
    assert_eq!(registry.gather().len(), 1);

    // the same name under another help text is refused alike
    let error = register_gauge(&mut registry, "weather_probe", "Another help").unwrap_err();
    assert_eq!(
        error,
        AppError::MetricRegistrationError {
            name: "weather_probe",
            cause: ALREADY_REGISTERED.to_string()
        }
    );

    let other = register_gauge(&mut registry, "weather_other", "Another").expect("another name");
    assert_eq!(other.gauge.get(), 0.0);
    let families = registry.gather();
    assert_eq!(families.len(), 2);
    assert_eq!(families[0].name(), "weather_other");
    assert_eq!(families[0].help(), "Another");
    assert_eq!(families[1].name(), "weather_probe");
    assert_eq!(families[1].help(), "A probe");
    assert_eq!(gauge.gauge.get(), 4.0);
}

#[test]
fn new_registry_holds_nothing() {
    let registry = new_registry();
    assert!(registry.gather().is_empty());
    let mut registry = registry;
    for name in ["a", "_", ":", "a9", "A_b:c"] {
        register_gauge(&mut registry, name, "help").expect("a new name");
    }
    assert_eq!(registry.gather().len(), 5);
}

#[test]
fn register_gauge_refuses_what_describes_no_gauge() {
    let mut registry = new_registry();
    for name in ["9 lives", "9", "", "a-b", "wind speed", "température"] {
        let error = register_gauge(&mut registry, name, "help").unwrap_err();
        assert_eq!(
            error,
            AppError::MetricRegistrationError {
                name,
                cause: format!("Error: '{}' is not a valid metric name", name)
            }
        );
    }
    let error = register_gauge(&mut registry, "weather_probe", "").unwrap_err();
    assert_eq!(
        error,
        AppError::MetricRegistrationError {
            name: "weather_probe",
            cause: "Error: empty help string".to_string()
        }
    );
    // the help text is looked at first
    let error = register_gauge(&mut registry, "9 lives", "").unwrap_err();
    assert_eq!(
        error,
        AppError::MetricRegistrationError {
            name: "9 lives",
            cause: "Error: empty help string".to_string()
        }
    );
    assert!(registry.gather().is_empty());
    // a help text that needs an escape still describes a gauge
    register_gauge(&mut registry, "weather_probe", "a\\b").expect("a gauge");
}

#[test]
fn message_wording_puts_error_first() {
    assert_eq!(message_wording("duplicate metric"), "Error: duplicate metric");
    assert_eq!(message_wording(""), "Error: ");
}

#[test]
fn registration_error_words_the_cause() {
    let error = registration_error("test_metric", &prometheus::Error::Msg("duplicate metric".into()));
    assert_eq!(
        error,
        AppError::MetricRegistrationError {
            name: "test_metric",
            cause: "Error: duplicate metric".to_string()
        }
    );
}

#[test]
fn update_asks_only_for_what_is_present() {
    let metrics = Metrics::new().unwrap();
    let data = WeatherData {
        tempf: Some(dec("72.456")),
        humidity: Some(45),
        windspeedmph: Some(dec("5.555")),
        ..WeatherData::empty()
    };
    let writes = metrics.update(&data);
    assert_eq!(
        writes,
        vec![
            GaugeWrite { field: Field::Temperature, value: dec("72.5") },
            GaugeWrite { field: Field::Humidity, value: dec("45") },
            GaugeWrite { field: Field::WindSpeed, value: dec("5.56") },
        ]
    );
    assert_eq!(gauge_writes(&data), writes);
    assert!(metrics.update(&WeatherData::empty()).is_empty());
}

#[test]
fn update_rounds_by_the_precision_table() {
    let query = "tempf=1.25555&humidity=65&windspeedmph=1.25555&windgustmph=1.25555\
                 &maxdailygust=1.25555&winddir=180&winddir_avg10m=175&uv=8&solarradiation=1.25555\
                 &hourlyrainin=1.25555&eventrainin=1.25555&dailyrainin=1.25555\
                 &weeklyrainin=1.25555&monthlyrainin=1.25555&yearlyrainin=1.25555&tempinf=1.25555\
                 &humidityin=50&baromrelin=1.25555&baromabsin=1.25555&battout=1&battin=0";
    let data = WeatherData::from_query(query).unwrap();
    let writes = gauge_writes(&data);
    let expected = [
        "1.3", "65", "1.26", "1.26", "1.26", "180", "175", "8", "1.26", "1.256", "1.256", "1.256",
        "1.256", "1.256", "1.256", "1.3", "50", "1.256", "1.256", "1", "0",
    ];
    assert_eq!(writes.len(), FIELD_COUNT);
    for (i, write) in writes.iter().enumerate() {
        assert_eq!(write.field, Field::at(i).unwrap());
        assert_eq!(write.value, dec(expected[i]), "{:?}", write.field);
    }
}

#[test]
fn encode_shows_what_was_written() {
    let metrics = Metrics::new().unwrap();
    let data = WeatherData::from_query("tempf=72.456&humidity=45&hourlyrainin=0.1239").unwrap();
    perform(&metrics, &metrics.update(&data));
    let output = exposition(&metrics);
    assert!(output.contains("\nweather_temperature_fahrenheit 72.5\n"));
    assert!(output.contains("\nweather_humidity_percent 45\n"));
    assert!(output.contains("\nweather_rain_hourly_inches 0.124\n"));
    assert!(output.contains("\nweather_wind_gust_mph 0\n"));
    // a second scrape without a write in between gives the same bytes
    assert_eq!(exposition(&metrics), output);
}

#[test]
fn encode_sees_writes_to_different_gauges_in_either_order() {
    let a = WeatherData::from_query("tempf=72.5").unwrap();
    let b = WeatherData::from_query("humidity=45").unwrap();
    let first = Metrics::new().unwrap();
    perform(&first, &first.update(&a));
    perform(&first, &first.update(&b));
    let second = Metrics::new().unwrap();
    perform(&second, &second.update(&b));
    perform(&second, &second.update(&a));
    let output = exposition(&first);
    assert_eq!(output, exposition(&second));
    assert!(output.contains("\nweather_temperature_fahrenheit 72.5\n"));
    assert!(output.contains("\nweather_humidity_percent 45\n"));
}

#[test]
fn gauges_keep_interleaved_writes() {
    let metrics = Metrics::new().unwrap();
    let a = metrics.update(&WeatherData::from_query("tempf=72.5&uv=7").unwrap());
    let b = metrics.update(&WeatherData::from_query("humidity=45&battin=1").unwrap());
    // the overwrites of the two samples, one by one in turn
    perform(&metrics, &[a[0], b[0], a[1], b[1]]);
    let output = exposition(&metrics);
    assert!(output.contains("\nweather_temperature_fahrenheit 72.5\n"));
    assert!(output.contains("\nweather_humidity_percent 45\n"));
    assert!(output.contains("\nweather_uv_index 7\n"));
    assert!(output.contains("\nweather_battery_indoor 1\n"));
}

#[test]
fn gauge_values_start_at_zero() {
    let gauges = GaugeValues::new();
    for i in 0..FIELD_COUNT {
        assert_eq!(gauges.get(Field::at(i).unwrap()), Decimal::zero());
    }
}

#[test]
fn gauge_values_take_partial_samples() {
    let mut gauges = GaugeValues::new();
    let data = WeatherData {
        tempf: Some(dec("72.5")),
        humidity: Some(45),
        windspeedmph: Some(dec("5.5")),
        ..WeatherData::empty()
    };
    gauges.update(&data);
    for i in 0..FIELD_COUNT {
        let field = Field::at(i).unwrap();
        let expected = match field {
            Field::Temperature => dec("72.5"),
            Field::Humidity => dec("45"),
            Field::WindSpeed => dec("5.5"),
            _ => Decimal::zero(),
        };
        assert_eq!(gauges.get(field), expected, "{:?}", field);
    }
    // a later sample without these quantities leaves them
    gauges.update(&WeatherData::from_query("uv=3").unwrap());
    assert_eq!(gauges.get(Field::Temperature), dec("72.5"));
    assert_eq!(gauges.get(Field::UvIndex), dec("3"));
    // and one with them overwrites
    gauges.update(&WeatherData::from_query("tempf=-3.14159").unwrap());
    assert_eq!(gauges.get(Field::Temperature), dec("-3.1"));
    assert_eq!(gauges.get(Field::Humidity), dec("45"));
}

#[test]
fn gauge_values_commute_on_different_quantities() {
    let a = WeatherData::from_query("tempf=72.456&winddir=10").unwrap();
    let b = WeatherData::from_query("humidity=45&baromrelin=29.9215").unwrap();
    let mut ab = GaugeValues::new();
    ab.update(&a);
    ab.update(&b);
    let mut ba = GaugeValues::new();
    ba.update(&b);
    ba.update(&a);
    assert_eq!(ab, ba);
    assert_eq!(ab.get(Field::Temperature), dec("72.5"));
    assert_eq!(ab.get(Field::WindDirection), dec("10"));
    assert_eq!(ab.get(Field::Humidity), dec("45"));
    assert_eq!(ab.get(Field::BarometerRelative), dec("29.922"));
    let mut twice = GaugeValues::new();
    twice.update(&a);
    twice.update(&b);
    twice.update(&b);
    assert_eq!(twice, ab);
}

#[test]
fn gauge_values_write_one_gauge() {
    let mut gauges = GaugeValues::new();
    gauges.write(GaugeWrite { field: Field::BatteryIndoor, value: dec("1") });
    gauges.write(GaugeWrite { field: Field::Temperature, value: dec("2") });
    gauges.write(GaugeWrite { field: Field::BatteryIndoor, value: dec("3") });
    assert_eq!(gauges.get(Field::BatteryIndoor), dec("3"));
    assert_eq!(gauges.get(Field::Temperature), dec("2"));
    assert_eq!(gauges.get(Field::Humidity), dec("0"));
}
