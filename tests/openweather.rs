use weather::errors::ProviderError;
use weather::measure::Decimal;
use weather::openweather::{CurrentReading, OpenWeather};

fn dec(s: &str) -> Decimal {
    Decimal::parse(s).unwrap()
}

fn reading(descriptions: Vec<&str>, dt: i64) -> CurrentReading {
    CurrentReading {
        name: "Berlin".to_string(),
        dt,
        temp: dec("3.5"),
        humidity: dec("87"),
        pressure: dec("1012"),
        descriptions: descriptions.into_iter().map(|d| d.to_string()).collect(),
        wind_speed: dec("5.0"),
        wind_deg: dec("270"),
    }
}

#[test]
fn openweather_requires_api_key() {
    assert!(matches!(OpenWeather::new(None), Err(ProviderError::InvalidApiKey(_))));
    assert!(matches!(OpenWeather::new(Some(String::new())), Err(ProviderError::InvalidApiKey(_))));
    assert!(OpenWeather::new(Some("k".to_string())).is_ok());
}

#[test]
fn openweather_query_is_metric_english() {
    let p = OpenWeather::new(Some("secret".to_string())).unwrap();
    let q = p.query("Berlin,DE").unwrap();
    assert_eq!(q.location, "Berlin,DE");
    assert_eq!(q.units, "metric");
    assert_eq!(q.lang, "en");
    assert_eq!(q.api_key, "secret");
}

#[test]
fn openweather_reading_maps_fields() {
    let r = OpenWeather::record(&reading(vec!["light rain", "mist"], 1764954900));
    assert_eq!(r.location, "Berlin");
    assert_eq!(r.datetime, 1764954900);
    assert_eq!(r.temp_c, dec("3.5"));
    assert_eq!(r.humidity, dec("87"));
    assert_eq!(r.pressure, dec("1012"));
    assert_eq!(r.condition, "light rain");
    assert_eq!(r.wind_kph, Decimal { mantissa: 1800, scale: 2 });
    assert_eq!(r.wind_deg, dec("270"));
}

#[test]
fn openweather_without_description_is_unknown() {
    let r = OpenWeather::record_at(&reading(vec![], 0), 7);
    assert_eq!(r.condition, "unknown");
    assert_eq!(r.datetime, 7);
}

#[test]
fn openweather_out_of_range_time_falls_back_to_now() {
    let r = OpenWeather::record(&reading(vec!["clear sky"], i64::MAX));
    assert_ne!(r.datetime, i64::MAX);
    assert!(r.datetime > 1_700_000_000);
}

#[test]
fn openweather_error_message_is_request_error() {
    let r = OpenWeather::finish(Err("401 Unauthorized".to_string()));
    assert_eq!(r, Err(ProviderError::Request("401 Unauthorized".to_string())));
    let r = OpenWeather::finish(Ok(reading(vec!["clear sky"], 1764771300))).unwrap();
    assert_eq!(r.condition, "clear sky");
}

#[test]
fn openweather_empty_location_is_refused() {
    let p = OpenWeather::new(Some("secret".to_string())).unwrap();
    assert_eq!(p.query(""), Err(ProviderError::InvalidLocation(String::new())));
}

#[test]
fn openweather_reading_without_place_is_parse_error() {
    let mut w = reading(vec!["clear sky"], 1764771300);
    w.name = String::new();
    assert!(matches!(OpenWeather::finish(Ok(w)), Err(ProviderError::Parse(_))));
}

#[test]
fn openweather_time_is_the_reading_time_in_range() {
    let r = OpenWeather::record(&reading(vec![], -8_000_000_000_000));
    assert_eq!(r.datetime, -8_000_000_000_000);
    let r = OpenWeather::record(&reading(vec![], 0));
    assert_eq!(r.datetime, 0);
}
