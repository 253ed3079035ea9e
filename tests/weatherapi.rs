use weather::errors::ProviderError;
use weather::measure::Decimal;
use weather::weather::CalendarDate;
use weather::weatherapi::{
    ConditionFields, DayCondition, Forecast, ForecastDay, HourCondition, HttpReply, Location,
    WeatherApi, WeatherCondition, WeatherResponse,
};

fn dec(s: &str) -> Decimal {
    Decimal::parse(s).unwrap()
}

fn condition(text: &str) -> ConditionFields {
    ConditionFields { text: text.to_string(), icon: "//cdn.weatherapi.com/weather/64x64/night/116.png".to_string() }
}

fn location(name: &str, country: &str) -> Location {
    Location { name: name.to_string(), region: name.to_string(), country: country.to_string() }
}

fn current(last_updated: &str, temp: &str, text: &str, wind: &str) -> WeatherCondition {
    WeatherCondition {
        last_updated: last_updated.to_string(),
        temp_c: dec(temp),
        condition: condition(text),
        wind_kph: dec(wind),
        wind_degree: dec("245"),
        humidity: dec("94"),
        pressure_mb: dec("1018.0"),
    }
}

fn porto_current() -> WeatherResponse {
    WeatherResponse::Current {
        location: location("Porto", "Portugal"),
        current: current("2025-12-05 17:15", "16.1", "Partly cloudy", "22.0"),
    }
}

fn hour(time: &str, pressure: &str, wind: &str, degree: &str) -> HourCondition {
    HourCondition {
        time: time.to_string(),
        temp_c: dec("11.5"),
        wind_kph: dec(wind),
        wind_degree: dec(degree),
        humidity: dec("80"),
        pressure_mb: dec(pressure),
        condition: condition("Clear"),
    }
}

fn history(hours: Vec<HourCondition>) -> WeatherResponse {
    WeatherResponse::History {
        location: location("London", "United Kingdom"),
        forecast: Forecast {
            forecastday: vec![ForecastDay {
                date: "2024-02-29".to_string(),
                day: DayCondition {
                    avgtemp_c: dec("7.3"),
                    avghumidity: dec("81"),
                    maxwind_kph: dec("24.8"),
                    condition: condition("Patchy rain nearby"),
                },
                hour: hours,
            }],
        },
    }
}

fn api() -> WeatherApi {
    WeatherApi::new(Some("test_api_key".to_string())).unwrap()
}

#[test]
fn invalid_location() {
    let api = WeatherApi::new(Some("test_api_key".to_string())).unwrap();
    let result = api.request_url("", None);

    match result {
        Err(ProviderError::InvalidLocation(_)) => {},
        _ => panic!("expected InvalidLocation error"),
    }
}

#[test]
fn missing_api_key() {
    let api = WeatherApi::new(None);

    match api {
        Err(ProviderError::InvalidApiKey(_)) => {},
        _ => panic!("expected InvalidApiKey error"),
    }
}

#[test]
fn empty_api_key_is_invalid() {
    assert!(matches!(WeatherApi::new(Some(String::new())), Err(ProviderError::InvalidApiKey(_))));
}

#[test]
fn success_parsing() {
    let result = porto_current().to_record().unwrap();

    assert_eq!(result.temp_c, dec("16.1"));
    assert_eq!(result.wind_kph, dec("22.0"));
    assert_eq!(result.condition, "Partly cloudy");
    assert_eq!(result.datetime, 1764954900);
    assert_eq!(result.location, "Porto, Portugal");
    assert_eq!(result.humidity, dec("94"));
    assert_eq!(result.pressure, dec("1018.0"));
    assert_eq!(result.wind_deg, dec("245"));
}

#[test]
fn current_shape_fetch_keeps_caller_location() {
    let resp = WeatherResponse::Current {
        location: location("Lisbon", "Portugal"),
        current: current("2025-12-03 14:15", "28.2", "Sunny", "18.0"),
    };
    let reply = HttpReply { status: 200, body: Ok(resp) };
    let result = WeatherApi::finish("Lisboa", Ok(reply)).unwrap();
    assert_eq!(result.temp_c, Decimal { mantissa: 282, scale: 1 });
    assert_eq!(result.wind_kph, Decimal { mantissa: 180, scale: 1 });
    assert_eq!(result.condition, "Sunny");
    assert_eq!(result.location, "Lisboa");
    assert_eq!(result.datetime, 1764771300);
}

#[test]
fn history_shape_mixes_day_and_first_hour() {
    let resp = history(vec![
        hour("2024-02-29 00:00", "1004", "13.0", "200"),
        hour("2024-02-29 01:00", "1009", "30.0", "90"),
    ]);
    let result = resp.to_record().unwrap();
    assert_eq!(result.location, "London, United Kingdom");
    assert_eq!(result.datetime, 1709164800);
    assert_eq!(result.temp_c, dec("7.3"));
    assert_eq!(result.humidity, dec("81"));
    assert_eq!(result.pressure, dec("1004"));
    assert_eq!(result.wind_deg, dec("200"));
    assert_eq!(result.wind_kph, dec("24.8"));
    assert_eq!(result.condition, "Patchy rain nearby");
}

#[test]
fn history_without_hours_is_parse_error() {
    assert!(matches!(history(vec![]).to_record(), Err(ProviderError::Parse(_))));
    let empty = WeatherResponse::History {
        location: location("London", "United Kingdom"),
        forecast: Forecast { forecastday: vec![] },
    };
    assert!(matches!(empty.to_record(), Err(ProviderError::Parse(_))));
}

#[test]
fn bad_timestamp_is_hard_error() {
    let resp = WeatherResponse::Current {
        location: location("Porto", "Portugal"),
        current: current("05/12/2025 17:15", "16.1", "Partly cloudy", "22.0"),
    };
    assert_eq!(resp.to_record(), Err(ProviderError::ParseDateTime("05/12/2025 17:15".to_string())));
    let resp = history(vec![hour("yesterday", "1004", "13.0", "200")]);
    assert_eq!(resp.to_record(), Err(ProviderError::ParseDateTime("yesterday".to_string())));
}

#[test]
fn record_with_given_time() {
    let r = porto_current().record_with(Some(42)).unwrap();
    assert_eq!(r.datetime, 42);
    assert_eq!(r.location, "Porto, Portugal");
    assert_eq!(
        porto_current().record_with(None),
        Err(ProviderError::ParseDateTime("2025-12-05 17:15".to_string()))
    );
}

#[test]
fn current_url_uses_production_endpoint() {
    let url = api().request_url("London", None).unwrap();
    assert_eq!(url, "https://api.weatherapi.com/v1/current.json?key=test_api_key&q=London&aqi=no");
}

#[test]
fn history_url_carries_the_date() {
    let date = CalendarDate::new(2024, 2, 9).unwrap();
    let url = api().request_url("Porto,PT", Some(date)).unwrap();
    assert_eq!(
        url,
        "https://api.weatherapi.com/v1/history.json?key=test_api_key&q=Porto,PT&aqi=no&dt=2024-02-09"
    );
}

#[test]
fn base_url_can_be_replaced() {
    let api = api().with_base_url("http://127.0.0.1:8080").unwrap();
    let url = api.request_url("x", None).unwrap();
    assert_eq!(url, "http://127.0.0.1:8080/v1/current.json?key=test_api_key&q=x&aqi=no");
    assert!(matches!(self::api().with_base_url("not a url"), Err(ProviderError::Unexpected(_))));
}

#[test]
fn transport_failure_is_request_error() {
    let r = WeatherApi::finish("Porto", Err("connection refused".to_string()));
    assert_eq!(r, Err(ProviderError::Request("connection refused".to_string())));
}

#[test]
fn non_success_status_is_request_error() {
    let reply = HttpReply { status: 401, body: Ok(porto_current()) };
    assert_eq!(WeatherApi::finish("Porto", Ok(reply)), Err(ProviderError::Request("HTTP status 401".to_string())));
    let reply = HttpReply { status: 199, body: Ok(porto_current()) };
    assert_eq!(WeatherApi::finish("Porto", Ok(reply)), Err(ProviderError::Request("HTTP status 199".to_string())));
    let reply = HttpReply { status: 299, body: Ok(porto_current()) };
    assert!(WeatherApi::finish("Porto", Ok(reply)).is_ok());
}

#[test]
fn undecodable_body_is_parse_error() {
    let reply = HttpReply { status: 200, body: Err("missing field `current`".to_string()) };
    assert_eq!(
        WeatherApi::finish("Porto", Ok(reply)),
        Err(ProviderError::Parse("missing field `current`".to_string()))
    );
}

#[test]
fn status_message_names_the_status() {
    let reply = HttpReply { status: 404, body: Err("not json".to_string()) };
    assert_eq!(
        WeatherApi::finish("Porto", Ok(reply)),
        Err(ProviderError::Request("HTTP status 404".to_string()))
    );
    let reply = HttpReply { status: 7, body: Ok(porto_current()) };
    assert_eq!(WeatherApi::finish("Porto", Ok(reply)), Err(ProviderError::Request("HTTP status 7".to_string())));
    let reply = HttpReply { status: 65535, body: Ok(porto_current()) };
    assert_eq!(
        WeatherApi::finish("Porto", Ok(reply)),
        Err(ProviderError::Request("HTTP status 65535".to_string()))
    );
}
