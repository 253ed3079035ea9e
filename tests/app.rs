use weather::app::WeatherApp;
use weather::errors::{AppError, ProviderError};
use weather::measure::Decimal;
use weather::openweather::{CurrentReading, OpenWeather};
use weather::provider::{FetchReply, FetchRequest, Provider};
use weather::registry::ProviderRegistry;
use weather::weatherapi::{
    ConditionFields, DayCondition, Forecast, ForecastDay, HourCondition, HttpReply, Location, WeatherApi,
    WeatherResponse,
};

fn reading() -> CurrentReading {
    CurrentReading {
        name: "Somewhere".to_string(),
        dt: 0,
        temp: Decimal::zero(),
        humidity: Decimal::zero(),
        pressure: Decimal::zero(),
        descriptions: vec![],
        wind_speed: Decimal::zero(),
        wind_deg: Decimal::zero(),
    }
}

fn open_weather() -> Provider {
    Provider::OpenWeather(OpenWeather::new(Some("key".to_string())).unwrap())
}

fn weather_api() -> Provider {
    Provider::WeatherApi(WeatherApi::new(Some("key".to_string())).unwrap())
}

#[test]
fn weather_app_empty_registry() {
    let wapp = WeatherApp::new(ProviderRegistry::new());
    assert!(wapp.list().is_empty());

    let res = wapp.prepare("", "location", None);
    assert!(res.is_err());
}

#[test]
fn weather_app() {
    let mut register = ProviderRegistry::new();
    register.register("something", open_weather());
    let wapp = WeatherApp::new(register);
    assert!(!wapp.list().is_empty());

    let request = wapp.prepare("something", "location", None);
    assert!(matches!(request, Ok(FetchRequest::Current(_))));
    let res = wapp.complete("something", "location", FetchReply::Current(Ok(reading())));
    assert!(res.is_ok());
}

#[test]
fn run_unknown_provider_is_invalid_provider() {
    let mut reg = ProviderRegistry::new();
    reg.register("weatherapi-like", weather_api());
    let wapp = WeatherApp::new(reg);
    assert_eq!(
        wapp.prepare("nonexistent", "London", None),
        Err(AppError::InvalidProvider("nonexistent".to_string()))
    );
    let reply = FetchReply::Http(Err("unused".to_string()));
    assert_eq!(
        wapp.complete("nonexistent", "London", reply),
        Err(AppError::InvalidProvider("nonexistent".to_string()))
    );
}

#[test]
fn run_empty_location_is_wrapped_invalid_location() {
    let mut reg = ProviderRegistry::new();
    reg.register("weatherapi-like", weather_api());
    let wapp = WeatherApp::new(reg);
    assert_eq!(
        wapp.prepare("weatherapi-like", "", None),
        Err(AppError::Provider(ProviderError::InvalidLocation(String::new())))
    );
}

#[test]
fn provider_errors_keep_their_kind() {
    let mut reg = ProviderRegistry::new();
    reg.register("weatherapi", weather_api());
    let wapp = WeatherApp::new(reg);
    let reply = FetchReply::Http(Ok(HttpReply { status: 503, body: Err("unavailable".to_string()) }));
    assert_eq!(
        wapp.complete("weatherapi", "London", reply),
        Err(AppError::Provider(ProviderError::Request("HTTP status 503".to_string())))
    );
    let reply = FetchReply::Current(Ok(reading()));
    assert!(matches!(
        wapp.complete("weatherapi", "London", reply),
        Err(AppError::Provider(ProviderError::Unexpected(_)))
    ));
}

#[test]
fn prepare_builds_the_provider_request() {
    let mut reg = ProviderRegistry::new();
    reg.register("weatherapi", weather_api());
    reg.register("openweather", open_weather());
    let wapp = WeatherApp::new(reg);
    assert_eq!(
        wapp.prepare("weatherapi", "Paris", None),
        Ok(FetchRequest::Http("https://api.weatherapi.com/v1/current.json?key=key&q=Paris&aqi=no".to_string()))
    );
    match wapp.prepare("openweather", "Paris", None) {
        Ok(FetchRequest::Current(q)) => {
            assert_eq!(q.location, "Paris");
            assert_eq!(q.api_key, "key");
        },
        other => panic!("unexpected {other:?}"),
    }
}

#[test]
fn provider_exist_and_list() {
    let mut reg = ProviderRegistry::new();
    reg.register("weatherapi", weather_api());
    reg.register("openweather", open_weather());
    let wapp = WeatherApp::new(reg);
    assert!(wapp.provider_exist("openweather"));
    assert!(wapp.provider_exist("weatherapi"));
    assert!(!wapp.provider_exist("not_supported_provider"));
    assert_eq!(wapp.list(), vec!["openweather".to_string(), "weatherapi".to_string()]);
}

#[test]
fn provider_manager() {
    let provider_name = "mock_provider";
    let mut registry = ProviderRegistry::new();
    registry.register(provider_name, open_weather());

    let manager = weather::app::ProviderManager::new(registry);
    let provider = manager.get(provider_name).unwrap();

    let location = String::from("address");
    let date = weather::weather::CalendarDate::new(2026, 1, 1);

    assert!(provider.request(&location, date).is_ok());
    let weather = provider.finish(&location, FetchReply::Current(Ok(reading())));

    assert!(weather.is_ok());
}

#[test]
fn get_returns_correct_provider() {
    let mut reg = ProviderRegistry::new();
    reg.register("mock", weather_api());

    let provider = reg.get("mock").unwrap();

    let date = weather::weather::CalendarDate::new(2026, 1, 1);
    match provider.request("London", date) {
        Ok(FetchRequest::Http(url)) => assert!(url.ends_with("&q=London&aqi=no&dt=2026-01-01")),
        other => panic!("unexpected {other:?}"),
    }
    let condition = ConditionFields { text: "Overcast".to_string(), icon: String::new() };
    let hour = HourCondition {
        time: "2026-01-01 12:13".to_string(),
        temp_c: Decimal::zero(),
        wind_kph: Decimal::zero(),
        wind_degree: Decimal::zero(),
        humidity: Decimal::zero(),
        pressure_mb: Decimal::zero(),
        condition: condition.clone(),
    };
    let body = WeatherResponse::History {
        location: Location { name: "London".to_string(), region: String::new(), country: "UK".to_string() },
        forecast: Forecast {
            forecastday: vec![ForecastDay {
                date: "2026-01-01".to_string(),
                day: DayCondition {
                    avgtemp_c: Decimal::zero(),
                    avghumidity: Decimal::zero(),
                    maxwind_kph: Decimal::zero(),
                    condition,
                },
                hour: vec![hour],
            }],
        },
    };
    let reply = FetchReply::Http(Ok(HttpReply { status: 200, body: Ok(body) }));
    let result = provider.finish("London", reply).unwrap();

    assert_eq!(result.location, "London");
    assert_eq!(result.datetime, 1767269580);
}

#[test]
fn run_empty_location_refused_by_every_provider() {
    let mut reg = ProviderRegistry::new();
    reg.register("openweather", open_weather());
    let wapp = WeatherApp::new(reg);
    assert_eq!(
        wapp.prepare("openweather", "", None),
        Err(AppError::Provider(ProviderError::InvalidLocation(String::new())))
    );
}
