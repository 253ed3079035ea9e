use weather::errors::AppError;
use weather::settings::ProviderKind;

#[test]
fn provider_from() {
    let p = ProviderKind::from_str("OpenWeather");
    assert_eq!(p.unwrap(), ProviderKind::OpenWeather);
    let p = ProviderKind::from_str("weatherapi");
    assert_eq!(p.unwrap(), ProviderKind::WeatherApi);
}

#[test]
fn provider_name() {
    assert_eq!(ProviderKind::OpenWeather.name(), "openweather");
    assert_eq!(ProviderKind::WeatherApi.name(), "weatherapi");
}

#[test]
fn provider_from_unknown_name_is_invalid_provider() {
    let p = ProviderKind::from_str("AccuWeather");
    assert_eq!(p, Err(AppError::InvalidProvider("AccuWeather".to_string())));
}

#[test]
fn provider_from_upper_case_name() {
    assert_eq!(ProviderKind::from_str("WEATHERAPI"), Ok(ProviderKind::WeatherApi));
}

#[test]
fn provider_from_name_is_exact() {
    assert_eq!(ProviderKind::from_name("openweather"), Some(ProviderKind::OpenWeather));
    assert_eq!(ProviderKind::from_name("OpenWeather"), None);
    assert_eq!(ProviderKind::from_name(""), None);
}

#[test]
fn provider_kind_default_is_weatherapi() {
    assert_eq!(ProviderKind::default(), ProviderKind::WeatherApi);
}
