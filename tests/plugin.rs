use weathercli::aggregator::{datasource_from_lower, datasource_from_str, select_provider, Datasource, Provider};
use weathercli::error::WeatherError;
use weathercli::model::Coordinates;
use weathercli::plugin::{check_core_version, is_valid_ext, Registrar, CORE_VERSION};
use weathercli::twc::TheWeatherChannel;

#[test]
fn plugin_abi_mismatch() {
    let mut declared = CORE_VERSION.to_string();
    declared.pop();
    declared.push('9');
    assert_ne!(declared, CORE_VERSION);
    let registrar = Registrar::new();
    assert!(matches!(check_core_version(&declared), Err(WeatherError::IncompatiblePlugin(_))));
    assert_eq!(registrar.lookup("anything"), None);
    assert!(check_core_version(CORE_VERSION).is_ok());
}

#[test]
fn registrar_last_write_wins() {
    let mut host = Registrar::new();
    host.register_function("twc", 1);
    let mut plugin = Registrar::new();
    plugin.register_function("twc", 7);
    plugin.register_function("other", 8);
    host.merge(&plugin);
    assert_eq!(host.lookup("twc"), Some(7));
    assert_eq!(host.lookup("other"), Some(8));
    assert_eq!(host.lookup("none"), None);
}

#[test]
fn datasource_names_ignore_case() {
    assert!(matches!(datasource_from_str("NWS"), Datasource::NWS));
    assert!(matches!(datasource_from_str("OpenWeatherMap"), Datasource::Openweathermap));
    assert!(matches!(datasource_from_str("meteo"), Datasource::Meteo));
    assert!(matches!(datasource_from_str("TheWeatherChannel"), Datasource::Other(s) if s == "TheWeatherChannel"));
    assert!(matches!(datasource_from_lower("meteo", "MeTeO"), Datasource::Meteo));
}

#[test]
fn unknown_provider_is_not_found() {
    let mut plugins = Registrar::new();
    plugins.register_function("twc", 3);
    assert!(matches!(select_provider(&Datasource::Other("twc".to_string()), &plugins), Ok(Provider::Plugin(3))));
    assert!(matches!(
        select_provider(&Datasource::Other("nope".to_string()), &plugins),
        Err(WeatherError::NotFound(_))
    ));
    assert!(matches!(select_provider(&Datasource::Meteo, &plugins), Ok(Provider::Meteo)));
}

#[test]
fn plugin_file_extensions() {
    assert!(is_valid_ext("libtwc.so", "so"));
    assert!(is_valid_ext("twc.dll", "dll"));
    assert!(!is_valid_ext("twc.dll", "so"));
    assert!(!is_valid_ext("so", "so"));
    assert!(!is_valid_ext("libtwcso", "so"));
}

#[test]
fn weather_channel_requests() {
    let twc = TheWeatherChannel;
    assert_eq!(twc.name(), "theweatherchannel");
    assert_eq!(twc.unit_cookie(false), ("unitOfMeasurement".to_string(), "e".to_string()));
    assert_eq!(twc.unit_cookie(true).1, "m");
    let c = Coordinates { latitude: "1.5".to_string(), longitude: "2".to_string() };
    let urls = twc.urls(&c);
    assert_eq!(urls[0], "https://weather.com/weather/today/l/1.5,2");
    assert_eq!(urls[2], "https://weather.com/weather/air-quality/l/1.5,2");
}
