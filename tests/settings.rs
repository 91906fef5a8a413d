use weathercli::error::WeatherError;
use weathercli::json::JsonValue;
use weathercli::settings::{Settings, SettingsJson};

fn obj(members: Vec<(&str, JsonValue)>) -> JsonValue {
    JsonValue::Object(members.into_iter().map(|(k, v)| (k.to_string(), v)).collect())
}

#[test]
fn empty_document_takes_defaults() {
    let s = SettingsJson::from_json(&obj(vec![])).unwrap();
    assert_eq!(s.open_weather_map_api_key, "");
    assert!(!s.metric_default);
    assert_eq!(s.default_backend, "meteo");
    assert!(s.auto_update_internet_resources);
    assert!(s.show_alerts);
    assert_eq!(s.layout_file, "default.json");
    assert_eq!(s.daemon_update_interval, 600);
    assert!(s.installed_components.is_none());
    assert!(!s.enable_custom_backends);
}

#[test]
fn settings_round_trip() {
    let doc = obj(vec![
        ("OPEN_WEATHER_MAP_API_KEY", JsonValue::Str("abc".to_string())),
        ("METRIC_DEFAULT", JsonValue::Bool(true)),
        ("DEFAULT_BACKEND", JsonValue::Str("nws".to_string())),
        ("DAEMON_UPDATE_INTERVAL", JsonValue::Int(30)),
        ("INSTALLED_COMPONENTS", JsonValue::Array(vec![JsonValue::Str("daemon".to_string())])),
        ("SOMETHING_ELSE", JsonValue::Int(1)),
    ]);
    let s = SettingsJson::from_json(&doc).unwrap();
    let again = SettingsJson::from_json(&s.to_json()).unwrap();
    assert_eq!(again.open_weather_map_api_key, "abc");
    assert!(again.metric_default);
    assert_eq!(again.default_backend, "nws");
    assert_eq!(again.daemon_update_interval, 30);
    assert_eq!(again.installed_components, Some(vec!["daemon".to_string()]));
    assert_eq!(again.layout_file, s.layout_file);
    assert_eq!(again.show_alerts, s.show_alerts);
}

#[test]
fn wrong_type_is_serialization_error() {
    let doc = obj(vec![("METRIC_DEFAULT", JsonValue::Str("yes".to_string()))]);
    assert!(matches!(SettingsJson::from_json(&doc), Err(WeatherError::Serialization(_))));
    assert!(matches!(SettingsJson::from_json(&JsonValue::Int(3)), Err(WeatherError::Serialization(_))));
}

#[test]
fn reload_keeps_settings_on_failure() {
    let mut s = Settings::new(&obj(vec![("DEBUG", JsonValue::Bool(true))])).unwrap();
    assert!(s.internal.debug);
    assert!(s.reload(&JsonValue::Null).is_err());
    assert!(s.internal.debug);
    s.reload(&obj(vec![])).unwrap();
    assert!(!s.internal.debug);
}
