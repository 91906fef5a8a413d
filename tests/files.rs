use weathercli::cli::{Config, GlobalOpts};
use weathercli::condition::CodeTable;
use weathercli::error::WeatherError;
use weathercli::files::WeatherFile;
use weathercli::json::JsonValue;

#[test]
fn json_files_start_as_empty_object() {
    assert_eq!(WeatherFile::initial_data("settings.json"), b"{}".to_vec());
    assert_eq!(WeatherFile::initial_data("cache.dat"), Vec::<u8>::new());
    assert_eq!(WeatherFile::initial_data("json"), Vec::<u8>::new());
}

#[test]
fn text_of_file() {
    let f = WeatherFile { path: "x".to_string(), data: "héllo".as_bytes().to_vec(), exists: true };
    assert_eq!(f.get_text().unwrap(), "héllo");
    let bad = WeatherFile { path: "x".to_string(), data: vec![0xff, 0xfe], exists: true };
    assert!(matches!(bad.get_text(), Err(WeatherError::Serialization(_))));
}

#[test]
fn resource_names() {
    assert_eq!(WeatherFile::settings(), "settings.json");
    assert_eq!(WeatherFile::weather_codes(), "resources/weather_codes.res");
    assert_eq!(WeatherFile::weather_ascii_art(), "resources/weather_ascii_images.res");
}

#[test]
fn code_table_from_json() {
    let entry = |s: &str| JsonValue::Array(
        vec!["a", "b", "c", s, "e"].into_iter().map(|x| JsonValue::Str(x.to_string())).collect(),
    );
    let doc = JsonValue::Object(vec![("800".to_string(), entry("Clear.")), ("500".to_string(), entry("Rain."))]);
    let t = CodeTable::from_json(&doc).unwrap();
    assert_eq!(t.entries.len(), 2);
    assert_eq!(t.entries[1].code, 500);
    assert_eq!(t.entries[1].sentence, "Rain.");
    let bad = JsonValue::Object(vec![("8x0".to_string(), entry("x"))]);
    assert!(matches!(CodeTable::from_json(&bad), Err(WeatherError::Serialization(_))));
}

#[test]
fn executable_names() {
    assert_eq!(Config::new(true).weather_file_name, "weather.exe");
    assert_eq!(Config::new(false).updater_file_name, "updater");
    assert_eq!(weathercli::cli::version(), "0.1.0");
}

#[test]
fn imperial_overrides_metric() {
    let o = GlobalOpts { json: false, datasource: None, metric: true, imperial: true, no_sys_loc: false, debug: false };
    assert!(!o.metric_output(true));
    let o = GlobalOpts { json: false, datasource: None, metric: false, imperial: false, no_sys_loc: false, debug: false };
    assert!(o.metric_output(true));
}
