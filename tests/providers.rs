use weathercli::condition::{CodeEntry, CodeTable};
use weathercli::error::WeatherError;
use weathercli::forecast_json::forecast_to_json;
use weathercli::json::JsonValue;
use weathercli::layout_item::{Colors, Piece};
use weathercli::layout_row::Row;
use weathercli::meteo::{get_meteo_forecast, MeteoData};
use weathercli::model::{Coordinates, WindData};
use weathercli::networking::get_user_agent;
use weathercli::nws::{get_nws_forecast, NwsData};
use weathercli::owm::{get_openweathermap_forecast, open_weather_map_get_api_urls, OwmPeriod};

fn table() -> CodeTable {
    let codes: Vec<u16> = vec![500, 501, 502, 503, 601, 800, 801, 802, 803, 804];
    CodeTable {
        entries: codes
            .into_iter()
            .map(|code| CodeEntry {
                code,
                short: String::new(),
                long: String::new(),
                icon: format!("{code}d"),
                sentence: format!("S{code}"),
                ascii: String::new(),
            })
            .collect(),
    }
}

fn meteo(hours: usize, current: usize) -> MeteoData {
    MeteoData {
        current_time: format!("t{current}"),
        time: (0..hours).map(|i| format!("t{i}")).collect(),
        temperature: (0..hours).map(|i| i as i32 * 10).collect(),
        apparent_temperature: vec![5; hours],
        dewpoint: vec![1; hours],
        cloudcover: vec![0; hours],
        rain: (0..hours).map(|i| if i == current + 2 { 1_000 } else { 0 }).collect(),
        snowfall: vec![0; hours],
        windspeed: vec![30; hours],
        winddirection: vec![90; hours],
        daily_min: vec![-10; hours / 24 + 1],
        daily_max: vec![100; hours / 24 + 1],
        european_aqi: vec![2; 3],
    }
}

#[test]
fn meteo_forecast_starts_at_current_hour() {
    let f = get_meteo_forecast(&meteo(10, 3), true, &table(), 77, "R".to_string(), "C".to_string()).unwrap();
    assert_eq!(f.forecast.len(), 6);
    assert_eq!(f.forecast[0].temperature, 30);
    assert_eq!(f.forecast[5].temperature, 80);
    assert_eq!(f.current_weather().temperature, f.forecast[0].temperature);
    assert_eq!(f.forecast[0].aqi, 0);
    assert_eq!(f.forecast[0].time, 77);
    assert_eq!(f.forecast_sentence, "It will rain in 2 hours for 1 hours");
}

#[test]
fn meteo_missing_current_is_upstream() {
    let mut d = meteo(10, 3);
    d.current_time = "never".to_string();
    assert!(matches!(
        get_meteo_forecast(&d, true, &table(), 0, String::new(), String::new()),
        Err(WeatherError::Upstream(_))
    ));
    let mut d = meteo(10, 3);
    d.rain.pop();
    assert!(matches!(
        get_meteo_forecast(&d, true, &table(), 0, String::new(), String::new()),
        Err(WeatherError::Upstream(_))
    ));
}

#[test]
fn meteo_last_hour_alone() {
    let f = get_meteo_forecast(&meteo(5, 4), true, &table(), 0, String::new(), String::new()).unwrap();
    assert_eq!(f.forecast.len(), 1);
}

fn period(time: u64, ids: Vec<u16>) -> OwmPeriod {
    OwmPeriod {
        time,
        temperature: 150,
        min_temp: 100,
        max_temp: 200,
        wind: WindData { speed: 40, heading: 180 },
        dewpoint: 50,
        feels_like: 140,
        aqi: 1,
        cloud_cover: 20,
        condition_ids: ids,
    }
}

#[test]
fn owm_forecast_current_first() {
    let f = get_openweathermap_forecast(
        "key",
        &period(1, vec![801]),
        &vec![period(2, vec![800]), period(3, vec![500])],
        &table(),
        "R".to_string(),
        "C".to_string(),
    )
    .unwrap();
    assert_eq!(f.forecast.len(), 3);
    assert_eq!(f.current_weather().time, 1);
    assert_eq!(f.forecast[2].conditions[0].condition_id, 500);
    assert_eq!(f.forecast_sentence, "It will rain in 6 hours for 3 hours");
}

#[test]
fn owm_errors() {
    let t = table();
    assert!(matches!(
        get_openweathermap_forecast("", &period(1, vec![800]), &vec![], &t, String::new(), String::new()),
        Err(WeatherError::BadRequest(_))
    ));
    assert!(matches!(
        get_openweathermap_forecast("k", &period(1, vec![]), &vec![], &t, String::new(), String::new()),
        Err(WeatherError::Upstream(_))
    ));
    assert!(matches!(
        get_openweathermap_forecast("k", &period(1, vec![999]), &vec![], &t, String::new(), String::new()),
        Err(WeatherError::NotFound(_))
    ));
}

#[test]
fn owm_urls() {
    let loc = Coordinates { latitude: "51.5".to_string(), longitude: "-0.1".to_string() };
    let urls = open_weather_map_get_api_urls("https://api.example/", "K", &loc, true);
    assert_eq!(urls[0], "https://api.example/weather?lat=51.5&lon=-0.1&appid=K&units=metric");
    assert_eq!(urls[1], "https://api.example/air_pollution?lat=51.5&lon=-0.1&appid=K&units=metric");
    let urls = open_weather_map_get_api_urls("u/", "K", &loc, false);
    assert_eq!(urls[2], "u/forecast?lat=51.5&lon=-0.1&appid=K&units=imperial");
}

fn nws() -> NwsData {
    NwsData {
        temperature: 200,
        min_temperature: -100,
        max_temperature: 250,
        dewpoint: 0,
        apparent_temperature: -5,
        wind_speed: 100,
        wind_direction: 270,
        sky_cover: 90,
        precipitation: 0,
        snowfall: 10,
    }
}

#[test]
fn nws_converts_to_imperial() {
    let f = get_nws_forecast(&nws(), false, &table(), 5, "R".to_string(), "C".to_string()).unwrap();
    let w = f.current_weather();
    assert_eq!(w.temperature, 680);
    assert_eq!(w.min_temp, 140);
    assert_eq!(w.dewpoint, 320);
    assert_eq!(w.feels_like, 311);
    assert_eq!(w.wind.speed, 62);
    let ids: Vec<u16> = w.conditions.iter().map(|c| c.condition_id).collect();
    assert_eq!(ids, vec![804, 601]);
    assert_eq!(f.forecast.len(), 1);
}

#[test]
fn nws_metric_passes_through() {
    let f = get_nws_forecast(&nws(), true, &table(), 5, String::new(), String::new()).unwrap();
    assert_eq!(f.current_weather().temperature, 200);
    assert_eq!(f.current_weather().wind.speed, 100);
}

#[test]
fn forecast_json_feeds_layouts() {
    let f = get_meteo_forecast(&meteo(10, 3), true, &table(), 0, "Oslo".to_string(), "NO".to_string()).unwrap();
    let data = forecast_to_json(&f);
    let row = Row::from_str("{@region} {@current_weather.temperature|°C} {@forecast.[1].conditions.[0].sentence}");
    let colors = Colors {
        variable: String::new(),
        text: String::new(),
        unit: String::new(),
        variable_bg: String::new(),
        text_bg: String::new(),
        unit_bg: String::new(),
    };
    let pieces = row.to_string(&data, &colors, true).unwrap();
    let text: String = pieces
        .iter()
        .map(|p| match p {
            Piece::Text(t) => t.clone(),
            Piece::Image { .. } => String::new(),
        })
        .collect();
    assert_eq!(text, "Oslo 3.0°C S800");
    assert!(matches!(data, JsonValue::Object(_)));
}

#[test]
fn nws_points_address() {
    let loc = Coordinates { latitude: "39.7".to_string(), longitude: "-104.9".to_string() };
    assert_eq!(weathercli::nws::nws_points_url(&loc), "https://api.weather.gov/points/39.7,-104.9");
}

#[test]
fn user_agent_defaults() {
    assert_eq!(get_user_agent(None), "weathercli/1");
    assert_eq!(get_user_agent(Some("me/2".to_string())), "me/2");
}
