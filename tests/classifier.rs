use weathercli::classifier::{condition_codes, get_conditions};
use weathercli::condition::{CodeEntry, CodeTable, WeatherCondition};
use weathercli::error::WeatherError;

fn entry(code: u16) -> CodeEntry {
    CodeEntry {
        code,
        short: format!("s{code}"),
        long: format!("long {code}"),
        icon: format!("i{code}"),
        sentence: format!("Sentence {code}."),
        ascii: format!("art{code}"),
    }
}

fn standard_table() -> CodeTable {
    let codes: Vec<u16> = vec![500, 501, 502, 503, 601, 800, 801, 802, 803, 804];
    CodeTable { entries: codes.into_iter().map(entry).collect() }
}

fn ids(v: &[WeatherCondition]) -> Vec<u16> {
    v.iter().map(|c| c.condition_id).collect()
}

#[test]
fn classifier_clear() {
    assert_eq!(condition_codes(0, 0, 0, true), vec![800]);
    let conditions = get_conditions(0, 0, 0, true, &standard_table()).unwrap();
    assert_eq!(ids(&conditions), vec![800]);
    let sentence = weathercli::classifier::get_conditions_sentence(&conditions);
    assert!(sentence.starts_with("Sentence 800."));
}

#[test]
fn classifier_imperial_heavy_rain() {
    // 2.5 inches in thousandths
    assert_eq!(condition_codes(90, 2_500, 0, false), vec![804, 503]);
}

#[test]
fn classifier_metric_light_rain() {
    // 5.0 mm in thousandths
    assert_eq!(condition_codes(60, 5_000, 0, true), vec![803, 501]);
}

#[test]
fn classifier_cloud_bands_and_snow() {
    assert_eq!(condition_codes(24, 0, 0, true), vec![801]);
    assert_eq!(condition_codes(25, 0, 0, true), vec![802]);
    assert_eq!(condition_codes(49, 0, 0, true), vec![802]);
    assert_eq!(condition_codes(50, 0, 0, true), vec![803]);
    assert_eq!(condition_codes(84, 0, 0, true), vec![803]);
    assert_eq!(condition_codes(85, 0, 0, true), vec![804]);
    assert_eq!(condition_codes(100, 0, 1, true), vec![804, 601]);
    assert_eq!(condition_codes(10, 97, 3, false), vec![801, 500, 601]);
}

#[test]
fn classifier_rain_thresholds() {
    assert_eq!(condition_codes(0, 2_499, 0, true), vec![800, 500]);
    assert_eq!(condition_codes(0, 2_500, 0, true), vec![800, 501]);
    assert_eq!(condition_codes(0, 10_000, 0, true), vec![800, 502]);
    assert_eq!(condition_codes(0, 50_000, 0, true), vec![800, 503]);
    assert_eq!(condition_codes(0, 98, 0, false), vec![800, 501]);
    assert_eq!(condition_codes(0, 390, 0, false), vec![800, 502]);
    assert_eq!(condition_codes(0, 2_000, 0, false), vec![800, 503]);
}

#[test]
fn every_emitted_code_is_in_the_standard_table() {
    let table = standard_table();
    for cloud in [0u8, 10, 30, 60, 90] {
        for rain in [0u64, 50, 98, 300, 1_000, 3_000, 20_000, 60_000] {
            for snow in [0u64, 5] {
                for metric in [true, false] {
                    assert!(get_conditions(cloud, rain, snow, metric, &table).is_ok());
                }
            }
        }
    }
}

#[test]
fn condition_built_from_table() {
    let w = WeatherCondition::new(801, &standard_table()).unwrap();
    assert_eq!(w.condition_id, 801);
    assert_eq!(w.image_url, "https://openweathermap.org/img/wn/i801@4x.png");
    assert_eq!(w.sentence, "Sentence 801.");
    assert_eq!(w.image_ascii, "art801");
}

#[test]
fn missing_code_is_not_found() {
    let table = CodeTable { entries: vec![entry(800)] };
    assert!(matches!(WeatherCondition::new(804, &table), Err(WeatherError::NotFound(_))));
    assert!(matches!(get_conditions(0, 100, 0, true, &table), Err(WeatherError::NotFound(_))));
}

#[test]
fn sentences_are_joined_with_spaces() {
    let conditions = get_conditions(90, 60_000, 1, true, &standard_table()).unwrap();
    let s = weathercli::classifier::get_conditions_sentence(&conditions);
    assert_eq!(s, "Sentence 804. Sentence 503. Sentence 601.");
}
