use weathercli::sentence::{forecast_sentence, hourly_forecast_sentence, three_hourly_forecast_sentence};

fn flags(prefix: &[bool], len: usize) -> Vec<bool> {
    let mut v = prefix.to_vec();
    v.resize(len, false);
    v
}

#[test]
fn continues_raining() {
    let rain = flags(&[true, true, true, false, false], 200);
    let snow = flags(&[], 200);
    assert_eq!(hourly_forecast_sentence(&rain, &snow, 0, &vec![803, 500]), "It will continue raining for 3 hours.");
}

#[test]
fn snow_comes_later() {
    let rain = flags(&[], 200);
    let snow = flags(&[false, false, true, true, false], 200);
    assert_eq!(hourly_forecast_sentence(&rain, &snow, 0, &vec![800]), "It will snow in 2 hours for 2 hours");
}

#[test]
fn rain_comes_later_from_current_index() {
    let rain = flags(&[true, false, false, false, true, true, true, false], 50);
    let snow = flags(&[], 50);
    assert_eq!(hourly_forecast_sentence(&rain, &snow, 1, &vec![800]), "It will rain in 3 hours for 3 hours");
}

#[test]
fn clear_week() {
    let mut rain = flags(&[], 300);
    rain[250] = true;
    let snow = flags(&[], 300);
    assert_eq!(
        hourly_forecast_sentence(&rain, &snow, 0, &vec![800]),
        "Conditions are predicted to be clear for the next 7 days."
    );
}

#[test]
fn continues_snowing() {
    let rain = flags(&[], 10);
    let snow = flags(&[true, true], 10);
    assert_eq!(hourly_forecast_sentence(&rain, &snow, 0, &vec![601]), "It will continue snowing for 2 hours.");
}

#[test]
fn three_hourly_counts_in_hours() {
    assert_eq!(three_hourly_forecast_sentence(&vec![500, 501, 800]), "It will continue raining for 6 hours.");
    assert_eq!(three_hourly_forecast_sentence(&vec![800, 800, 601, 800]), "It will snow in 6 hours for 3 hours");
    assert_eq!(
        three_hourly_forecast_sentence(&vec![800, 803]),
        "Conditions are predicted to be clear for the next 3 days."
    );
}

#[test]
fn generic_sentence() {
    let rain = vec![false, true, true, true, true];
    let snow = vec![false; 5];
    assert_eq!(forecast_sentence(&rain, &snow, false, false, 2, 5), "It will rain in 2 hours for 8 hours");
    assert_eq!(forecast_sentence(&rain, &snow, true, false, 1, 5), "It will continue raining for 0 hours.");
}
