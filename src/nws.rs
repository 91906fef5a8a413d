use vstd::prelude::*;

use crate::classifier::{condition_codes_of, get_conditions, get_conditions_sentence, joined_sentences};
use crate::condition::{built_from, table_has, CodeEntry, CodeTable};
use crate::error::WeatherError;
use crate::model::{Coordinates, WeatherData, WeatherForecast, WindData};

verus! {

/// The first values of the government gridded payload, always metric:
/// temperatures in tenths of a degree Celsius, wind in tenths of a km/h,
/// precipitation and snowfall in thousandths of a millimetre.
#[derive(Debug)]
pub struct NwsData {
    pub temperature: i16,
    pub min_temperature: i16,
    pub max_temperature: i16,
    pub dewpoint: i16,
    pub apparent_temperature: i16,
    pub wind_speed: i32,
    pub wind_direction: u16,
    pub sky_cover: u8,
    pub precipitation: u64,
    pub snowfall: u64,
}

/// Division rounding toward zero.
pub open spec fn div_toward_zero(a: int, b: int) -> int {
    if a >= 0 {
        a / b
    } else {
        -((-a) / b)
    }
}

/// A temperature in tenths: Celsius when metric, else `F = C * 9 / 5 + 32`.
pub open spec fn temperature_in(c: int, metric: bool) -> int {
    if metric {
        c
    } else {
        div_toward_zero(c * 9, 5) + 320
    }
}

/// A speed in tenths: km/h when metric, else `mph = km/h * 0.62`.
pub open spec fn speed_in(k: int, metric: bool) -> int {
    if metric {
        k
    } else {
        div_toward_zero(k * 62, 100)
    }
}

fn convert_temp(c: i16, metric: bool) -> (r: i32)
    ensures
        r == temperature_in(c as int, metric),
{
    if metric {
        c as i32
    } else {
        let x: i32 = c as i32 * 9;
        let q: i32 = if x >= 0 {
            x / 5
        } else {
            -((-x) / 5)
        };
        q + 320
    }
}

fn convert_speed(k: i32, metric: bool) -> (r: i32)
    ensures
        r == speed_in(k as int, metric),
{
    if metric {
        k
    } else {
        let x: i64 = k as i64 * 62;
        let q: i64 = if x >= 0 {
            x / 100
        } else {
            -((-x) / 100)
        };
        q as i32
    }
}

/// The codes of the current period.
pub open spec fn nws_codes(d: NwsData, metric: bool) -> Seq<u16> {
    condition_codes_of(d.sky_cover, d.precipitation, d.snowfall, metric)
}

/// `w` is the current period of `d`.
pub open spec fn is_current(d: NwsData, metric: bool, t: Seq<CodeEntry>, now: u64, w: WeatherData) -> bool {
    let codes = nws_codes(d, metric);
    &&& w.time == now
    &&& w.temperature == temperature_in(d.temperature as int, metric)
    &&& w.min_temp == temperature_in(d.min_temperature as int, metric)
    &&& w.max_temp == temperature_in(d.max_temperature as int, metric)
    &&& w.dewpoint == temperature_in(d.dewpoint as int, metric)
    &&& w.feels_like == temperature_in(d.apparent_temperature as int, metric)
    &&& w.wind.speed == speed_in(d.wind_speed as int, metric)
    &&& w.wind.heading == d.wind_direction
    &&& w.aqi == 0
    &&& w.cloud_cover == d.sky_cover
    &&& w.conditions@.len() == codes.len()
    &&& forall|j: int| 0 <= j < codes.len() ==> built_from(t, codes[j], #[trigger] w.conditions@[j])
    &&& w.condition_sentence@ == joined_sentences(w.conditions@)
}

/// Every code of the current period is in the table.
pub open spec fn nws_codes_known(d: NwsData, metric: bool, t: Seq<CodeEntry>) -> bool {
    forall|j: int| 0 <= j < nws_codes(d, metric).len() ==> table_has(t, #[trigger] nws_codes(d, metric)[j])
}

/// Projects the gridded payload into the current period, converting to
/// imperial units unless `metric`. A code missing from the table is
/// `NotFound`.
pub fn get_current(data: &NwsData, metric: bool, table: &CodeTable, now: u64) -> (r: Result<WeatherData, WeatherError>)
    ensures
        r is Ok <==> nws_codes_known(*data, metric, table.entries@),
        r matches Ok(w) ==> is_current(*data, metric, table.entries@, now, w),
        r matches Err(e) ==> e is NotFound,
{
    let conditions = match get_conditions(data.sky_cover, data.precipitation, data.snowfall, metric, table) {
        Ok(c) => c,
        Err(e) => {
            proof {
                let codes = nws_codes(*data, metric);
                let j = choose|j: int| 0 <= j < codes.len() && !table_has(table.entries@, #[trigger] codes[j]);
                assert(!table_has(table.entries@, nws_codes(*data, metric)[j]));
            }
            return Err(e);
        },
    };
    let condition_sentence = get_conditions_sentence(&conditions);
    Ok(
        WeatherData {
            time: now,
            temperature: convert_temp(data.temperature, metric),
            min_temp: convert_temp(data.min_temperature, metric),
            max_temp: convert_temp(data.max_temperature, metric),
            wind: WindData { speed: convert_speed(data.wind_speed, metric), heading: data.wind_direction },
            dewpoint: convert_temp(data.dewpoint, metric),
            feels_like: convert_temp(data.apparent_temperature, metric),
            aqi: 0,
            cloud_cover: data.sky_cover,
            conditions,
            condition_sentence,
        },
    )
}

/// The forecast of the government gridded provider: the current period
/// alone, with an empty forecast sentence.
pub fn get_nws_forecast(
    data: &NwsData,
    metric: bool,
    table: &CodeTable,
    now: u64,
    region: String,
    country: String,
) -> (r: Result<WeatherForecast, WeatherError>)
    ensures
        r is Ok <==> nws_codes_known(*data, metric, table.entries@),
        r matches Err(e) ==> e is NotFound,
        r matches Ok(f) ==> f.wf() && f.periods().len() == 1 && is_current(
            *data,
            metric,
            table.entries@,
            now,
            f.periods()[0],
        ) && f.region == region && f.country == country && f.forecast_sentence@.len() == 0 && f.raw_data is None,
{
    let current = match get_current(data, metric, table, now) {
        Ok(w) => w,
        Err(e) => {
            return Err(e);
        },
    };
    let mut periods: Vec<WeatherData> = Vec::new();
    periods.push(current);
    Ok(WeatherForecast::new(region, country, periods, String::new(), None))
}

/// The address of the points lookup, whose answer names the gridded
/// forecast address for a place.
pub fn nws_points_url(location: &Coordinates) -> (r: String)
    ensures
        r@ == "https://api.weather.gov/points/"@ + location.latitude@ + ","@ + location.longitude@,
{
    let mut s = String::from_str("https://api.weather.gov/points/");
    s.append(location.latitude.as_str());
    s.append(",");
    s.append(location.longitude.as_str());
    s
}

} // verus!
