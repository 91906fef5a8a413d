use vstd::prelude::*;

use crate::classifier::{conditions_for_codes, get_conditions_sentence, joined_sentences};
use crate::condition::{built_from, table_has, CodeEntry, CodeTable};
use crate::error::WeatherError;
use crate::model::{Coordinates, WeatherData, WeatherForecast, WindData};
use crate::sentence::sentence_of;

verus! {

/// One endpoint address of the commercial REST provider.
pub open spec fn owm_url(
    base: Seq<char>,
    endpoint: Seq<char>,
    lat: Seq<char>,
    lon: Seq<char>,
    key: Seq<char>,
    metric: bool,
) -> Seq<char> {
    base + endpoint + "?lat="@ + lat + "&lon="@ + lon + "&appid="@ + key + (if metric {
        "&units=metric"@
    } else {
        "&units=imperial"@
    })
}

fn build_url(base: &str, endpoint: &str, location: &Coordinates, key: &str, metric: bool) -> (r: String)
    ensures
        r@ == owm_url(base@, endpoint@, location.latitude@, location.longitude@, key@, metric),
{
    let mut s = String::from_str(base);
    s.append(endpoint);
    s.append("?lat=");
    s.append(location.latitude.as_str());
    s.append("&lon=");
    s.append(location.longitude.as_str());
    s.append("&appid=");
    s.append(key);
    if metric {
        s.append("&units=metric");
    } else {
        s.append("&units=imperial");
    }
    s
}

/// The current-weather, air-quality and forecast addresses, in that order.
pub fn open_weather_map_get_api_urls(url: &str, api_key: &str, location: &Coordinates, metric: bool) -> (r: [String; 3])
    ensures
        r[0]@ == owm_url(url@, "weather"@, location.latitude@, location.longitude@, api_key@, metric),
        r[1]@ == owm_url(url@, "air_pollution"@, location.latitude@, location.longitude@, api_key@, metric),
        r[2]@ == owm_url(url@, "forecast"@, location.latitude@, location.longitude@, api_key@, metric),
{
    let weather = build_url(url, "weather", location, api_key, metric);
    let air = build_url(url, "air_pollution", location, api_key, metric);
    let forecast = build_url(url, "forecast", location, api_key, metric);
    [weather, air, forecast]
}

/// One decoded period of the commercial REST provider; its condition codes
/// come from the payload as they are.
#[derive(Debug)]
pub struct OwmPeriod {
    pub time: u64,
    pub temperature: i32,
    pub min_temp: i32,
    pub max_temp: i32,
    pub wind: WindData,
    pub dewpoint: i32,
    pub feels_like: i32,
    pub aqi: u8,
    pub cloud_cover: u8,
    pub condition_ids: Vec<u16>,
}

/// Every code of `p` is in the table.
pub open spec fn codes_in_table(p: OwmPeriod, t: Seq<CodeEntry>) -> bool {
    forall|j: int| 0 <= j < p.condition_ids@.len() ==> table_has(t, #[trigger] p.condition_ids@[j])
}

/// `w` is the period built from `p`.
pub open spec fn is_period(p: OwmPeriod, t: Seq<CodeEntry>, w: WeatherData) -> bool {
    &&& w.time == p.time
    &&& w.temperature == p.temperature
    &&& w.min_temp == p.min_temp
    &&& w.max_temp == p.max_temp
    &&& w.wind == p.wind
    &&& w.dewpoint == p.dewpoint
    &&& w.feels_like == p.feels_like
    &&& w.aqi == p.aqi
    &&& w.cloud_cover == p.cloud_cover
    &&& w.conditions@.len() == p.condition_ids@.len()
    &&& forall|j: int| 0 <= j < p.condition_ids@.len() ==> built_from(t, p.condition_ids@[j], #[trigger] w.conditions@[j])
    &&& w.condition_sentence@ == joined_sentences(w.conditions@)
}

fn owm_period(p: &OwmPeriod, table: &CodeTable) -> (r: Result<WeatherData, WeatherError>)
    ensures
        r is Ok <==> codes_in_table(*p, table.entries@),
        r matches Ok(w) ==> is_period(*p, table.entries@, w),
        r matches Err(e) ==> e is NotFound,
{
    let conditions = match conditions_for_codes(&p.condition_ids, table) {
        Ok(c) => c,
        Err(e) => {
            return Err(e);
        },
    };
    let condition_sentence = get_conditions_sentence(&conditions);
    Ok(
        WeatherData {
            time: p.time,
            temperature: p.temperature,
            min_temp: p.min_temp,
            max_temp: p.max_temp,
            wind: p.wind,
            dewpoint: p.dewpoint,
            feels_like: p.feels_like,
            aqi: p.aqi,
            cloud_cover: p.cloud_cover,
            conditions,
            condition_sentence,
        },
    )
}

/// The periods of a forecast: the current one, then the three-hourly ones.
pub open spec fn all_periods(current: OwmPeriod, future: Seq<OwmPeriod>) -> Seq<OwmPeriod> {
    seq![current] + future
}

/// Builds the forecast of the commercial REST provider: the current period,
/// then each three-hourly period, with the three-hourly forecast sentence. An
/// empty API key is `BadRequest`; a period without a condition code is
/// `Upstream`; a code missing from the table is `NotFound`.
pub fn get_openweathermap_forecast(
    api_key: &str,
    current: &OwmPeriod,
    future: &Vec<OwmPeriod>,
    table: &CodeTable,
    region: String,
    country: String,
) -> (r: Result<WeatherForecast, WeatherError>)
    ensures
        ({
            let ps = all_periods(*current, future@);
            &&& r is Ok <==> api_key@.len() > 0 && (forall|k: int|
                0 <= k < ps.len() ==> (#[trigger] ps[k]).condition_ids@.len() > 0) && (forall|k: int|
                0 <= k < ps.len() ==> codes_in_table(#[trigger] ps[k], table.entries@))
            &&& r matches Err(e) ==> if api_key@.len() == 0 {
                e is BadRequest
            } else if exists|k: int| 0 <= k < ps.len() && (#[trigger] ps[k]).condition_ids@.len() == 0 {
                e is Upstream
            } else {
                e is NotFound
            }
            &&& r matches Ok(f) ==> {
                &&& f.wf()
                &&& f.periods().len() == ps.len()
                &&& forall|k: int| 0 <= k < ps.len() ==> is_period(ps[k], table.entries@, #[trigger] f.periods()[k])
                &&& f.region == region
                &&& f.country == country
                &&& f.raw_data is None
                &&& f.forecast_sentence@ == sentence_of(
                    ps.map_values(|p: OwmPeriod| p.condition_ids@[0] / 100 == 5),
                    ps.map_values(|p: OwmPeriod| p.condition_ids@[0] / 100 == 6),
                    ps[0].condition_ids@[0] / 100 == 5,
                    ps[0].condition_ids@[0] / 100 == 6,
                    3,
                    3,
                )
            }
        }),
{
    let ghost ps = all_periods(*current, future@);
    if api_key.unicode_len() == 0 {
        return Err(WeatherError::BadRequest(String::from_str("an API key is required")));
    }
    let mut first_codes: Vec<u16> = Vec::new();
    if current.condition_ids.len() == 0 {
        assert(ps[0].condition_ids@.len() == 0);
        return Err(WeatherError::Upstream(String::from_str("a period has no condition")));
    }
    first_codes.push(current.condition_ids[0]);
    let mut i: usize = 0;
    while i < future.len()
        invariant
            api_key@.len() > 0,
            ps == all_periods(*current, future@),
            0 <= i <= future@.len(),
            first_codes@.len() == i + 1,
            forall|k: int| 0 <= k <= i ==> (#[trigger] ps[k]).condition_ids@.len() > 0,
            forall|k: int| 0 <= k <= i ==> first_codes@[k] == (#[trigger] ps[k]).condition_ids@[0],
        decreases future.len() - i,
    {
        let p = &future[i];
        assert(*p == ps[i + 1]);
        if p.condition_ids.len() == 0 {
            assert(ps[i + 1].condition_ids@.len() == 0);
            return Err(WeatherError::Upstream(String::from_str("a period has no condition")));
        }
        first_codes.push(p.condition_ids[0]);
        i = i + 1;
    }
    let mut periods: Vec<WeatherData> = Vec::new();
    match owm_period(current, table) {
        Ok(w) => {
            periods.push(w);
        },
        Err(e) => {
            assert(!codes_in_table(ps[0], table.entries@));
            return Err(e);
        },
    }
    let mut k: usize = 0;
    while k < future.len()
        invariant
            api_key@.len() > 0,
            ps == all_periods(*current, future@),
            forall|m: int| 0 <= m < ps.len() ==> (#[trigger] ps[m]).condition_ids@.len() > 0,
            0 <= k <= future@.len(),
            periods@.len() == k + 1,
            forall|m: int| 0 <= m <= k ==> is_period(ps[m], table.entries@, #[trigger] periods@[m]),
            forall|m: int| 0 <= m <= k ==> codes_in_table(#[trigger] ps[m], table.entries@),
        decreases future.len() - k,
    {
        let p = &future[k];
        assert(*p == ps[k + 1]);
        match owm_period(p, table) {
            Ok(w) => {
                periods.push(w);
            },
            Err(e) => {
                assert(!codes_in_table(ps[k + 1], table.entries@));
                return Err(e);
            },
        }
        k = k + 1;
    }
    let sentence = crate::sentence::three_hourly_forecast_sentence(&first_codes);
    proof {
        assert(first_codes@ =~= ps.map_values(|p: OwmPeriod| p.condition_ids@[0]));
        assert(first_codes@.map_values(|c: u16| c / 100 == 5) =~= ps.map_values(
            |p: OwmPeriod| p.condition_ids@[0] / 100 == 5,
        ));
        assert(first_codes@.map_values(|c: u16| c / 100 == 6) =~= ps.map_values(
            |p: OwmPeriod| p.condition_ids@[0] / 100 == 6,
        ));
    }
    Ok(WeatherForecast::new(region, country, periods, sentence, None))
}

} // verus!
