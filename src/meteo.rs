use vstd::prelude::*;

use crate::classifier::{condition_codes, condition_codes_of, get_conditions, get_conditions_sentence, joined_sentences};
use crate::condition::{built_from, table_has, CodeEntry, CodeTable};
use crate::error::WeatherError;
use crate::model::{WeatherData, WeatherForecast, WindData};
use crate::sentence::{any_in_group, hourly_forecast_sentence, sentence_of, window};

verus! {

/// The decoded payload of the tile provider: hourly series indexed like
/// `time`, daily series with one entry per 24 hours, and the hourly air
/// quality. Temperatures and speeds are in tenths; rain and snow in
/// thousandths of the unit system's length unit.
#[derive(Debug)]
pub struct MeteoData {
    pub current_time: String,
    pub time: Vec<String>,
    pub temperature: Vec<i32>,
    pub apparent_temperature: Vec<i32>,
    pub dewpoint: Vec<i32>,
    pub cloudcover: Vec<u8>,
    pub rain: Vec<u64>,
    pub snowfall: Vec<u64>,
    pub windspeed: Vec<i32>,
    pub winddirection: Vec<u16>,
    pub daily_min: Vec<i32>,
    pub daily_max: Vec<i32>,
    pub european_aqi: Vec<u8>,
}

/// Every hourly series covers every hour and every daily series every day.
pub open spec fn complete(d: MeteoData) -> bool {
    let n = d.time@.len();
    &&& d.temperature@.len() == n
    &&& d.apparent_temperature@.len() == n
    &&& d.dewpoint@.len() == n
    &&& d.cloudcover@.len() == n
    &&& d.rain@.len() == n
    &&& d.snowfall@.len() == n
    &&& d.windspeed@.len() == n
    &&& d.winddirection@.len() == n
    &&& d.daily_min@.len() * 24 >= n
    &&& d.daily_max@.len() * 24 >= n
}

/// Some hour carries the current timestamp.
pub open spec fn has_current(d: MeteoData) -> bool {
    exists|i: int| 0 <= i < d.time@.len() && #[trigger] d.time@[i]@ == d.current_time@
}

/// The first hour that carries the current timestamp.
pub open spec fn current_index(d: MeteoData) -> int {
    choose|i: int|
        0 <= i < d.time@.len() && #[trigger] d.time@[i]@ == d.current_time@ && forall|j: int|
            0 <= j < i ==> d.time@[j]@ != d.current_time@
}

/// How many periods the forecast holds: the current hour, then every later
/// hour but the last.
pub open spec fn period_count(d: MeteoData) -> int {
    let c = current_index(d);
    if c + 1 < d.time@.len() - 1 {
        d.time@.len() - 1 - c
    } else {
        1
    }
}

/// The codes of hour `i`.
pub open spec fn hour_codes(d: MeteoData, i: int, metric: bool) -> Seq<u16> {
    condition_codes_of(d.cloudcover@[i], d.rain@[i], d.snowfall@[i], metric)
}

/// Every code of every hour that the forecast covers is in the table.
pub open spec fn codes_known(d: MeteoData, metric: bool, t: Seq<CodeEntry>) -> bool {
    forall|k: int, j: int|
        0 <= k < period_count(d) && 0 <= j < hour_codes(d, current_index(d) + k, metric).len() ==> table_has(
            t,
            #[trigger] hour_codes(d, current_index(d) + k, metric)[j],
        )
}

/// `w` is the period built from hour `i`.
pub open spec fn is_hour(d: MeteoData, i: int, metric: bool, t: Seq<CodeEntry>, now: u64, w: WeatherData) -> bool {
    let codes = hour_codes(d, i, metric);
    &&& w.time == now
    &&& w.temperature == d.temperature@[i]
    &&& w.min_temp == d.daily_min@[i / 24]
    &&& w.max_temp == d.daily_max@[i / 24]
    &&& w.wind.speed == d.windspeed@[i]
    &&& w.wind.heading == d.winddirection@[i]
    &&& w.dewpoint == d.dewpoint@[i]
    &&& w.feels_like == d.apparent_temperature@[i]
    &&& w.aqi == (if i < d.european_aqi@.len() {
        d.european_aqi@[i]
    } else {
        0u8
    })
    &&& w.cloud_cover == d.cloudcover@[i]
    &&& w.conditions@.len() == codes.len()
    &&& forall|j: int| 0 <= j < codes.len() ==> built_from(t, codes[j], #[trigger] w.conditions@[j])
    &&& w.condition_sentence@ == joined_sentences(w.conditions@)
}

/// Rain or snow flags: whether each amount is nonzero.
pub open spec fn flags(amounts: Seq<u64>) -> Seq<bool> {
    amounts.map_values(|a: u64| a != 0)
}

fn locate_current(d: &MeteoData) -> (r: Option<usize>)
    ensures
        r is None <==> !has_current(*d),
        r matches Some(i) ==> i == current_index(*d) && i < d.time@.len(),
{
    let mut i: usize = 0;
    while i < d.time.len()
        invariant
            0 <= i <= d.time@.len(),
            forall|j: int| 0 <= j < i ==> #[trigger] d.time@[j]@ != d.current_time@,
        decreases d.time.len() - i,
    {
        if d.time[i] == d.current_time {
            let ghost c = current_index(*d);
            proof {
                assert(d.time@[i as int]@ == d.current_time@);
                if c != i {
                    assert(d.time@[c]@ == d.current_time@);
                }
            }
            return Some(i);
        }
        i = i + 1;
    }
    None
}

fn is_complete(d: &MeteoData) -> (r: bool)
    ensures
        r == complete(*d),
{
    let n: usize = d.time.len();
    d.temperature.len() == n && d.apparent_temperature.len() == n && d.dewpoint.len() == n
        && d.cloudcover.len() == n && d.rain.len() == n && d.snowfall.len() == n && d.windspeed.len() == n
        && d.winddirection.len() == n && d.daily_min.len() as u128 * 24 >= n as u128
        && d.daily_max.len() as u128 * 24 >= n as u128
}

fn hour_period(d: &MeteoData, i: usize, metric: bool, table: &CodeTable, now: u64) -> (r: Result<
    WeatherData,
    WeatherError,
>)
    requires
        complete(*d),
        i < d.time@.len(),
    ensures
        r is Ok <==> forall|j: int|
            0 <= j < hour_codes(*d, i as int, metric).len() ==> table_has(
                table.entries@,
                #[trigger] hour_codes(*d, i as int, metric)[j],
            ),
        r matches Ok(w) ==> is_hour(*d, i as int, metric, table.entries@, now, w),
        r matches Err(e) ==> e is NotFound,
{
    let conditions = match get_conditions(d.cloudcover[i], d.rain[i], d.snowfall[i], metric, table) {
        Ok(c) => c,
        Err(e) => {
            proof {
                let codes = condition_codes_of(d.cloudcover@[i as int], d.rain@[i as int], d.snowfall@[i as int], metric);
                assert(codes == hour_codes(*d, i as int, metric));
                let j = choose|j: int| 0 <= j < codes.len() && !table_has(table.entries@, #[trigger] codes[j]);
                assert(!table_has(table.entries@, hour_codes(*d, i as int, metric)[j]));
            }
            return Err(e);
        },
    };
    let condition_sentence = get_conditions_sentence(&conditions);
    let aqi: u8 = if i < d.european_aqi.len() {
        d.european_aqi[i]
    } else {
        0
    };
    Ok(
        WeatherData {
            time: now,
            temperature: d.temperature[i],
            min_temp: d.daily_min[i / 24],
            max_temp: d.daily_max[i / 24],
            wind: WindData { speed: d.windspeed[i], heading: d.winddirection[i] },
            dewpoint: d.dewpoint[i],
            feels_like: d.apparent_temperature[i],
            aqi,
            cloud_cover: d.cloudcover[i],
            conditions,
            condition_sentence,
        },
    )
}

fn nonzero_flags(amounts: &Vec<u64>) -> (r: Vec<bool>)
    ensures
        r@ == flags(amounts@),
{
    let mut out: Vec<bool> = Vec::new();
    let mut i: usize = 0;
    while i < amounts.len()
        invariant
            0 <= i <= amounts@.len(),
            out@ == flags(amounts@.subrange(0, i as int)),
        decreases amounts.len() - i,
    {
        out.push(amounts[i] != 0);
        proof {
            assert(flags(amounts@.subrange(0, i + 1)) =~= flags(amounts@.subrange(0, i as int)).push(
                amounts@[i as int] != 0,
            ));
        }
        i = i + 1;
    }
    assert(amounts@.subrange(0, amounts@.len() as int) =~= amounts@);
    out
}

/// Builds the forecast of the tile provider: the current hour, located by its
/// timestamp, then every later hour but the last, with the hourly forecast
/// sentence. Incomplete series or an absent current hour are `Upstream`; a
/// code missing from the table is `NotFound`.
pub fn get_meteo_forecast(
    data: &MeteoData,
    metric: bool,
    table: &CodeTable,
    now: u64,
    region: String,
    country: String,
) -> (r: Result<WeatherForecast, WeatherError>)
    ensures
        r is Ok <==> complete(*data) && has_current(*data) && codes_known(*data, metric, table.entries@),
        r matches Err(e) ==> (if complete(*data) && has_current(*data) {
            e is NotFound
        } else {
            e is Upstream
        }),
        r matches Ok(f) ==> {
            let c = current_index(*data);
            &&& f.wf()
            &&& f.periods().len() == period_count(*data)
            &&& forall|k: int|
                0 <= k < period_count(*data) ==> is_hour(
                    *data,
                    c + k,
                    metric,
                    table.entries@,
                    now,
                    #[trigger] f.periods()[k],
                )
            &&& f.region == region
            &&& f.country == country
            &&& f.raw_data is None
            &&& f.forecast_sentence@ == sentence_of(
                window(flags(data.rain@), c),
                window(flags(data.snowfall@), c),
                any_in_group(hour_codes(*data, c, metric), 5),
                any_in_group(hour_codes(*data, c, metric), 6),
                1,
                7,
            )
        },
{
    if !is_complete(data) {
        return Err(WeatherError::Upstream(String::from_str("incomplete hourly or daily series")));
    }
    let c = match locate_current(data) {
        Some(c) => c,
        None => {
            return Err(WeatherError::Upstream(String::from_str("current hour not in the hourly series")));
        },
    };
    let len: usize = data.time.len();
    let count: usize = if c + 1 < len - 1 {
        len - 1 - c
    } else {
        1
    };
    let mut periods: Vec<WeatherData> = Vec::new();
    let mut k: usize = 0;
    while k < count
        invariant
            complete(*data),
            has_current(*data),
            c == current_index(*data),
            c < len,
            len == data.time@.len(),
            count == period_count(*data),
            c + count <= len,
            0 <= k <= count,
            periods@.len() == k,
            forall|m: int| 0 <= m < k ==> is_hour(*data, c + m, metric, table.entries@, now, #[trigger] periods@[m]),
            forall|m: int, j: int|
                0 <= m < k && 0 <= j < hour_codes(*data, c + m, metric).len() ==> table_has(
                    table.entries@,
                    #[trigger] hour_codes(*data, c + m, metric)[j],
                ),
        decreases count - k,
    {
        match hour_period(data, c + k, metric, table, now) {
            Ok(w) => {
                periods.push(w);
            },
            Err(e) => {
                proof {
                    let kk = k as int;
                    let jj = choose|j: int|
                        0 <= j < hour_codes(*data, c + kk, metric).len() && !table_has(
                            table.entries@,
                            #[trigger] hour_codes(*data, c + kk, metric)[j],
                        );
                    assert(!codes_known(*data, metric, table.entries@)) by {
                        assert(!table_has(table.entries@, hour_codes(*data, current_index(*data) + kk, metric)[jj]));
                    }
                }
                return Err(e);
            },
        }
        k = k + 1;
    }
    let rain = nonzero_flags(&data.rain);
    let snow = nonzero_flags(&data.snowfall);
    let current_codes = condition_codes(data.cloudcover[c], data.rain[c], data.snowfall[c], metric);
    let sentence = hourly_forecast_sentence(&rain, &snow, c, &current_codes);
    let f = WeatherForecast::new(region, country, periods, sentence, None);
    Ok(f)
}

} // verus!
