use vstd::prelude::*;

use crate::condition::WeatherCondition;

verus! {

/// A place, as the decimal degree texts that providers put in their requests.
#[derive(Debug)]
pub struct Coordinates {
    pub latitude: String,
    pub longitude: String,
}

/// Wind speed (tenths of a mile or kilometre per hour) and heading (0..359).
#[derive(Clone, Copy, Debug)]
pub struct WindData {
    pub speed: i32,
    pub heading: u16,
}

/// One forecast period. Temperatures are in tenths of a degree of the unit
/// system chosen for the call.
#[derive(Debug)]
pub struct WeatherData {
    /// Milliseconds since the epoch.
    pub time: u64,
    pub temperature: i32,
    pub min_temp: i32,
    pub max_temp: i32,
    pub wind: WindData,
    pub dewpoint: i32,
    pub feels_like: i32,
    pub aqi: u8,
    pub cloud_cover: u8,
    pub conditions: Vec<WeatherCondition>,
    pub condition_sentence: String,
}

/// The provider-neutral forecast. Its periods are never empty, and the
/// current weather is the first of them.
#[derive(Debug)]
pub struct WeatherForecast {
    pub region: String,
    pub country: String,
    pub forecast: Vec<WeatherData>,
    pub forecast_sentence: String,
    /// The provider's own payload, when kept.
    pub raw_data: Option<String>,
}

impl WeatherForecast {
    /// The periods, current first.
    pub open spec fn periods(&self) -> Seq<WeatherData> {
        self.forecast@
    }

    /// At least one period.
    pub open spec fn wf(&self) -> bool {
        self.periods().len() >= 1
    }

    /// Assembles a forecast from its periods, current first.
    pub fn new(
        region: String,
        country: String,
        forecast: Vec<WeatherData>,
        forecast_sentence: String,
        raw_data: Option<String>,
    ) -> (r: WeatherForecast)
        requires
            forecast@.len() >= 1,
        ensures
            r.wf(),
            r.periods() == forecast@,
            r.region == region,
            r.country == country,
            r.forecast_sentence == forecast_sentence,
            r.raw_data == raw_data,
    {
        WeatherForecast { region, country, forecast, forecast_sentence, raw_data }
    }

    /// The current weather: the first period.
    pub fn current_weather(&self) -> (r: &WeatherData)
        requires
            self.wf(),
        ensures
            *r == self.periods()[0],
    {
        &self.forecast[0]
    }
}

} // verus!
