use vstd::prelude::*;

use crate::model::Coordinates;

verus! {

/// The weather.com scraper shipped as a plugin.
pub struct TheWeatherChannel;

/// One weather.com page address for a place.
pub open spec fn twc_url(page: Seq<char>, lat: Seq<char>, lon: Seq<char>) -> Seq<char> {
    "https://weather.com/weather/"@ + page + "/l/"@ + lat + ","@ + lon
}

impl TheWeatherChannel {
    /// The name it registers under.
    pub fn name(&self) -> (r: String)
        ensures
            r@ == "theweatherchannel"@,
    {
        String::from_str("theweatherchannel")
    }

    /// Its help text.
    pub fn help(&self) -> (r: String)
        ensures
            r@ == "A weather channel scraper (weather.com)"@,
    {
        String::from_str("A weather channel scraper (weather.com)")
    }

    /// The cookie that selects the unit system: `unitOfMeasurement` is `m`
    /// for metric and `e` for imperial.
    pub fn unit_cookie(&self, metric: bool) -> (r: (String, String))
        ensures
            r.0@ == "unitOfMeasurement"@,
            r.1@ == (if metric {
                "m"@
            } else {
                "e"@
            }),
    {
        let value = if metric {
            String::from_str("m")
        } else {
            String::from_str("e")
        };
        (String::from_str("unitOfMeasurement"), value)
    }

    /// The today, hour-by-hour and air-quality pages for a place, in order.
    pub fn urls(&self, c: &Coordinates) -> (r: Vec<String>)
        ensures
            r@.len() == 3,
            r@[0]@ == twc_url("today"@, c.latitude@, c.longitude@),
            r@[1]@ == twc_url("hourbyhour"@, c.latitude@, c.longitude@),
            r@[2]@ == twc_url("air-quality"@, c.latitude@, c.longitude@),
    {
        let mut out: Vec<String> = Vec::new();
        out.push(page_url("today", c));
        out.push(page_url("hourbyhour", c));
        out.push(page_url("air-quality", c));
        out
    }
}

fn page_url(page: &str, c: &Coordinates) -> (r: String)
    ensures
        r@ == twc_url(page@, c.latitude@, c.longitude@),
{
    let mut s = String::from_str("https://weather.com/weather/");
    s.append(page);
    s.append("/l/");
    s.append(c.latitude.as_str());
    s.append(",");
    s.append(c.longitude.as_str());
    s
}

} // verus!
