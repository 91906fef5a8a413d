use vstd::prelude::*;

use crate::condition::{CodeEntry, CodeTable, WeatherCondition};
use crate::error::WeatherError;
use crate::json::JsonValue;
use crate::layout_item::{all_digits, digits_value};
use crate::model::{WeatherData, WeatherForecast};

verus! {

/// `j` is the JSON form of a condition.
pub open spec fn condition_json(c: WeatherCondition, j: JsonValue) -> bool {
    j matches JsonValue::Object(m) && m@.len() == 4
        && m@[0].0@ == "condition_id"@ && m@[0].1 == JsonValue::Int(c.condition_id as i64)
        && m@[1].0@ == "image_url"@ && m@[1].1 == JsonValue::Str(c.image_url)
        && m@[2].0@ == "sentence"@ && m@[2].1 == JsonValue::Str(c.sentence)
        && m@[3].0@ == "image_ascii"@ && m@[3].1 == JsonValue::Str(c.image_ascii)
}

/// `j` is the JSON form of a period: temperatures and speeds as tenths.
pub open spec fn data_json(w: WeatherData, j: JsonValue) -> bool {
    j matches JsonValue::Object(m) && m@.len() == 11
        && m@[0].0@ == "time"@ && m@[0].1 == JsonValue::Int(w.time as i64)
        && m@[1].0@ == "temperature"@ && m@[1].1 == JsonValue::Tenths(w.temperature as i64)
        && m@[2].0@ == "min_temp"@ && m@[2].1 == JsonValue::Tenths(w.min_temp as i64)
        && m@[3].0@ == "max_temp"@ && m@[3].1 == JsonValue::Tenths(w.max_temp as i64)
        && m@[4].0@ == "wind"@ && (m@[4].1 matches JsonValue::Object(wm) && wm@.len() == 2
            && wm@[0].0@ == "speed"@ && wm@[0].1 == JsonValue::Tenths(w.wind.speed as i64)
            && wm@[1].0@ == "heading"@ && wm@[1].1 == JsonValue::Int(w.wind.heading as i64))
        && m@[5].0@ == "dewpoint"@ && m@[5].1 == JsonValue::Tenths(w.dewpoint as i64)
        && m@[6].0@ == "feels_like"@ && m@[6].1 == JsonValue::Tenths(w.feels_like as i64)
        && m@[7].0@ == "aqi"@ && m@[7].1 == JsonValue::Int(w.aqi as i64)
        && m@[8].0@ == "cloud_cover"@ && m@[8].1 == JsonValue::Int(w.cloud_cover as i64)
        && m@[9].0@ == "conditions"@ && (m@[9].1 matches JsonValue::Array(cs) && cs@.len() == w.conditions@.len()
            && forall|k: int| 0 <= k < cs@.len() ==> condition_json(w.conditions@[k], #[trigger] cs@[k]))
        && m@[10].0@ == "condition_sentence"@ && m@[10].1 == JsonValue::Str(w.condition_sentence)
}

/// `j` is the JSON form of a forecast, with the current weather repeated
/// under its own key.
pub open spec fn forecast_json(f: WeatherForecast, j: JsonValue) -> bool {
    j matches JsonValue::Object(m) && m@.len() == 5
        && m@[0].0@ == "region"@ && m@[0].1 == JsonValue::Str(f.region)
        && m@[1].0@ == "country"@ && m@[1].1 == JsonValue::Str(f.country)
        && m@[2].0@ == "forecast"@ && (m@[2].1 matches JsonValue::Array(ps) && ps@.len() == f.periods().len()
            && forall|k: int| 0 <= k < ps@.len() ==> data_json(f.periods()[k], #[trigger] ps@[k]))
        && m@[3].0@ == "current_weather"@ && data_json(f.periods()[0], m@[3].1)
        && m@[4].0@ == "forecast_sentence"@ && m@[4].1 == JsonValue::Str(f.forecast_sentence)
}

fn condition_to_json(c: &WeatherCondition) -> (r: JsonValue)
    ensures
        condition_json(*c, r),
{
    let mut m: Vec<(String, JsonValue)> = Vec::new();
    m.push((String::from_str("condition_id"), JsonValue::Int(c.condition_id as i64)));
    m.push((String::from_str("image_url"), JsonValue::Str(c.image_url.clone())));
    m.push((String::from_str("sentence"), JsonValue::Str(c.sentence.clone())));
    m.push((String::from_str("image_ascii"), JsonValue::Str(c.image_ascii.clone())));
    JsonValue::Object(m)
}

fn data_to_json(w: &WeatherData) -> (r: JsonValue)
    ensures
        data_json(*w, r),
{
    let mut wind: Vec<(String, JsonValue)> = Vec::new();
    wind.push((String::from_str("speed"), JsonValue::Tenths(w.wind.speed as i64)));
    wind.push((String::from_str("heading"), JsonValue::Int(w.wind.heading as i64)));
    let mut cs: Vec<JsonValue> = Vec::new();
    let mut i: usize = 0;
    while i < w.conditions.len()
        invariant
            0 <= i <= w.conditions@.len(),
            cs@.len() == i,
            forall|k: int| 0 <= k < i ==> condition_json(w.conditions@[k], #[trigger] cs@[k]),
        decreases w.conditions.len() - i,
    {
        cs.push(condition_to_json(&w.conditions[i]));
        i = i + 1;
    }
    let mut m: Vec<(String, JsonValue)> = Vec::new();
    m.push((String::from_str("time"), JsonValue::Int(w.time as i64)));
    m.push((String::from_str("temperature"), JsonValue::Tenths(w.temperature as i64)));
    m.push((String::from_str("min_temp"), JsonValue::Tenths(w.min_temp as i64)));
    m.push((String::from_str("max_temp"), JsonValue::Tenths(w.max_temp as i64)));
    m.push((String::from_str("wind"), JsonValue::Object(wind)));
    m.push((String::from_str("dewpoint"), JsonValue::Tenths(w.dewpoint as i64)));
    m.push((String::from_str("feels_like"), JsonValue::Tenths(w.feels_like as i64)));
    m.push((String::from_str("aqi"), JsonValue::Int(w.aqi as i64)));
    m.push((String::from_str("cloud_cover"), JsonValue::Int(w.cloud_cover as i64)));
    m.push((String::from_str("conditions"), JsonValue::Array(cs)));
    m.push((String::from_str("condition_sentence"), JsonValue::Str(w.condition_sentence.clone())));
    JsonValue::Object(m)
}

/// The forecast as the JSON document that layouts resolve variables in.
pub fn forecast_to_json(f: &WeatherForecast) -> (r: JsonValue)
    requires
        f.wf(),
    ensures
        forecast_json(*f, r),
{
    let mut ps: Vec<JsonValue> = Vec::new();
    let mut i: usize = 0;
    while i < f.forecast.len()
        invariant
            0 <= i <= f.forecast@.len(),
            ps@.len() == i,
            forall|k: int| 0 <= k < i ==> data_json(f.forecast@[k], #[trigger] ps@[k]),
        decreases f.forecast.len() - i,
    {
        ps.push(data_to_json(&f.forecast[i]));
        i = i + 1;
    }
    let current = data_to_json(f.current_weather());
    let mut m: Vec<(String, JsonValue)> = Vec::new();
    m.push((String::from_str("region"), JsonValue::Str(f.region.clone())));
    m.push((String::from_str("country"), JsonValue::Str(f.country.clone())));
    m.push((String::from_str("forecast"), JsonValue::Array(ps)));
    m.push((String::from_str("current_weather"), current));
    m.push((String::from_str("forecast_sentence"), JsonValue::Str(f.forecast_sentence.clone())));
    JsonValue::Object(m)
}

/// The largest condition code.
pub const MAX_CODE: u128 = 65535;

/// A member of a code-table document that reads as an entry: its key is a
/// condition code in decimal and its value a list whose first five elements
/// are strings.
pub open spec fn entry_ok(m: (String, JsonValue)) -> bool {
    &&& m.0@.len() > 0 && all_digits(m.0@) && digits_value(m.0@) <= MAX_CODE
    &&& m.1 matches JsonValue::Array(v) && v@.len() >= 5 && forall|i: int| 0 <= i < 5 ==> (#[trigger] v@[i]) is Str
}

/// `e` is the entry read from member `m`.
pub open spec fn entry_from(m: (String, JsonValue), e: CodeEntry) -> bool {
    let v = m.1->Array_0@;
    &&& e.code == digits_value(m.0@)
    &&& e.short == v[0]->Str_0
    &&& e.long == v[1]->Str_0
    &&& e.icon == v[2]->Str_0
    &&& e.sentence == v[3]->Str_0
    &&& e.ascii == v[4]->Str_0
}

fn text_at(v: &Vec<JsonValue>, i: usize) -> (r: Option<String>)
    requires
        i < v@.len(),
    ensures
        match v@[i as int] {
            JsonValue::Str(s) => r == Some(s),
            _ => r is None,
        },
{
    match &v[i] {
        JsonValue::Str(s) => Some(s.clone()),
        _ => None,
    }
}

fn read_entry(m: &(String, JsonValue)) -> (r: Option<CodeEntry>)
    ensures
        r is Some <==> entry_ok(*m),
        r matches Some(e) ==> entry_from(*m, e),
{
    let code: u16 = match crate::layout_item::read_digits(m.0.as_str()) {
        Some((false, n)) => {
            if n > MAX_CODE {
                return None;
            }
            n as u16
        },
        _ => {
            return None;
        },
    };
    let v = match &m.1 {
        JsonValue::Array(v) => v,
        _ => {
            return None;
        },
    };
    if v.len() < 5 {
        return None;
    }
    let short = match text_at(v, 0) { Some(s) => s, None => { return None; } };
    let long = match text_at(v, 1) { Some(s) => s, None => { return None; } };
    let icon = match text_at(v, 2) { Some(s) => s, None => { return None; } };
    let sentence = match text_at(v, 3) { Some(s) => s, None => { return None; } };
    let ascii = match text_at(v, 4) { Some(s) => s, None => { return None; } };
    proof {
        assert forall|i: int| 0 <= i < 5 implies (#[trigger] v@[i]) is Str by {
            if i == 0 {} else if i == 1 {} else if i == 2 {} else if i == 3 {} else {}
        }
    }
    Some(CodeEntry { code, short, long, icon, sentence, ascii })
}

impl CodeTable {
    /// Reads the code table from its JSON document: an object from code to
    /// the list (short, long, icon, sentence, ascii art). Anything else is a
    /// serialization error.
    pub fn from_json(v: &JsonValue) -> (r: Result<CodeTable, WeatherError>)
        ensures
            r is Ok <==> (v matches JsonValue::Object(m) && forall|i: int| 0 <= i < m@.len() ==> entry_ok(#[trigger] m@[i])),
            r matches Ok(t) ==> v matches JsonValue::Object(m) && t.entries@.len() == m@.len() && forall|i: int|
                0 <= i < m@.len() ==> entry_from(m@[i], #[trigger] t.entries@[i]),
            r matches Err(e) ==> e is Serialization,
    {
        let m = match v {
            JsonValue::Object(m) => m,
            _ => {
                return Err(WeatherError::Serialization(String::from_str("the code table is not an object")));
            },
        };
        let mut entries: Vec<CodeEntry> = Vec::new();
        let mut i: usize = 0;
        while i < m.len()
            invariant
                *v == JsonValue::Object(*m),
                0 <= i <= m@.len(),
                entries@.len() == i,
                forall|k: int| 0 <= k < i ==> entry_ok(#[trigger] m@[k]),
                forall|k: int| 0 <= k < i ==> entry_from(m@[k], #[trigger] entries@[k]),
            decreases m.len() - i,
        {
            match read_entry(&m[i]) {
                Some(e) => {
                    entries.push(e);
                },
                None => {
                    assert(!entry_ok(m@[i as int]));
                    assert(!(forall|k: int| 0 <= k < m@.len() ==> entry_ok(#[trigger] m@[k])));
                    assert(v->Object_0 == *m);
                    return Err(WeatherError::Serialization(String::from_str("malformed code table entry")));
                },
            }
            i = i + 1;
        }
        Ok(CodeTable { entries })
    }
}

} // verus!
