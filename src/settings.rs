use vstd::prelude::*;

use crate::error::WeatherError;
use crate::json::{find_member, lemma_member_opt_at, member_opt, JsonValue};

verus! {

/// The recognised settings, as `settings.json` stores them under upper-case
/// keys. Missing keys take their defaults.
#[derive(Debug)]
pub struct SettingsJson {
    pub open_weather_map_api_key: String,
    pub bing_maps_api_key: String,
    pub ncdc_api_key: String,
    pub metric_default: bool,
    pub default_backend: String,
    pub constant_location: bool,
    pub auto_update_internet_resources: bool,
    pub debug: bool,
    pub development: bool,
    pub show_alerts: bool,
    pub layout_file: String,
    pub enable_daemon: bool,
    pub daemon_update_interval: i64,
    pub installed_components: Option<Vec<String>>,
    pub enable_custom_backends: bool,
}

/// The settings as mathematical values.
pub struct SettingsView {
    pub open_weather_map_api_key: Seq<char>,
    pub bing_maps_api_key: Seq<char>,
    pub ncdc_api_key: Seq<char>,
    pub metric_default: bool,
    pub default_backend: Seq<char>,
    pub constant_location: bool,
    pub auto_update_internet_resources: bool,
    pub debug: bool,
    pub development: bool,
    pub show_alerts: bool,
    pub layout_file: Seq<char>,
    pub enable_daemon: bool,
    pub daemon_update_interval: i64,
    pub installed_components: Option<Seq<Seq<char>>>,
    pub enable_custom_backends: bool,
}

/// The text of each string of a list.
pub open spec fn texts(v: Seq<String>) -> Seq<Seq<char>> {
    v.map_values(|s: String| s@)
}

impl SettingsJson {
    pub open spec fn view(&self) -> SettingsView {
        SettingsView {
            open_weather_map_api_key: self.open_weather_map_api_key@,
            bing_maps_api_key: self.bing_maps_api_key@,
            ncdc_api_key: self.ncdc_api_key@,
            metric_default: self.metric_default,
            default_backend: self.default_backend@,
            constant_location: self.constant_location,
            auto_update_internet_resources: self.auto_update_internet_resources,
            debug: self.debug,
            development: self.development,
            show_alerts: self.show_alerts,
            layout_file: self.layout_file@,
            enable_daemon: self.enable_daemon,
            daemon_update_interval: self.daemon_update_interval,
            installed_components: match self.installed_components {
                Some(v) => Some(texts(v@)),
                None => None,
            },
            enable_custom_backends: self.enable_custom_backends,
        }
    }
}

/// A string setting: absent takes the default, any other type fails.
pub open spec fn string_setting(o: Option<JsonValue>, d: Seq<char>) -> Option<Seq<char>> {
    match o {
        None => Some(d),
        Some(JsonValue::Str(s)) => Some(s@),
        _ => None,
    }
}

/// A boolean setting: absent takes the default, any other type fails.
pub open spec fn bool_setting(o: Option<JsonValue>, d: bool) -> Option<bool> {
    match o {
        None => Some(d),
        Some(JsonValue::Bool(b)) => Some(b),
        _ => None,
    }
}

/// An integer setting: absent takes the default, any other type fails.
pub open spec fn int_setting(o: Option<JsonValue>, d: i64) -> Option<i64> {
    match o {
        None => Some(d),
        Some(JsonValue::Int(n)) => Some(n),
        _ => None,
    }
}

/// Every element is a string.
pub open spec fn all_strings(v: Seq<JsonValue>) -> bool {
    forall|i: int| 0 <= i < v.len() ==> (#[trigger] v[i]) is Str
}

/// An optional list of strings: absent or null is none, a list of strings is
/// kept, anything else fails.
pub open spec fn list_setting(o: Option<JsonValue>) -> Option<Option<Seq<Seq<char>>>> {
    match o {
        None => Some(None),
        Some(JsonValue::Null) => Some(None),
        Some(JsonValue::Array(v)) => if all_strings(v@) {
            Some(Some(v@.map_values(|x: JsonValue| x->Str_0@)))
        } else {
            None
        },
        _ => None,
    }
}

/// The settings that a JSON document holds, or `None` when it is not an
/// object or a recognised key holds a value of the wrong type.
pub open spec fn decode_settings(v: JsonValue) -> Option<SettingsView> {
    match v {
        JsonValue::Object(m) => {
            let open_weather_map_api_key = string_setting(member_opt(m@, "OPEN_WEATHER_MAP_API_KEY"@), ""@);
            let bing_maps_api_key = string_setting(member_opt(m@, "BING_MAPS_API_KEY"@), ""@);
            let ncdc_api_key = string_setting(member_opt(m@, "NCDC_API_KEY"@), ""@);
            let metric_default = bool_setting(member_opt(m@, "METRIC_DEFAULT"@), false);
            let default_backend = string_setting(member_opt(m@, "DEFAULT_BACKEND"@), "meteo"@);
            let constant_location = bool_setting(member_opt(m@, "CONSTANT_LOCATION"@), false);
            let auto_update_internet_resources = bool_setting(member_opt(m@, "AUTO_UPDATE_INTERNET_RESOURCES"@), true);
            let debug = bool_setting(member_opt(m@, "DEBUG"@), false);
            let development = bool_setting(member_opt(m@, "DEVELOPMENT"@), false);
            let show_alerts = bool_setting(member_opt(m@, "SHOW_ALERTS"@), true);
            let layout_file = string_setting(member_opt(m@, "LAYOUT_FILE"@), "default.json"@);
            let enable_daemon = bool_setting(member_opt(m@, "ENABLE_DAEMON"@), false);
            let daemon_update_interval = int_setting(member_opt(m@, "DAEMON_UPDATE_INTERVAL"@), 600);
            let installed_components = list_setting(member_opt(m@, "INSTALLED_COMPONENTS"@));
            let enable_custom_backends = bool_setting(member_opt(m@, "ENABLE_CUSTOM_BACKENDS"@), false);
            if open_weather_map_api_key is Some && bing_maps_api_key is Some && ncdc_api_key is Some && metric_default is Some && default_backend is Some && constant_location is Some && auto_update_internet_resources is Some && debug is Some && development is Some && show_alerts is Some && layout_file is Some && enable_daemon is Some && daemon_update_interval is Some && installed_components is Some && enable_custom_backends is Some {
                Some(
                    SettingsView {
                        open_weather_map_api_key: open_weather_map_api_key->0,
                        bing_maps_api_key: bing_maps_api_key->0,
                        ncdc_api_key: ncdc_api_key->0,
                        metric_default: metric_default->0,
                        default_backend: default_backend->0,
                        constant_location: constant_location->0,
                        auto_update_internet_resources: auto_update_internet_resources->0,
                        debug: debug->0,
                        development: development->0,
                        show_alerts: show_alerts->0,
                        layout_file: layout_file->0,
                        enable_daemon: enable_daemon->0,
                        daemon_update_interval: daemon_update_interval->0,
                        installed_components: installed_components->0,
                        enable_custom_backends: enable_custom_backends->0,
                    },
                )
            } else {
                None
            }
        },
        _ => None,
    }
}

/// The member list that `to_json` writes: one member per setting, in
/// declaration order.
pub open spec fn encodes(s: SettingsJson, j: JsonValue) -> bool {
    j matches JsonValue::Object(m) && m@.len() == 15
        && m@[0].0@ == "OPEN_WEATHER_MAP_API_KEY"@
        && m@[0].1 == JsonValue::Str(s.open_weather_map_api_key)
        && m@[1].0@ == "BING_MAPS_API_KEY"@
        && m@[1].1 == JsonValue::Str(s.bing_maps_api_key)
        && m@[2].0@ == "NCDC_API_KEY"@
        && m@[2].1 == JsonValue::Str(s.ncdc_api_key)
        && m@[3].0@ == "METRIC_DEFAULT"@
        && m@[3].1 == JsonValue::Bool(s.metric_default)
        && m@[4].0@ == "DEFAULT_BACKEND"@
        && m@[4].1 == JsonValue::Str(s.default_backend)
        && m@[5].0@ == "CONSTANT_LOCATION"@
        && m@[5].1 == JsonValue::Bool(s.constant_location)
        && m@[6].0@ == "AUTO_UPDATE_INTERNET_RESOURCES"@
        && m@[6].1 == JsonValue::Bool(s.auto_update_internet_resources)
        && m@[7].0@ == "DEBUG"@
        && m@[7].1 == JsonValue::Bool(s.debug)
        && m@[8].0@ == "DEVELOPMENT"@
        && m@[8].1 == JsonValue::Bool(s.development)
        && m@[9].0@ == "SHOW_ALERTS"@
        && m@[9].1 == JsonValue::Bool(s.show_alerts)
        && m@[10].0@ == "LAYOUT_FILE"@
        && m@[10].1 == JsonValue::Str(s.layout_file)
        && m@[11].0@ == "ENABLE_DAEMON"@
        && m@[11].1 == JsonValue::Bool(s.enable_daemon)
        && m@[12].0@ == "DAEMON_UPDATE_INTERVAL"@
        && m@[12].1 == JsonValue::Int(s.daemon_update_interval)
        && m@[13].0@ == "INSTALLED_COMPONENTS"@
        && match s.installed_components {
            None => m@[13].1 == JsonValue::Null,
            Some(l) => m@[13].1 matches JsonValue::Array(v) && v@.len() == l@.len() && forall|x: int|
                0 <= x < l@.len() ==> v@[x] == JsonValue::Str(#[trigger] l@[x]),
        }
        && m@[14].0@ == "ENABLE_CUSTOM_BACKENDS"@
        && m@[14].1 == JsonValue::Bool(s.enable_custom_backends)
}

fn bad_type(key: &str) -> (r: WeatherError)
    ensures
        r is Serialization,
{
    let mut m = String::from_str("setting has the wrong type: ");
    m.append(key);
    WeatherError::Serialization(m)
}

fn string_field(m: &Vec<(String, JsonValue)>, key: &str, default: &str) -> (r: Result<String, WeatherError>)
    ensures
        match string_setting(member_opt(m@, key@), default@) {
            None => r matches Err(e) && e is Serialization,
            Some(v) => r matches Ok(s) && s@ == v,
        },
{
    match find_member(m, &String::from_str(key)) {
        None => Ok(String::from_str(default)),
        Some(JsonValue::Str(s)) => Ok(s.clone()),
        Some(_) => Err(bad_type(key)),
    }
}

fn bool_field(m: &Vec<(String, JsonValue)>, key: &str, default: bool) -> (r: Result<bool, WeatherError>)
    ensures
        match bool_setting(member_opt(m@, key@), default) {
            None => r matches Err(e) && e is Serialization,
            Some(v) => r == Ok::<bool, WeatherError>(v),
        },
{
    match find_member(m, &String::from_str(key)) {
        None => Ok(default),
        Some(JsonValue::Bool(b)) => Ok(*b),
        Some(_) => Err(bad_type(key)),
    }
}

fn int_field(m: &Vec<(String, JsonValue)>, key: &str, default: i64) -> (r: Result<i64, WeatherError>)
    ensures
        match int_setting(member_opt(m@, key@), default) {
            None => r matches Err(e) && e is Serialization,
            Some(v) => r == Ok::<i64, WeatherError>(v),
        },
{
    match find_member(m, &String::from_str(key)) {
        None => Ok(default),
        Some(JsonValue::Int(n)) => Ok(*n),
        Some(_) => Err(bad_type(key)),
    }
}

fn list_field(m: &Vec<(String, JsonValue)>, key: &str) -> (r: Result<Option<Vec<String>>, WeatherError>)
    ensures
        match list_setting(member_opt(m@, key@)) {
            None => r matches Err(e) && e is Serialization,
            Some(None) => r matches Ok(o) && o is None,
            Some(Some(l)) => r matches Ok(Some(v)) && texts(v@) == l,
        },
{
    match find_member(m, &String::from_str(key)) {
        None => Ok(None),
        Some(JsonValue::Null) => Ok(None),
        Some(JsonValue::Array(items)) => {
            let ghost found = member_opt(m@, key@);
            assert(found == Some(JsonValue::Array(*items)));
            let mut out: Vec<String> = Vec::new();
            let mut i: usize = 0;
            while i < items.len()
                invariant
                    found == Some(JsonValue::Array(*items)),
                    found == member_opt(m@, key@),
                    0 <= i <= items@.len(),
                    out@.len() == i,
                    forall|j: int| 0 <= j < i ==> (#[trigger] items@[j]) is Str,
                    forall|j: int| 0 <= j < i ==> items@[j]->Str_0@ == (#[trigger] out@[j])@,
                decreases items.len() - i,
            {
                match &items[i] {
                    JsonValue::Str(s) => {
                        out.push(s.clone());
                    },
                    _ => {
                        proof {
                            assert(!all_strings(items@)) by {
                                assert(!(items@[i as int] is Str));
                            }
                            assert(list_setting(found) is None);
                        }
                        return Err(bad_type(key));
                    },
                }
                i = i + 1;
            }
            proof {
                assert(texts(out@) =~= items@.map_values(|x: JsonValue| x->Str_0@));
            }
            Ok(Some(out))
        },
        Some(_) => Err(bad_type(key)),
    }
}

impl SettingsJson {
    /// Reads the settings from a JSON document: missing keys take their
    /// defaults, unknown keys are ignored, and a document that is not an
    /// object or a recognised key of the wrong type is a serialization error.
    pub fn from_json(v: &JsonValue) -> (r: Result<SettingsJson, WeatherError>)
        ensures
            match decode_settings(*v) {
                None => r matches Err(e) && e is Serialization,
                Some(sv) => r matches Ok(s) && s.view() == sv,
            },
    {
        proof {
            reveal_strlit("OPEN_WEATHER_MAP_API_KEY");
            reveal_strlit("BING_MAPS_API_KEY");
            reveal_strlit("NCDC_API_KEY");
            reveal_strlit("METRIC_DEFAULT");
            reveal_strlit("DEFAULT_BACKEND");
            reveal_strlit("CONSTANT_LOCATION");
            reveal_strlit("AUTO_UPDATE_INTERNET_RESOURCES");
            reveal_strlit("DEBUG");
            reveal_strlit("DEVELOPMENT");
            reveal_strlit("SHOW_ALERTS");
            reveal_strlit("LAYOUT_FILE");
            reveal_strlit("ENABLE_DAEMON");
            reveal_strlit("DAEMON_UPDATE_INTERVAL");
            reveal_strlit("INSTALLED_COMPONENTS");
            reveal_strlit("ENABLE_CUSTOM_BACKENDS");
            reveal_strlit("meteo");
            reveal_strlit("default.json");
            reveal_strlit("");
        }
        let m = match v {
            JsonValue::Object(m) => m,
            _ => {
                return Err(WeatherError::Serialization(String::from_str("settings are not a JSON object")));
            },
        };
        let open_weather_map_api_key = match string_field(m, "OPEN_WEATHER_MAP_API_KEY", "") {
            Ok(x) => x,
            Err(e) => {
                return Err(e);
            },
        };
        let bing_maps_api_key = match string_field(m, "BING_MAPS_API_KEY", "") {
            Ok(x) => x,
            Err(e) => {
                return Err(e);
            },
        };
        let ncdc_api_key = match string_field(m, "NCDC_API_KEY", "") {
            Ok(x) => x,
            Err(e) => {
                return Err(e);
            },
        };
        let metric_default = match bool_field(m, "METRIC_DEFAULT", false) {
            Ok(x) => x,
            Err(e) => {
                return Err(e);
            },
        };
        let default_backend = match string_field(m, "DEFAULT_BACKEND", "meteo") {
            Ok(x) => x,
            Err(e) => {
                return Err(e);
            },
        };
        let constant_location = match bool_field(m, "CONSTANT_LOCATION", false) {
            Ok(x) => x,
            Err(e) => {
                return Err(e);
            },
        };
        let auto_update_internet_resources = match bool_field(m, "AUTO_UPDATE_INTERNET_RESOURCES", true) {
            Ok(x) => x,
            Err(e) => {
                return Err(e);
            },
        };
        let debug = match bool_field(m, "DEBUG", false) {
            Ok(x) => x,
            Err(e) => {
                return Err(e);
            },
        };
        let development = match bool_field(m, "DEVELOPMENT", false) {
            Ok(x) => x,
            Err(e) => {
                return Err(e);
            },
        };
        let show_alerts = match bool_field(m, "SHOW_ALERTS", true) {
            Ok(x) => x,
            Err(e) => {
                return Err(e);
            },
        };
        let layout_file = match string_field(m, "LAYOUT_FILE", "default.json") {
            Ok(x) => x,
            Err(e) => {
                return Err(e);
            },
        };
        let enable_daemon = match bool_field(m, "ENABLE_DAEMON", false) {
            Ok(x) => x,
            Err(e) => {
                return Err(e);
            },
        };
        let daemon_update_interval = match int_field(m, "DAEMON_UPDATE_INTERVAL", 600) {
            Ok(x) => x,
            Err(e) => {
                return Err(e);
            },
        };
        let installed_components = match list_field(m, "INSTALLED_COMPONENTS") {
            Ok(x) => x,
            Err(e) => {
                return Err(e);
            },
        };
        let enable_custom_backends = match bool_field(m, "ENABLE_CUSTOM_BACKENDS", false) {
            Ok(x) => x,
            Err(e) => {
                return Err(e);
            },
        };
        let s = SettingsJson {
            open_weather_map_api_key,
            bing_maps_api_key,
            ncdc_api_key,
            metric_default,
            default_backend,
            constant_location,
            auto_update_internet_resources,
            debug,
            development,
            show_alerts,
            layout_file,
            enable_daemon,
            daemon_update_interval,
            installed_components,
            enable_custom_backends,
        };
        Ok(s)
    }

    /// Writes the settings as a JSON object, one member per setting.
    pub fn to_json(&self) -> (r: JsonValue)
        ensures
            encodes(*self, r),
    {
        let mut m: Vec<(String, JsonValue)> = Vec::new();
        m.push((String::from_str("OPEN_WEATHER_MAP_API_KEY"), JsonValue::Str(self.open_weather_map_api_key.clone())));
        m.push((String::from_str("BING_MAPS_API_KEY"), JsonValue::Str(self.bing_maps_api_key.clone())));
        m.push((String::from_str("NCDC_API_KEY"), JsonValue::Str(self.ncdc_api_key.clone())));
        m.push((String::from_str("METRIC_DEFAULT"), JsonValue::Bool(self.metric_default)));
        m.push((String::from_str("DEFAULT_BACKEND"), JsonValue::Str(self.default_backend.clone())));
        m.push((String::from_str("CONSTANT_LOCATION"), JsonValue::Bool(self.constant_location)));
        m.push((String::from_str("AUTO_UPDATE_INTERNET_RESOURCES"), JsonValue::Bool(self.auto_update_internet_resources)));
        m.push((String::from_str("DEBUG"), JsonValue::Bool(self.debug)));
        m.push((String::from_str("DEVELOPMENT"), JsonValue::Bool(self.development)));
        m.push((String::from_str("SHOW_ALERTS"), JsonValue::Bool(self.show_alerts)));
        m.push((String::from_str("LAYOUT_FILE"), JsonValue::Str(self.layout_file.clone())));
        m.push((String::from_str("ENABLE_DAEMON"), JsonValue::Bool(self.enable_daemon)));
        m.push((String::from_str("DAEMON_UPDATE_INTERVAL"), JsonValue::Int(self.daemon_update_interval)));
        m.push((String::from_str("INSTALLED_COMPONENTS"), list_json(&self.installed_components)));
        m.push((String::from_str("ENABLE_CUSTOM_BACKENDS"), JsonValue::Bool(self.enable_custom_backends)));
        JsonValue::Object(m)
    }
}

fn list_json(l: &Option<Vec<String>>) -> (r: JsonValue)
    ensures
        match *l {
            None => r == JsonValue::Null,
            Some(l) => r matches JsonValue::Array(v) && v@.len() == l@.len() && forall|x: int|
                0 <= x < l@.len() ==> v@[x] == JsonValue::Str(#[trigger] l@[x]),
        },
{
    match l {
        None => JsonValue::Null,
        Some(items) => {
            let mut v: Vec<JsonValue> = Vec::new();
            let mut i: usize = 0;
            while i < items.len()
                invariant
                    0 <= i <= items@.len(),
                    v@.len() == i,
                    forall|x: int| 0 <= x < i ==> v@[x] == JsonValue::Str(#[trigger] items@[x]),
                decreases items.len() - i,
            {
                v.push(JsonValue::Str(items[i].clone()));
                i = i + 1;
            }
            JsonValue::Array(v)
        },
    }
}

/// Settings written as JSON read back unchanged: every recognised field
/// survives the round trip.
pub proof fn lemma_settings_round_trip(s: SettingsJson, j: JsonValue)
    requires
        encodes(s, j),
    ensures
        decode_settings(j) == Some(s.view()),
{
    reveal_strlit("OPEN_WEATHER_MAP_API_KEY");
    reveal_strlit("BING_MAPS_API_KEY");
    reveal_strlit("NCDC_API_KEY");
    reveal_strlit("METRIC_DEFAULT");
    reveal_strlit("DEFAULT_BACKEND");
    reveal_strlit("CONSTANT_LOCATION");
    reveal_strlit("AUTO_UPDATE_INTERNET_RESOURCES");
    reveal_strlit("DEBUG");
    reveal_strlit("DEVELOPMENT");
    reveal_strlit("SHOW_ALERTS");
    reveal_strlit("LAYOUT_FILE");
    reveal_strlit("ENABLE_DAEMON");
    reveal_strlit("DAEMON_UPDATE_INTERVAL");
    reveal_strlit("INSTALLED_COMPONENTS");
    reveal_strlit("ENABLE_CUSTOM_BACKENDS");
    let m = j->Object_0@;
    assert("OPEN_WEATHER_MAP_API_KEY"@.len() == 24 && "OPEN_WEATHER_MAP_API_KEY"@[0] == 'O');
    assert("BING_MAPS_API_KEY"@.len() == 17 && "BING_MAPS_API_KEY"@[0] == 'B');
    assert("NCDC_API_KEY"@.len() == 12 && "NCDC_API_KEY"@[0] == 'N');
    assert("METRIC_DEFAULT"@.len() == 14 && "METRIC_DEFAULT"@[0] == 'M');
    assert("DEFAULT_BACKEND"@.len() == 15 && "DEFAULT_BACKEND"@[0] == 'D');
    assert("CONSTANT_LOCATION"@.len() == 17 && "CONSTANT_LOCATION"@[0] == 'C');
    assert("AUTO_UPDATE_INTERNET_RESOURCES"@.len() == 30 && "AUTO_UPDATE_INTERNET_RESOURCES"@[0] == 'A');
    assert("DEBUG"@.len() == 5 && "DEBUG"@[0] == 'D');
    assert("DEVELOPMENT"@.len() == 11 && "DEVELOPMENT"@[0] == 'D');
    assert("SHOW_ALERTS"@.len() == 11 && "SHOW_ALERTS"@[0] == 'S');
    assert("LAYOUT_FILE"@.len() == 11 && "LAYOUT_FILE"@[0] == 'L');
    assert("ENABLE_DAEMON"@.len() == 13 && "ENABLE_DAEMON"@[0] == 'E');
    assert("DAEMON_UPDATE_INTERVAL"@.len() == 22 && "DAEMON_UPDATE_INTERVAL"@[0] == 'D');
    assert("INSTALLED_COMPONENTS"@.len() == 20 && "INSTALLED_COMPONENTS"@[0] == 'I');
    assert("ENABLE_CUSTOM_BACKENDS"@.len() == 22 && "ENABLE_CUSTOM_BACKENDS"@[0] == 'E');
    lemma_member_opt_at(m, "OPEN_WEATHER_MAP_API_KEY"@, 0);
    lemma_member_opt_at(m, "BING_MAPS_API_KEY"@, 1);
    lemma_member_opt_at(m, "NCDC_API_KEY"@, 2);
    lemma_member_opt_at(m, "METRIC_DEFAULT"@, 3);
    lemma_member_opt_at(m, "DEFAULT_BACKEND"@, 4);
    lemma_member_opt_at(m, "CONSTANT_LOCATION"@, 5);
    lemma_member_opt_at(m, "AUTO_UPDATE_INTERNET_RESOURCES"@, 6);
    lemma_member_opt_at(m, "DEBUG"@, 7);
    lemma_member_opt_at(m, "DEVELOPMENT"@, 8);
    lemma_member_opt_at(m, "SHOW_ALERTS"@, 9);
    lemma_member_opt_at(m, "LAYOUT_FILE"@, 10);
    lemma_member_opt_at(m, "ENABLE_DAEMON"@, 11);
    lemma_member_opt_at(m, "DAEMON_UPDATE_INTERVAL"@, 12);
    lemma_member_opt_at(m, "INSTALLED_COMPONENTS"@, 13);
    lemma_member_opt_at(m, "ENABLE_CUSTOM_BACKENDS"@, 14);
    match s.installed_components {
        None => {},
        Some(l) => {
            let v = m[13].1->Array_0@;
            assert(all_strings(v)) by {
                assert forall|i: int| 0 <= i < v.len() implies (#[trigger] v[i]) is Str by {
                    assert(v[i] == JsonValue::Str(l@[i]));
                }
            }
            assert(v.map_values(|x: JsonValue| x->Str_0@) =~= texts(l@)) by {
                assert forall|i: int| 0 <= i < v.len() implies v[i]->Str_0@ == l@[i]@ by {
                    assert(v[i] == JsonValue::Str(l@[i]));
                }
            }
        },
    }
}

/// The settings of a session.
#[derive(Debug)]
pub struct Settings {
    pub internal: SettingsJson,
}

impl Settings {
    /// Settings read from a JSON document.
    pub fn new(v: &JsonValue) -> (r: Result<Settings, WeatherError>)
        ensures
            match decode_settings(*v) {
                None => r matches Err(e) && e is Serialization,
                Some(sv) => r matches Ok(s) && s.internal.view() == sv,
            },
    {
        match SettingsJson::from_json(v) {
            Ok(internal) => Ok(Settings { internal }),
            Err(e) => Err(e),
        }
    }

    /// Replaces the settings with those of a freshly read document; on
    /// failure they stay as they were.
    pub fn reload(&mut self, v: &JsonValue) -> (r: Result<(), WeatherError>)
        ensures
            match decode_settings(*v) {
                None => r matches Err(e) && e is Serialization && final(self).internal == old(self).internal,
                Some(sv) => r is Ok && final(self).internal.view() == sv,
            },
    {
        match SettingsJson::from_json(v) {
            Ok(internal) => {
                self.internal = internal;
                Ok(())
            },
            Err(e) => Err(e),
        }
    }
}

} // verus!
