use vstd::prelude::*;

verus! {

/// Options that every command takes.
#[derive(Debug)]
pub struct GlobalOpts {
    pub json: bool,
    pub datasource: Option<String>,
    pub metric: bool,
    pub imperial: bool,
    pub no_sys_loc: bool,
    pub debug: bool,
}

/// Options of `config`: a key and, to set it, a value.
#[derive(Debug)]
pub struct ConfigOpts {
    pub key: String,
    pub value: Option<String>,
}

/// Options of `place`: the place to look up.
#[derive(Debug)]
pub struct PlaceOpts {
    pub query: String,
}

/// Options of `update`.
#[derive(Debug)]
pub struct UpdateOpts {
    pub force: bool,
}

/// The commands of the command line.
#[derive(Debug)]
pub enum Command {
    Place(PlaceOpts),
    Settings,
    Config(ConfigOpts),
    PruneCache,
    ClearCache,
    Setup,
    Update(UpdateOpts),
    Credits,
}

/// A parsed command line.
#[derive(Debug)]
pub struct App {
    pub global_opts: GlobalOpts,
    pub command: Option<Command>,
}

impl GlobalOpts {
    /// Whether output is metric: `--imperial` overrides `--metric`, and
    /// without either the settings decide.
    pub fn metric_output(&self, metric_default: bool) -> (r: bool)
        ensures
            r == (!self.imperial && (self.metric || metric_default)),
    {
        !self.imperial && (self.metric || metric_default)
    }
}

/// The names of the installed executables.
#[derive(Debug)]
pub struct Config {
    pub weather_file_name: String,
    pub weather_d_file_name: String,
    pub updater_file_name: String,
}

impl Config {
    /// The executable names for Windows (with `.exe`) or for other systems.
    pub fn new(windows: bool) -> (r: Config)
        ensures
            windows ==> r.weather_file_name@ == "weather.exe"@ && r.weather_d_file_name@ == "weatherd.exe"@
                && r.updater_file_name@ == "updater.exe"@,
            !windows ==> r.weather_file_name@ == "weather"@ && r.weather_d_file_name@ == "weatherd"@
                && r.updater_file_name@ == "updater"@,
    {
        if windows {
            Config {
                weather_file_name: String::from_str("weather.exe"),
                weather_d_file_name: String::from_str("weatherd.exe"),
                updater_file_name: String::from_str("updater.exe"),
            }
        } else {
            Config {
                weather_file_name: String::from_str("weather"),
                weather_d_file_name: String::from_str("weatherd"),
                updater_file_name: String::from_str("updater"),
            }
        }
    }
}

/// The version of this package.
pub const PACKAGE_VERSION: &'static str = "0.1.0";

/// The version of this package.
pub fn version() -> (r: String)
    ensures
        r@ == PACKAGE_VERSION@,
{
    String::from_str(PACKAGE_VERSION)
}

} // verus!
