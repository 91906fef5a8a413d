use vstd::prelude::*;

use crate::error::WeatherError;
use crate::plugin::Registrar;

verus! {

/// A provider selector: a built-in provider, or the name of a plugin.
#[derive(Debug)]
pub enum Datasource {
    Meteo,
    Openweathermap,
    NWS,
    Other(String),
}

/// The lower-case form of a text, as `str::to_lowercase` gives it.
pub uninterp spec fn lower_of(s: Seq<char>) -> Seq<char>;

/// Relies on str::to_lowercase: the lower-case form depends on the text alone.
#[verifier::external_body]
fn lowercase(s: &str) -> (r: String)
    ensures
        r@ == lower_of(s@),
{
    s.to_lowercase()
}

/// `d` is the selector named by `lower`, the lower-case form of `name`:
/// the three built-in names select their providers, any other name selects
/// the plugin called `name`.
pub open spec fn selects(d: Datasource, lower: Seq<char>, name: Seq<char>) -> bool {
    if lower == "nws"@ {
        d is NWS
    } else if lower == "openweathermap"@ {
        d is Openweathermap
    } else if lower == "meteo"@ {
        d is Meteo
    } else {
        d matches Datasource::Other(n) && n@ == name
    }
}

/// Picks the selector for `name`, given its lower-case form `lower`.
pub fn datasource_from_lower(lower: &str, name: &str) -> (r: Datasource)
    ensures
        selects(r, lower@, name@),
{
    proof {
        reveal_strlit("nws");
        reveal_strlit("openweathermap");
        reveal_strlit("meteo");
    }
    let l = String::from_str(lower);
    if l == String::from_str("nws") {
        Datasource::NWS
    } else if l == String::from_str("openweathermap") {
        Datasource::Openweathermap
    } else if l == String::from_str("meteo") {
        Datasource::Meteo
    } else {
        Datasource::Other(String::from_str(name))
    }
}

/// The selector a user typed, matched without regard to case.
pub fn datasource_from_str(s: &str) -> (r: Datasource)
    ensures
        selects(r, lower_of(s@), s@),
{
    let lower = lowercase(s);
    datasource_from_lower(lower.as_str(), s)
}

/// Where a forecast comes from once the selector is resolved.
#[derive(Debug)]
pub enum Provider {
    Meteo,
    OpenWeatherMap,
    Nws,
    /// The plugin object behind this handle.
    Plugin(usize),
}

/// Resolves a selector: built-ins route directly, other names go to the
/// plugins; a name no plugin registered is `NotFound`.
pub fn select_provider(d: &Datasource, plugins: &Registrar) -> (r: Result<Provider, WeatherError>)
    ensures
        match d {
            Datasource::Meteo => r matches Ok(p) && p is Meteo,
            Datasource::Openweathermap => r matches Ok(p) && p is OpenWeatherMap,
            Datasource::NWS => r matches Ok(p) && p is Nws,
            Datasource::Other(n) => if plugins@.contains_key(n@) {
                r matches Ok(Provider::Plugin(h)) && h == plugins@[n@]
            } else {
                r matches Err(e) && e is NotFound
            },
        },
{
    match d {
        Datasource::Meteo => Ok(Provider::Meteo),
        Datasource::Openweathermap => Ok(Provider::OpenWeatherMap),
        Datasource::NWS => Ok(Provider::Nws),
        Datasource::Other(n) => match plugins.lookup(n.as_str()) {
            Some(h) => Ok(Provider::Plugin(h)),
            None => {
                let mut m = String::from_str("no provider registered as ");
                m.append(n.as_str());
                Err(WeatherError::NotFound(m))
            },
        },
    }
}

} // verus!
