use vstd::prelude::*;

verus! {

/// The kinds of failure that the library reports to its callers.
#[derive(Debug)]
pub enum WeatherError {
    /// The local file system failed.
    Io(String),
    /// A code table, layout, settings blob or provider payload did not parse.
    Serialization(String),
    /// A transport failure or a status other than 200.
    Network(String),
    /// A payload arrived but lacks a required field.
    Upstream(String),
    /// A layout item failed to render, with its row and item index when known.
    Layout { message: String, row: Option<usize>, item: Option<usize> },
    /// A cache key, plugin name or condition code is absent.
    NotFound(String),
    /// A plugin was built against another core version.
    IncompatiblePlugin(String),
    /// The caller supplied an impossible input.
    BadRequest(String),
}

} // verus!
