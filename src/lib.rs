use vstd::prelude::*;

pub mod aggregator;
pub mod cache;
pub mod cache_file;
pub mod classifier;
pub mod cli;
pub mod condition;
pub mod error;
pub mod files;
pub mod forecast_json;
pub mod json;
pub mod layout_file;
pub mod layout_item;
pub mod layout_row;
pub mod meteo;
pub mod model;
pub mod networking;
pub mod nws;
pub mod owm;
pub mod plugin;
pub mod sentence;
pub mod settings;
pub mod text;
pub mod twc;

verus! {

} // verus!
