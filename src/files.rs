use vstd::prelude::*;
use vstd::string::StrSliceExecFns;
use vstd::utf8::{decode_utf8, valid_utf8};

use crate::error::WeatherError;

verus! {

/// A file of the resource store, as read: its path under the per-user
/// directory, its bytes, and whether it existed before it was opened.
#[derive(Debug)]
pub struct WeatherFile {
    pub path: String,
    pub data: Vec<u8>,
    pub exists: bool,
}

/// Relies on String::from_utf8: it succeeds exactly on valid UTF-8 and then
/// holds the decoded characters.
#[verifier::external_body]
fn utf8_string(b: Vec<u8>) -> (r: Option<String>)
    ensures
        r is Some <==> valid_utf8(b@),
        r matches Some(s) ==> s@ == decode_utf8(b@),
{
    String::from_utf8(b).ok()
}

/// `name` ends in `.json`.
pub open spec fn is_json_name(name: Seq<char>) -> bool {
    name.len() >= 5 && name.subrange(name.len() - 5, name.len() as int) == ".json"@
}

impl WeatherFile {
    /// The file name of the settings.
    pub fn settings() -> (r: String)
        ensures
            r@ == "settings.json"@,
    {
        String::from_str("settings.json")
    }

    /// The file name of the code table.
    pub fn weather_codes() -> (r: String)
        ensures
            r@ == "resources/weather_codes.res"@,
    {
        String::from_str("resources/weather_codes.res")
    }

    /// The file name of the ASCII art table.
    pub fn weather_ascii_art() -> (r: String)
        ensures
            r@ == "resources/weather_ascii_images.res"@,
    {
        String::from_str("resources/weather_ascii_images.res")
    }

    /// What a file holds when the store creates it: `{}` (bytes 123 and 125)
    /// for a JSON file, nothing otherwise.
    pub fn initial_data(name: &str) -> (r: Vec<u8>)
        ensures
            is_json_name(name@) ==> r@ == seq![123u8, 125u8],
            !is_json_name(name@) ==> r@.len() == 0,
    {
        proof {
            reveal_strlit(".json");
        }
        let n: usize = name.unicode_len();
        let mut json = n >= 5;
        if json {
            let tail = String::from_str(name.substring_char(n - 5, n));
            json = tail == String::from_str(".json");
        }
        let mut v: Vec<u8> = Vec::new();
        if json {
            v.push(123u8);
            v.push(125u8);
            assert(v@ =~= seq![123u8, 125u8]);
        }
        v
    }

    /// The file's bytes as text; bytes that are not UTF-8 are a
    /// serialization error.
    pub fn get_text(&self) -> (r: Result<String, WeatherError>)
        ensures
            r is Ok <==> valid_utf8(self.data@),
            r matches Ok(s) ==> s@ == decode_utf8(self.data@),
            r matches Err(e) ==> e is Serialization,
    {
        match utf8_string(self.data.clone()) {
            Some(s) => Ok(s),
            None => Err(WeatherError::Serialization(String::from_str("failed to convert bytes to string"))),
        }
    }
}

} // verus!
