use vstd::prelude::*;

use crate::error::WeatherError;

verus! {

/// One line of the code table: a condition code and its five texts.
#[derive(Debug)]
pub struct CodeEntry {
    pub code: u16,
    pub short: String,
    pub long: String,
    pub icon: String,
    pub sentence: String,
    pub ascii: String,
}

/// The code table, read once from the resource store.
#[derive(Debug)]
pub struct CodeTable {
    pub entries: Vec<CodeEntry>,
}

/// A weather condition enriched from the code table.
#[derive(Debug)]
pub struct WeatherCondition {
    pub condition_id: u16,
    pub image_url: String,
    pub sentence: String,
    pub image_ascii: String,
}

/// The icon address for an icon slug.
pub open spec fn icon_url(icon: Seq<char>) -> Seq<char> {
    "https://openweathermap.org/img/wn/"@ + icon + "@4x.png"@
}

/// Some entry of `t` carries code `c`.
pub open spec fn table_has(t: Seq<CodeEntry>, c: u16) -> bool {
    exists|i: int| 0 <= i < t.len() && #[trigger] t[i].code == c
}

/// `w` is the condition built from the first entry of `t` with code `c`.
pub open spec fn built_from(t: Seq<CodeEntry>, c: u16, w: WeatherCondition) -> bool {
    exists|i: int|
        0 <= i < t.len() && #[trigger] t[i].code == c && (forall|j: int| 0 <= j < i ==> t[j].code != c)
            && w.condition_id == c && w.sentence@ == t[i].sentence@ && w.image_ascii@ == t[i].ascii@
            && w.image_url@ == icon_url(t[i].icon@)
}

impl WeatherCondition {
    /// Looks `condition_id` up in the code table; an absent code is `NotFound`.
    pub fn new(condition_id: u16, table: &CodeTable) -> (r: Result<WeatherCondition, WeatherError>)
        ensures
            r is Ok <==> table_has(table.entries@, condition_id),
            r matches Ok(w) ==> built_from(table.entries@, condition_id, w),
            r matches Err(e) ==> e is NotFound,
    {
        let mut i: usize = 0;
        while i < table.entries.len()
            invariant
                0 <= i <= table.entries.len(),
                forall|j: int| 0 <= j < i ==> #[trigger] table.entries@[j].code != condition_id,
            decreases table.entries.len() - i,
        {
            let e = &table.entries[i];
            if e.code == condition_id {
                let mut url = String::from_str("https://openweathermap.org/img/wn/");
                url.append(e.icon.as_str());
                url.append("@4x.png");
                let w = WeatherCondition {
                    condition_id,
                    image_url: url,
                    sentence: e.sentence.clone(),
                    image_ascii: e.ascii.clone(),
                };
                assert(table.entries@[i as int].code == condition_id);
                return Ok(w);
            }
            i = i + 1;
        }
        Err(WeatherError::NotFound(String::from_str("condition code not in the code table")))
    }
}

} // verus!
