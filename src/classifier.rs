use vstd::prelude::*;

use crate::condition::{built_from, table_has, CodeTable, WeatherCondition};
use crate::error::WeatherError;

verus! {

/// The cloud-cover code: clear, few, scattered, broken or overcast.
pub open spec fn cloud_code(cloud_cover: u8) -> u16 {
    if cloud_cover == 0 {
        800
    } else if cloud_cover < 25 {
        801
    } else if cloud_cover < 50 {
        802
    } else if cloud_cover < 85 {
        803
    } else {
        804
    }
}

/// The rain code for a positive rate given in thousandths of an inch
/// (imperial) or of a millimetre (metric).
pub open spec fn rain_code(rain: u64, metric: bool) -> u16 {
    if (metric && rain < 2500) || (!metric && rain < 98) {
        500
    } else if (metric && rain < 10000) || (!metric && rain < 390) {
        501
    } else if (metric && rain < 50000) || (!metric && rain < 2000) {
        502
    } else {
        503
    }
}

/// The codes that describe a period: its cloud code, then a rain code when it
/// rains, then 601 when it snows.
pub open spec fn condition_codes_of(cloud_cover: u8, rain: u64, snow: u64, metric: bool) -> Seq<u16> {
    let c = seq![cloud_code(cloud_cover)];
    let r = if rain > 0 {
        c.push(rain_code(rain, metric))
    } else {
        c
    };
    if snow > 0 {
        r.push(601u16)
    } else {
        r
    }
}

/// The codes the classifier can emit.
pub open spec fn is_standard_code(c: u16) -> bool {
    (800 <= c <= 804) || (500 <= c <= 503) || c == 601
}

/// Classifies a period. `rain` and `snow` are rates in thousandths of an inch
/// (imperial) or of a millimetre (metric).
pub fn condition_codes(cloud_cover: u8, rain: u64, snow: u64, metric: bool) -> (r: Vec<u16>)
    ensures
        r@ == condition_codes_of(cloud_cover, rain, snow, metric),
{
    let mut codes: Vec<u16> = Vec::new();
    let cloud: u16 = if cloud_cover == 0 {
        800
    } else if cloud_cover < 25 {
        801
    } else if cloud_cover < 50 {
        802
    } else if cloud_cover < 85 {
        803
    } else {
        804
    };
    codes.push(cloud);
    if rain > 0 {
        let code: u16 = if (metric && rain < 2500) || (!metric && rain < 98) {
            500
        } else if (metric && rain < 10000) || (!metric && rain < 390) {
            501
        } else if (metric && rain < 50000) || (!metric && rain < 2000) {
            502
        } else {
            503
        };
        codes.push(code);
    }
    if snow > 0 {
        codes.push(601);
    }
    assert(codes@ =~= condition_codes_of(cloud_cover, rain, snow, metric));
    codes
}

/// Every code the classifier emits is a standard code.
pub proof fn lemma_codes_standard(cloud_cover: u8, rain: u64, snow: u64, metric: bool)
    ensures
        forall|i: int|
            0 <= i < condition_codes_of(cloud_cover, rain, snow, metric).len() ==> is_standard_code(
                #[trigger] condition_codes_of(cloud_cover, rain, snow, metric)[i],
            ),
{
}

/// With a code table that holds every standard code, every code that the
/// classifier emits is found, so `get_conditions` succeeds.
pub proof fn lemma_standard_table_suffices(
    table: Seq<crate::condition::CodeEntry>,
    cloud_cover: u8,
    rain: u64,
    snow: u64,
    metric: bool,
)
    requires
        forall|c: u16| is_standard_code(c) ==> table_has(table, c),
    ensures
        forall|i: int|
            0 <= i < condition_codes_of(cloud_cover, rain, snow, metric).len() ==> table_has(
                table,
                #[trigger] condition_codes_of(cloud_cover, rain, snow, metric)[i],
            ),
{
    lemma_codes_standard(cloud_cover, rain, snow, metric);
}

/// Builds the conditions for `codes` from the code table, in order; the first
/// code missing from the table gives `NotFound`.
pub fn conditions_for_codes(codes: &Vec<u16>, table: &CodeTable) -> (r: Result<Vec<WeatherCondition>, WeatherError>)
    ensures
        r is Ok <==> forall|i: int| 0 <= i < codes@.len() ==> table_has(table.entries@, #[trigger] codes@[i]),
        r matches Ok(v) ==> v@.len() == codes@.len() && forall|i: int|
            0 <= i < codes@.len() ==> built_from(table.entries@, codes@[i], #[trigger] v@[i]),
        r matches Err(e) ==> e is NotFound,
{
    let mut out: Vec<WeatherCondition> = Vec::new();
    let mut i: usize = 0;
    while i < codes.len()
        invariant
            0 <= i <= codes.len(),
            out@.len() == i,
            forall|j: int| 0 <= j < i ==> table_has(table.entries@, #[trigger] codes@[j]),
            forall|j: int| 0 <= j < i ==> built_from(table.entries@, codes@[j], #[trigger] out@[j]),
        decreases codes.len() - i,
    {
        match WeatherCondition::new(codes[i], table) {
            Ok(w) => {
                out.push(w);
            },
            Err(e) => {
                return Err(e);
            },
        }
        i = i + 1;
    }
    Ok(out)
}

/// Classifies a period and builds its conditions from the code table.
pub fn get_conditions(cloud_cover: u8, rain: u64, snow: u64, metric: bool, table: &CodeTable) -> (r: Result<
    Vec<WeatherCondition>,
    WeatherError,
>)
    ensures
        ({
            let codes = condition_codes_of(cloud_cover, rain, snow, metric);
            &&& r is Ok <==> forall|i: int| 0 <= i < codes.len() ==> table_has(table.entries@, #[trigger] codes[i])
            &&& r matches Ok(v) ==> v@.len() == codes.len() && forall|i: int|
                0 <= i < codes.len() ==> built_from(table.entries@, codes[i], #[trigger] v@[i])
            &&& r matches Err(e) ==> e is NotFound
        }),
{
    let codes = condition_codes(cloud_cover, rain, snow, metric);
    conditions_for_codes(&codes, table)
}

/// The summary of a period's conditions: their sentences joined by spaces.
pub open spec fn joined_sentences(conditions: Seq<WeatherCondition>) -> Seq<char>
    decreases conditions.len(),
{
    if conditions.len() == 0 {
        Seq::empty()
    } else if conditions.len() == 1 {
        conditions[0].sentence@
    } else {
        joined_sentences(conditions.drop_last()) + " "@ + conditions.last().sentence@
    }
}

/// Joins the sentences of `conditions` with single spaces.
pub fn get_conditions_sentence(conditions: &Vec<WeatherCondition>) -> (r: String)
    ensures
        r@ == joined_sentences(conditions@),
{
    let mut s = String::new();
    let mut i: usize = 0;
    while i < conditions.len()
        invariant
            0 <= i <= conditions.len(),
            s@ == joined_sentences(conditions@.subrange(0, i as int)),
        decreases conditions.len() - i,
    {
        if i > 0 {
            s.append(" ");
        }
        s.append(conditions[i].sentence.as_str());
        proof {
            let p = conditions@.subrange(0, i + 1);
            assert(p.drop_last() =~= conditions@.subrange(0, i as int));
        }
        i = i + 1;
    }
    assert(conditions@.subrange(0, conditions@.len() as int) =~= conditions@);
    s
}

} // verus!
