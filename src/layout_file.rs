use vstd::prelude::*;

use crate::error::WeatherError;
use crate::json::{find_member, member_opt, JsonValue};
use crate::layout_item::{parsed_from, tenths_text, Colors, Item, ItemEnum, ItemJson, ItemKind};
use crate::layout_row::{segments, LayoutFile, Row};
use crate::text::signed_decimal;

verus! {

/// The text of a string member, empty when absent or not a string.
pub open spec fn text_member(m: Seq<(String, JsonValue)>, k: Seq<char>) -> Seq<char> {
    match member_opt(m, k) {
        Some(JsonValue::Str(s)) => s@,
        _ => Seq::empty(),
    }
}

/// The text of a string member, if it is one.
pub open spec fn opt_text_member(m: Seq<(String, JsonValue)>, k: Seq<char>) -> Option<Seq<char>> {
    match member_opt(m, k) {
        Some(JsonValue::Str(s)) => Some(s@),
        _ => None,
    }
}

/// The item kind a `type` member names; an item without one is text.
pub open spec fn kind_named(t: Option<Seq<char>>) -> ItemKind {
    match t {
        None => ItemKind::Text,
        Some(s) => if s == "text"@ {
            ItemKind::Text
        } else if s == "variable"@ {
            ItemKind::Variable
        } else if s == "function"@ {
            ItemKind::Function
        } else if s == "image"@ {
            ItemKind::Image
        } else {
            ItemKind::Other
        },
    }
}

/// The strings of a list, other elements left out.
pub open spec fn strings_in(v: Seq<JsonValue>) -> Seq<Seq<char>>
    decreases v.len(),
{
    if v.len() == 0 {
        Seq::empty()
    } else {
        let rest = strings_in(v.drop_last());
        match v.last() {
            JsonValue::Str(s) => rest.push(s@),
            _ => rest,
        }
    }
}

/// The members of an object whose values are strings.
pub open spec fn string_members(m: Seq<(String, JsonValue)>) -> Seq<(Seq<char>, Seq<char>)>
    decreases m.len(),
{
    if m.len() == 0 {
        Seq::empty()
    } else {
        let rest = string_members(m.drop_last());
        match m.last().1 {
            JsonValue::Str(s) => rest.push((m.last().0@, s@)),
            _ => rest,
        }
    }
}

/// An image scale in tenths, from an integer or a decimal number.
pub open spec fn scale_of(o: Option<JsonValue>) -> Option<i64> {
    match o {
        Some(JsonValue::Tenths(t)) => Some(t),
        Some(JsonValue::Int(n)) => if -100000000000000000 <= n <= 100000000000000000 {
            Some((n * 10) as i64)
        } else {
            None
        },
        _ => None,
    }
}

/// `i` is the item that the object `m` declares.
pub open spec fn declared(m: Seq<(String, JsonValue)>, i: ItemJson) -> bool {
    &&& i.item_type == kind_named(opt_text_member(m, "type"@))
    &&& i.value@ == text_member(m, "value"@)
    &&& crate::layout_item::opt_view(i.color) == opt_text_member(m, "color"@)
    &&& crate::layout_item::opt_view(i.bg_color) == opt_text_member(m, "bg_color"@)
    &&& crate::layout_item::opt_view(i.unit_color) == opt_text_member(m, "unit_color"@)
    &&& crate::layout_item::opt_view(i.metric) == opt_text_member(m, "metric"@)
    &&& crate::layout_item::opt_view(i.imperial) == opt_text_member(m, "imperial"@)
    &&& i.args@.map_values(|a: String| a@) == (match member_opt(m, "args"@) {
        Some(JsonValue::Array(v)) => strings_in(v@),
        _ => Seq::empty(),
    })
    &&& i.kwargs@.map_values(|p: (String, String)| (p.0@, p.1@)) == (match member_opt(m, "kwargs"@) {
        Some(JsonValue::Object(k)) => string_members(k@),
        _ => Seq::empty(),
    })
    &&& i.scale == scale_of(member_opt(m, "scale"@))
}

/// A row-list entry that reads as an item: a string, a number or an object.
pub open spec fn is_entry(v: JsonValue) -> bool {
    v is Str || v is Int || v is Tenths || v is Object
}

/// `i` is the item that the row-list entry `v` gives.
pub open spec fn item_of_entry(v: JsonValue, i: ItemJson) -> bool {
    match v {
        JsonValue::Str(s) => parsed_from(s@, i),
        JsonValue::Int(n) => parsed_from(signed_decimal(n as int), i),
        JsonValue::Tenths(t) => parsed_from(tenths_text(t as int), i),
        JsonValue::Object(m) => declared(m@, i),
        _ => false,
    }
}

/// A row of a layout document reads: a template string or a list of entries.
pub open spec fn row_ok(v: JsonValue) -> bool {
    ||| v is Str
    ||| v is Array && forall|j: int| 0 <= j < v->Array_0@.len() ==> is_entry(#[trigger] v->Array_0@[j])
}

/// `r` is the row that the document row `v` gives.
pub open spec fn row_of(v: JsonValue, r: Row) -> bool {
    match v {
        JsonValue::Str(s) => r.items@.len() == segments(s@).len() && forall|k: int|
            0 <= k < r.items@.len() ==> parsed_from(segments(s@)[k], #[trigger] r.items@[k].data),
        JsonValue::Array(items) => r.items@.len() == items@.len() && forall|k: int|
            0 <= k < items@.len() ==> item_of_entry(items@[k], #[trigger] r.items@[k].data),
        _ => false,
    }
}

fn text_of_member(m: &Vec<(String, JsonValue)>, key: &str) -> (r: String)
    ensures
        r@ == text_member(m@, key@),
{
    match find_member(m, &String::from_str(key)) {
        Some(JsonValue::Str(s)) => s.clone(),
        _ => String::new(),
    }
}

fn opt_text_of_member(m: &Vec<(String, JsonValue)>, key: &str) -> (r: Option<String>)
    ensures
        crate::layout_item::opt_view(r) == opt_text_member(m@, key@),
{
    match find_member(m, &String::from_str(key)) {
        Some(JsonValue::Str(s)) => Some(s.clone()),
        _ => None,
    }
}

fn kind_of(t: Option<String>) -> (r: ItemKind)
    ensures
        r == kind_named(crate::layout_item::opt_view(t)),
{
    proof {
        reveal_strlit("text");
        reveal_strlit("variable");
        reveal_strlit("function");
        reveal_strlit("image");
    }
    match t {
        None => ItemKind::Text,
        Some(s) => if s == String::from_str("text") {
            ItemKind::Text
        } else if s == String::from_str("variable") {
            ItemKind::Variable
        } else if s == String::from_str("function") {
            ItemKind::Function
        } else if s == String::from_str("image") {
            ItemKind::Image
        } else {
            ItemKind::Other
        },
    }
}

fn strings_of(v: &Vec<JsonValue>) -> (r: Vec<String>)
    ensures
        r@.map_values(|a: String| a@) == strings_in(v@),
{
    let mut out: Vec<String> = Vec::new();
    let mut i: usize = 0;
    while i < v.len()
        invariant
            0 <= i <= v@.len(),
            out@.map_values(|a: String| a@) == strings_in(v@.subrange(0, i as int)),
        decreases v.len() - i,
    {
        proof {
            assert(v@.subrange(0, i + 1).drop_last() =~= v@.subrange(0, i as int));
        }
        match &v[i] {
            JsonValue::Str(s) => {
                let ghost before = out@;
                out.push(s.clone());
                proof {
                    assert(out@.map_values(|a: String| a@) =~= before.map_values(|a: String| a@).push(s@));
                }
            },
            _ => {},
        }
        i = i + 1;
    }
    assert(v@.subrange(0, v@.len() as int) =~= v@);
    out
}

fn string_members_of(m: &Vec<(String, JsonValue)>) -> (r: Vec<(String, String)>)
    ensures
        r@.map_values(|p: (String, String)| (p.0@, p.1@)) == string_members(m@),
{
    let mut out: Vec<(String, String)> = Vec::new();
    let mut i: usize = 0;
    while i < m.len()
        invariant
            0 <= i <= m@.len(),
            out@.map_values(|p: (String, String)| (p.0@, p.1@)) == string_members(m@.subrange(0, i as int)),
        decreases m.len() - i,
    {
        proof {
            assert(m@.subrange(0, i + 1).drop_last() =~= m@.subrange(0, i as int));
        }
        match &m[i].1 {
            JsonValue::Str(s) => {
                let ghost before = out@;
                out.push((m[i].0.clone(), s.clone()));
                proof {
                    assert(out@.map_values(|p: (String, String)| (p.0@, p.1@)) =~= before.map_values(
                        |p: (String, String)| (p.0@, p.1@),
                    ).push((m@[i as int].0@, s@)));
                }
            },
            _ => {},
        }
        i = i + 1;
    }
    assert(m@.subrange(0, m@.len() as int) =~= m@);
    out
}

fn scale_from(o: Option<&JsonValue>) -> (r: Option<i64>)
    ensures
        r == scale_of(
            match o {
                Some(v) => Some(*v),
                None => None,
            },
        ),
{
    match o {
        Some(JsonValue::Tenths(t)) => Some(*t),
        Some(JsonValue::Int(n)) => {
            if -100000000000000000 <= *n && *n <= 100000000000000000 {
                Some(*n * 10)
            } else {
                None
            }
        },
        _ => None,
    }
}

/// Reads an item that a layout document declares as an object.
pub fn item_from_object(m: &Vec<(String, JsonValue)>) -> (r: ItemJson)
    ensures
        declared(m@, r),
{
    let args = match find_member(m, &String::from_str("args")) {
        Some(JsonValue::Array(v)) => strings_of(v),
        _ => Vec::new(),
    };
    let kwargs = match find_member(m, &String::from_str("kwargs")) {
        Some(JsonValue::Object(k)) => string_members_of(k),
        _ => Vec::new(),
    };
    proof {
        assert(Seq::<String>::empty().map_values(|a: String| a@) =~= Seq::<Seq<char>>::empty());
        assert(Seq::<(String, String)>::empty().map_values(|p: (String, String)| (p.0@, p.1@)) =~= Seq::<
            (Seq<char>, Seq<char>),
        >::empty());
    }
    ItemJson {
        item_type: kind_of(opt_text_of_member(m, "type")),
        value: text_of_member(m, "value"),
        color: opt_text_of_member(m, "color"),
        bg_color: opt_text_of_member(m, "bg_color"),
        unit_color: opt_text_of_member(m, "unit_color"),
        metric: opt_text_of_member(m, "metric"),
        imperial: opt_text_of_member(m, "imperial"),
        args,
        kwargs,
        scale: scale_from(find_member(m, &String::from_str("scale"))),
    }
}

/// Reads one entry of a row list into an item.
fn entry_item(v: &JsonValue) -> (r: Option<Item>)
    ensures
        r is Some <==> is_entry(*v),
        r matches Some(i) ==> item_of_entry(*v, i.data),
{
    match v {
        JsonValue::Str(s) => Some(Item::new(ItemEnum::ItemString(s.clone()))),
        JsonValue::Int(n) => Some(Item::new(ItemEnum::ItemInt(*n))),
        JsonValue::Tenths(t) => Some(Item::from_str(crate::layout_item::tenths_string(*t).as_str())),
        JsonValue::Object(m) => Some(Item::from_item_json(item_from_object(m))),
        _ => None,
    }
}

fn row_from_json(v: &JsonValue) -> (r: Option<Row>)
    ensures
        r is Some <==> row_ok(*v),
        r matches Some(row) ==> row_of(*v, row),
{
    match v {
        JsonValue::Str(s) => Some(Row::from_str(s.as_str())),
        JsonValue::Array(entries) => {
            let mut items: Vec<Item> = Vec::new();
            let mut j: usize = 0;
            while j < entries.len()
                invariant
                    *v == JsonValue::Array(*entries),
                    0 <= j <= entries@.len(),
                    items@.len() == j,
                    forall|k: int| 0 <= k < j ==> is_entry(#[trigger] entries@[k]),
                    forall|k: int| 0 <= k < j ==> item_of_entry(entries@[k], #[trigger] items@[k].data),
                decreases entries.len() - j,
            {
                match entry_item(&entries[j]) {
                    Some(i) => {
                        items.push(i);
                    },
                    None => {
                        assert(!is_entry(entries@[j as int]));
                        assert(!row_ok(*v)) by {
                            assert((*v)->Array_0 == *entries);
                            if row_ok(*v) {
                                assert(is_entry(entries@[j as int]));
                            }
                        }
                        return None;
                    },
                }
                j = j + 1;
            }
            Some(Row { items })
        },
        _ => None,
    }
}

/// The default colours that a layout document declares.
pub open spec fn colors_declared(m: Seq<(String, JsonValue)>, c: Colors) -> bool {
    &&& c.variable@ == text_member(m, "variable_color"@)
    &&& c.text@ == text_member(m, "text_color"@)
    &&& c.unit@ == text_member(m, "unit_color"@)
    &&& c.variable_bg@ == text_member(m, "variable_bg_color"@)
    &&& c.text_bg@ == text_member(m, "text_bg_color"@)
    &&& c.unit_bg@ == text_member(m, "unit_bg_color"@)
}

/// A layout document reads: an object whose `layout` member is a list of
/// rows that read.
pub open spec fn layout_ok(doc: JsonValue) -> bool {
    doc matches JsonValue::Object(m) && member_opt(m@, "layout"@) matches Some(JsonValue::Array(rows)) && forall|
        k: int,
    |
        0 <= k < rows@.len() ==> row_ok(#[trigger] rows@[k])
}

impl LayoutFile {
    /// Reads a layout document: its default colours (absent ones are empty)
    /// and its rows. A document that does not read is a serialization error.
    pub fn from_json(doc: &JsonValue) -> (r: Result<LayoutFile, WeatherError>)
        ensures
            r is Ok <==> layout_ok(*doc),
            r matches Err(e) ==> e is Serialization,
            r matches Ok(f) ==> {
                let m = doc->Object_0@;
                let rows = member_opt(m, "layout"@)->0->Array_0@;
                &&& colors_declared(m, f.colors)
                &&& f.rows@.len() == rows.len()
                &&& forall|k: int| 0 <= k < rows.len() ==> row_of(rows[k], #[trigger] f.rows@[k])
            },
    {
        let m = match doc {
            JsonValue::Object(m) => m,
            _ => {
                return Err(WeatherError::Serialization(String::from_str("a layout is a JSON object")));
            },
        };
        let list = match find_member(m, &String::from_str("layout")) {
            Some(JsonValue::Array(list)) => list,
            _ => {
                return Err(WeatherError::Serialization(String::from_str("a layout needs a list of rows")));
            },
        };
        let ghost found = member_opt(m@, "layout"@);
        let mut rows: Vec<Row> = Vec::new();
        let mut k: usize = 0;
        while k < list.len()
            invariant
                *doc == JsonValue::Object(*m),
                found == member_opt(m@, "layout"@),
                found == Some(JsonValue::Array(*list)),
                0 <= k <= list@.len(),
                rows@.len() == k,
                forall|j: int| 0 <= j < k ==> row_ok(#[trigger] list@[j]),
                forall|j: int| 0 <= j < k ==> row_of(list@[j], #[trigger] rows@[j]),
            decreases list.len() - k,
        {
            match row_from_json(&list[k]) {
                Some(row) => {
                    rows.push(row);
                },
                None => {
                    assert(!row_ok(list@[k as int]));
                    assert(!layout_ok(*doc)) by {
                        assert((*doc)->Object_0 == *m);
                        assert(found->0->Array_0 == *list);
                        if layout_ok(*doc) {
                            assert(row_ok(list@[k as int]));
                        }
                    }
                    return Err(WeatherError::Serialization(String::from_str("a layout row does not read")));
                },
            }
            k = k + 1;
        }
        let colors = Colors {
            variable: text_of_member(m, "variable_color"),
            text: text_of_member(m, "text_color"),
            unit: text_of_member(m, "unit_color"),
            variable_bg: text_of_member(m, "variable_bg_color"),
            text_bg: text_of_member(m, "text_bg_color"),
            unit_bg: text_of_member(m, "unit_bg_color"),
        };
        Ok(LayoutFile { colors, rows })
    }
}

} // verus!
