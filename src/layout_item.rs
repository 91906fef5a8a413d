use vstd::prelude::*;
use vstd::string::StrSliceExecFns;

use crate::error::WeatherError;
use crate::json::{get_member, member, JsonValue};
use crate::text::{
    contains_char, decimal, digit_char, holds, lemma_split_len, push_decimal, push_signed, signed_decimal, split,
    split_at_char,
};

verus! {

/// What an item shows.
#[derive(Debug)]
pub enum ItemKind {
    Text,
    Variable,
    Function,
    Image,
    /// A kind this engine does not know; it renders as nothing.
    Other,
}

/// An item as a layout document declares it.
#[derive(Debug)]
pub struct ItemJson {
    pub item_type: ItemKind,
    pub value: String,
    pub color: Option<String>,
    pub bg_color: Option<String>,
    pub unit_color: Option<String>,
    pub metric: Option<String>,
    pub imperial: Option<String>,
    pub args: Vec<String>,
    pub kwargs: Vec<(String, String)>,
    /// Image scale in tenths.
    pub scale: Option<i64>,
}

/// An entry of a row list: a string to parse, a number, or a full item.
#[derive(Debug)]
pub enum ItemEnum {
    ItemString(String),
    ItemInt(i64),
    /// A non-integer number, as its decimal text.
    ItemFloat(String),
    Item(ItemJson),
}

/// One item of a layout row.
#[derive(Debug)]
pub struct Item {
    pub data: ItemJson,
}

/// What rendering an item yields: text, or an image for the caller to fetch
/// and draw.
#[derive(Debug)]
pub enum Piece {
    Text(String),
    Image { url: String, scale: Option<i64> },
}

/// The text of an optional string, empty when absent.
pub open spec fn or_empty(o: Option<String>) -> Seq<char> {
    match o {
        Some(s) => s@,
        None => Seq::empty(),
    }
}

pub open spec fn opt_view(o: Option<String>) -> Option<Seq<char>> {
    match o {
        Some(s) => Some(s@),
        None => None,
    }
}

/// The positional arguments among `parts`: those without `=`.
pub open spec fn positional(parts: Seq<Seq<char>>) -> Seq<Seq<char>>
    decreases parts.len(),
{
    if parts.len() == 0 {
        Seq::empty()
    } else if holds(parts.last(), '=') {
        positional(parts.drop_last())
    } else {
        positional(parts.drop_last()).push(parts.last())
    }
}

/// The named arguments among `parts`: those with `=`, as name and value.
pub open spec fn named(parts: Seq<Seq<char>>) -> Seq<(Seq<char>, Seq<char>)>
    decreases parts.len(),
{
    if parts.len() == 0 {
        Seq::empty()
    } else if holds(parts.last(), '=') {
        let kv = split(parts.last(), '=');
        named(parts.drop_last()).push((kv[0], kv[1]))
    } else {
        named(parts.drop_last())
    }
}

/// `i` is the item that the text `s` describes: `@path|imperial|metric` is a
/// variable (one suffix serves both systems), `#name|arg|key=value` a
/// function, a leading backslash escapes, anything else is text.
pub open spec fn parsed_from(s: Seq<char>, i: ItemJson) -> bool {
    let rest = s.drop_first();
    let parts = split(rest, '|');
    &&& i.color is None
    &&& i.bg_color is None
    &&& i.unit_color is None
    &&& i.scale is None
    &&& if s.len() > 0 && s[0] == '@' {
        &&& i.item_type is Variable
        &&& i.value@ == parts[0]
        &&& opt_view(i.imperial) == (if parts.len() == 2 || parts.len() == 3 {
            Some(parts[1])
        } else {
            None::<Seq<char>>
        })
        &&& opt_view(i.metric) == (if parts.len() == 2 {
            Some(parts[1])
        } else if parts.len() == 3 {
            Some(parts[2])
        } else {
            None::<Seq<char>>
        })
        &&& i.args@.len() == 0
        &&& i.kwargs@.len() == 0
    } else if s.len() > 0 && s[0] == '#' {
        &&& i.item_type is Function
        &&& i.value@ == parts[0]
        &&& i.imperial is None
        &&& i.metric is None
        &&& i.args@.map_values(|a: String| a@) == positional(parts.drop_first())
        &&& i.kwargs@.map_values(|p: (String, String)| (p.0@, p.1@)) == named(parts.drop_first())
    } else {
        &&& i.item_type is Text
        &&& i.value@ == (if s.len() > 0 && s[0] == '\\' {
            rest
        } else {
            s
        })
        &&& i.imperial is None
        &&& i.metric is None
        &&& i.args@.len() == 0
        &&& i.kwargs@.len() == 0
    }
}

/// The value of a list index written in decimal digits.
pub open spec fn digits_value(s: Seq<char>) -> nat
    decreases s.len(),
{
    if s.len() == 0 {
        0
    } else {
        digits_value(s.drop_last()) * 10 + ((s.last() as int - '0' as int) as nat)
    }
}

pub open spec fn all_digits(s: Seq<char>) -> bool {
    forall|i: int| 0 <= i < s.len() ==> '0' <= #[trigger] s[i] <= '9'
}

/// One step of a variable path from `cur`: `[n]` indexes a list, a name
/// looks up an object member. A missing entry is `Null`; a name looked up in
/// `Null`, an empty step, or a malformed index fails (`None`).
pub open spec fn path_step(cur: JsonValue, comp: Seq<char>) -> Option<JsonValue> {
    if comp.len() == 0 {
        None
    } else if comp[0] == '[' {
        let inner = comp.subrange(1, comp.len() - 1);
        if comp.len() < 2 || inner.len() == 0 || !all_digits(inner) {
            None
        } else {
            let n = digits_value(inner);
            Some(
                match cur {
                    JsonValue::Array(v) => if n < v@.len() {
                        v@[n as int]
                    } else {
                        JsonValue::Null
                    },
                    _ => JsonValue::Null,
                },
            )
        }
    } else {
        match cur {
            JsonValue::Null => None,
            JsonValue::Object(m) => Some(member(m@, comp)),
            _ => Some(JsonValue::Null),
        }
    }
}

/// Follows a whole path.
pub open spec fn resolve(cur: JsonValue, path: Seq<Seq<char>>) -> Option<JsonValue>
    decreases path.len(),
{
    if path.len() == 0 {
        Some(cur)
    } else {
        match path_step(cur, path[0]) {
            None => None,
            Some(next) => resolve(next, path.drop_first()),
        }
    }
}

/// A number of tenths with one decimal place.
pub open spec fn tenths_text(t: int) -> Seq<char> {
    let a = if t < 0 {
        -t
    } else {
        t
    };
    (if t < 0 {
        "-"@
    } else {
        Seq::empty()
    }) + decimal((a / 10) as nat) + "."@ + seq![digit_char((a % 10) as nat)]
}

/// How a leaf shows: strings as they are, numbers in decimal; other values
/// fail.
pub open spec fn leaf_text(v: JsonValue) -> Option<Seq<char>> {
    match v {
        JsonValue::Str(s) => Some(s@),
        JsonValue::Tenths(t) => Some(tenths_text(t as int)),
        JsonValue::Int(n) => Some(signed_decimal(n as int)),
        _ => None,
    }
}

/// The text a variable path shows against `data`.
pub open spec fn variable_text(path: Seq<char>, data: JsonValue) -> Option<Seq<char>> {
    match resolve(data, split(path, '.')) {
        None => None,
        Some(v) => leaf_text(v),
    }
}

/// The colour code for an air quality index from 1 (good) to 5 (very poor).
pub open spec fn aqi_color(n: nat) -> Option<Seq<char>> {
    if n == 1 {
        Some("\u{1b}[32m"@)
    } else if n == 2 {
        Some("\u{1b}[92m"@)
    } else if n == 3 {
        Some("\u{1b}[33m"@)
    } else if n == 4 {
        Some("\u{1b}[91m"@)
    } else if n == 5 {
        Some("\u{1b}[31m"@)
    } else {
        None
    }
}

/// A decimal number read from text, 0 when the text is not one.
pub open spec fn number_or_zero(s: Seq<char>) -> nat {
    if s.len() > 0 && all_digits(s) {
        digits_value(s)
    } else {
        0
    }
}

/// The value that an item shows, before colours and units.
pub open spec fn value_text(i: ItemJson, data: JsonValue) -> Option<Seq<char>> {
    match i.item_type {
        ItemKind::Variable => variable_text(i.value@, data),
        ItemKind::Function => function_text(i, data),
        _ => Some(i.value@),
    }
}

/// The value of the argument of a function: a text or variable item written
/// as a string.
pub open spec fn argument_text(arg: Seq<char>, data: JsonValue) -> Option<Seq<char>> {
    if arg.len() > 0 && arg[0] == '#' {
        None
    } else if arg.len() > 0 && arg[0] == '@' {
        variable_text(split(arg.drop_first(), '|')[0], data)
    } else if arg.len() > 0 && arg[0] == '\\' {
        Some(arg.drop_first())
    } else {
        Some(arg)
    }
}

/// The value of a function item; `color_aqi` is the one function known.
pub open spec fn function_text(i: ItemJson, data: JsonValue) -> Option<Seq<char>> {
    if i.value@ == "color_aqi"@ && i.args@.len() > 0 {
        match argument_text(i.args@[0]@, data) {
            None => None,
            Some(t) => aqi_color(number_or_zero(t)),
        }
    } else {
        None
    }
}

/// The colours of one render: foreground and background for variables,
/// texts and units.
#[derive(Debug)]
pub struct Colors {
    pub variable: String,
    pub text: String,
    pub unit: String,
    pub variable_bg: String,
    pub text_bg: String,
    pub unit_bg: String,
}

/// What an item renders to (`None` when it fails). Images are `Err` with the
/// source to fetch.
pub open spec fn rendered(i: ItemJson, data: JsonValue, c: Colors, metric: bool) -> Option<Result<Seq<char>, Seq<char>>> {
    match i.item_type {
        ItemKind::Text => Some(Ok(c.text@ + c.text_bg@ + or_empty(i.color) + or_empty(i.bg_color) + i.value@)),
        ItemKind::Variable => match variable_text(i.value@, data) {
            None => None,
            Some(v) => Some(
                Ok(
                    c.variable@ + c.variable_bg@ + or_empty(i.color) + or_empty(i.bg_color) + v + c.unit@ + c.unit_bg@
                        + or_empty(i.unit_color) + (if metric {
                        or_empty(i.metric)
                    } else {
                        or_empty(i.imperial)
                    }),
                ),
            ),
        },
        ItemKind::Function => match function_text(i, data) {
            None => None,
            Some(v) => Some(Ok(or_empty(i.color) + or_empty(i.bg_color) + v)),
        },
        ItemKind::Image => match argument_text(i.value@, data) {
            None => None,
            Some(src) => if is_url_text(src) {
                Some(Err(src))
            } else {
                None
            },
        },
        ItemKind::Other => Some(Ok(Seq::empty())),
    }
}

/// Whether `s` reads as a web address, as the pattern
/// `https?://(www\d?\.)?\w+\.\w+` decides it.
pub uninterp spec fn is_url_text(s: Seq<char>) -> bool;

/// Relies on regex::Regex::new and Regex::is_match: the pattern is valid, and
/// whether it matches depends on the text alone.
#[verifier::external_body]
fn is_url(s: &str) -> (r: bool)
    ensures
        r == is_url_text(s@),
{
    match regex::Regex::new(r"https?://(www\d?\.)?\w+\.\w+") {
        Ok(re) => re.is_match(s),
        Err(_) => false,
    }
}

fn empty_item(kind: ItemKind, value: String) -> (r: ItemJson)
    ensures
        r.item_type == kind,
        r.value == value,
        r.color is None,
        r.bg_color is None,
        r.unit_color is None,
        r.metric is None,
        r.imperial is None,
        r.args@.len() == 0,
        r.kwargs@.len() == 0,
        r.scale is None,
{
    ItemJson {
        item_type: kind,
        value,
        color: None,
        bg_color: None,
        unit_color: None,
        metric: None,
        imperial: None,
        args: Vec::new(),
        kwargs: Vec::new(),
        scale: None,
    }
}

fn split_arguments(parts: &Vec<String>) -> (r: (Vec<String>, Vec<(String, String)>))
    requires
        parts@.len() >= 1,
    ensures
        r.0@.map_values(|a: String| a@) == positional(parts@.map_values(|x: String| x@).drop_first()),
        r.1@.map_values(|p: (String, String)| (p.0@, p.1@)) == named(parts@.map_values(|x: String| x@).drop_first()),
{
    let ghost pv = parts@.map_values(|x: String| x@);
    let mut args: Vec<String> = Vec::new();
    let mut kwargs: Vec<(String, String)> = Vec::new();
    let mut i: usize = 1;
    while i < parts.len()
        invariant
            1 <= i <= parts@.len(),
            pv == parts@.map_values(|x: String| x@),
            args@.map_values(|a: String| a@) == positional(pv.subrange(1, i as int)),
            kwargs@.map_values(|p: (String, String)| (p.0@, p.1@)) == named(pv.subrange(1, i as int)),
        decreases parts.len() - i,
    {
        let p = &parts[i];
        let ghost sub = pv.subrange(1, i + 1);
        proof {
            assert(sub.drop_last() =~= pv.subrange(1, i as int));
            assert(sub.last() == p@);
        }
        if contains_char(p.as_str(), '=') {
            let kv = split_at_char(p.as_str(), '=');
            proof {
                lemma_first_index_found(p@, '=');
            }
            let pair = (kv[0].clone(), kv[1].clone());
            let ghost old_kw = kwargs@;
            kwargs.push(pair);
            proof {
                assert(kwargs@.map_values(|p: (String, String)| (p.0@, p.1@)) =~= old_kw.map_values(
                    |p: (String, String)| (p.0@, p.1@),
                ).push((kv@[0]@, kv@[1]@)));
                assert(kv@.map_values(|x: String| x@)[0] == kv@[0]@);
                assert(kv@.map_values(|x: String| x@)[1] == kv@[1]@);
            }
        } else {
            let ghost old_args = args@;
            args.push(p.clone());
            proof {
                assert(args@.map_values(|a: String| a@) =~= old_args.map_values(|a: String| a@).push(p@));
            }
        }
        i = i + 1;
    }
    assert(pv.subrange(1, parts@.len() as int) =~= pv.drop_first());
    (args, kwargs)
}

/// A text that holds `c` splits into at least two pieces.
proof fn lemma_first_index_found(s: Seq<char>, c: char)
    requires
        holds(s, c),
    ensures
        split(s, c).len() >= 2,
        0 <= crate::text::first_index(s, c) < s.len(),
    decreases s.len(),
{
    if s[0] != c {
        let t = s.drop_first();
        let k = choose|k: int| 0 <= k < s.len() && s[k] == c;
        assert(t[k - 1] == c);
        lemma_first_index_found(t, c);
    }
    let i = crate::text::first_index(s, c);
    lemma_split_len(s.subrange(i + 1, s.len() as int), c);
}

impl Item {
    /// Wraps a declared item.
    pub fn from_item_json(i: ItemJson) -> (r: Item)
        ensures
            r.data == i,
    {
        Item { data: i }
    }

    /// Parses an item from its text form.
    pub fn from_str(s: &str) -> (r: Item)
        ensures
            parsed_from(s@, r.data),
    {
        let n: usize = s.unicode_len();
        if n > 0 {
            let first = s.get_char(0);
            let rest = s.substring_char(1, n);
            proof {
                assert(rest@ =~= s@.drop_first());
            }
            proof {
                lemma_split_len(rest@, '|');
            }
            if first == '@' {
                let parts = split_at_char(rest, '|');
                let ghost pv = parts@.map_values(|x: String| x@);
                proof {
                    assert(pv.len() == parts@.len());
                    assert(pv[0] == parts@[0]@);
                }
                let mut item = empty_item(ItemKind::Variable, parts[0].clone());
                if parts.len() == 2 {
                    proof {
                        assert(pv[1] == parts@[1]@);
                    }
                    item.metric = Some(parts[1].clone());
                    item.imperial = Some(parts[1].clone());
                } else if parts.len() == 3 {
                    proof {
                        assert(pv[1] == parts@[1]@);
                        assert(pv[2] == parts@[2]@);
                    }
                    item.imperial = Some(parts[1].clone());
                    item.metric = Some(parts[2].clone());
                }
                return Item { data: item };
            } else if first == '#' {
                let parts = split_at_char(rest, '|');
                let ghost pv = parts@.map_values(|x: String| x@);
                proof {
                    assert(pv[0] == parts@[0]@);
                }
                let (args, kwargs) = split_arguments(&parts);
                let mut item = empty_item(ItemKind::Function, parts[0].clone());
                item.args = args;
                item.kwargs = kwargs;
                return Item { data: item };
            } else if first == '\\' {
                return Item { data: empty_item(ItemKind::Text, String::from_str(rest)) };
            }
        }
        Item { data: empty_item(ItemKind::Text, String::from_str(s)) }
    }

    /// Builds an item from an entry of a row list; numbers become text.
    pub fn new(i: ItemEnum) -> (r: Item)
        ensures
            match i {
                ItemEnum::ItemString(s) => parsed_from(s@, r.data),
                ItemEnum::ItemInt(n) => parsed_from(signed_decimal(n as int), r.data),
                ItemEnum::ItemFloat(s) => parsed_from(s@, r.data),
                ItemEnum::Item(d) => r.data == d,
            },
    {
        match i {
            ItemEnum::ItemString(s) => Item::from_str(s.as_str()),
            ItemEnum::ItemInt(n) => {
                let mut s = String::new();
                push_signed(&mut s, n);
                proof {
                    assert(s@ =~= signed_decimal(n as int));
                }
                Item::from_str(s.as_str())
            },
            ItemEnum::ItemFloat(s) => Item::from_str(s.as_str()),
            ItemEnum::Item(d) => Item::from_item_json(d),
        }
    }
}

/// The value that an optional reference stands for: `Null` when absent.
pub open spec fn val(o: Option<&JsonValue>) -> JsonValue {
    match o {
        Some(v) => *v,
        None => JsonValue::Null,
    }
}

/// Above this an index can reach no list.
pub const INDEX_CAP: u128 = 100000000000000000000;

/// Reads a run of decimal digits: `None` unless `s` is one; otherwise the
/// value, or `(true, _)` when it exceeds `INDEX_CAP`.
pub(crate) fn read_digits(s: &str) -> (r: Option<(bool, u128)>)
    ensures
        r is Some <==> s@.len() > 0 && all_digits(s@),
        r matches Some((big, v)) ==> (big ==> digits_value(s@) > INDEX_CAP) && (!big ==> v == digits_value(s@)),
{
    let n: usize = s.unicode_len();
    if n == 0 {
        return None;
    }
    let mut acc: u128 = 0;
    let mut big = false;
    let mut i: usize = 0;
    while i < n
        invariant
            n == s@.len(),
            0 <= i <= n,
            forall|j: int| 0 <= j < i ==> '0' <= #[trigger] s@[j] <= '9',
            big ==> digits_value(s@.subrange(0, i as int)) > INDEX_CAP,
            !big ==> acc == digits_value(s@.subrange(0, i as int)) && acc <= INDEX_CAP,
        decreases n - i,
    {
        let c = s.get_char(i);
        if !('0' <= c && c <= '9') {
            return None;
        }
        proof {
            let p = s@.subrange(0, i + 1);
            assert(p.drop_last() =~= s@.subrange(0, i as int));
            assert(p.last() == c);
        }
        if !big {
            let d: u128 = (c as u32 - '0' as u32) as u128;
            let next: u128 = acc * 10 + d;
            if next > INDEX_CAP {
                big = true;
            } else {
                acc = next;
            }
        } else {
            proof {
                let p = s@.subrange(0, i + 1);
                assert(digits_value(p) >= digits_value(p.drop_last()) * 10);
            }
        }
        i = i + 1;
    }
    assert(s@.subrange(0, n as int) =~= s@);
    Some((big, acc))
}

/// One step of a variable path.
fn step<'a>(cur: Option<&'a JsonValue>, comp: &String) -> (r: Result<Option<&'a JsonValue>, ()>)
    ensures
        match path_step(val(cur), comp@) {
            None => r is Err,
            Some(next) => r matches Ok(o) && val(o) == next,
        },
{
    let n: usize = comp.as_str().unicode_len();
    if n == 0 {
        return Err(());
    }
    if comp.as_str().get_char(0) == '[' {
        if n < 2 {
            return Err(());
        }
        let inner = comp.as_str().substring_char(1, n - 1);
        match read_digits(inner) {
            None => Err(()),
            Some((big, v)) => {
                match cur {
                    Some(JsonValue::Array(items)) => {
                        let len: usize = items.len();
                        if !big && v < len as u128 {
                            Ok(Some(&items[v as usize]))
                        } else {
                            proof {
                                assert(items@.len() == len);
                                assert(usize::MAX < INDEX_CAP);
                            }
                            Ok(None)
                        }
                    },
                    _ => Ok(None),
                }
            },
        }
    } else {
        match cur {
            None => Err(()),
            Some(JsonValue::Null) => Err(()),
            Some(JsonValue::Object(m)) => Ok(get_member(m, comp)),
            Some(_) => Ok(None),
        }
    }
}

pub(crate) fn tenths_string(t: i64) -> (r: String)
    ensures
        r@ == tenths_text(t as int),
{
    let mut s = String::new();
    let a: u128 = if t < 0 {
        s.append("-");
        (0i128 - t as i128) as u128
    } else {
        t as u128
    };
    push_decimal(&mut s, a / 10);
    s.append(".");
    push_decimal(&mut s, a % 10);
    proof {
        reveal_strlit("-");
        assert(s@ =~= tenths_text(t as int));
    }
    s
}

fn leaf_string(v: Option<&JsonValue>) -> (r: Option<String>)
    ensures
        match leaf_text(val(v)) {
            None => r is None,
            Some(t) => r matches Some(s) && s@ == t,
        },
{
    match v {
        Some(JsonValue::Str(s)) => Some(s.clone()),
        Some(JsonValue::Tenths(t)) => Some(tenths_string(*t)),
        Some(JsonValue::Int(n)) => {
            let mut s = String::new();
            push_signed(&mut s, *n);
            proof {
                assert(s@ =~= signed_decimal(*n as int));
            }
            Some(s)
        },
        _ => None,
    }
}

/// The text that a variable path shows against `data`.
fn variable_string(path: &str, data: &JsonValue) -> (r: Option<String>)
    ensures
        match variable_text(path@, *data) {
            None => r is None,
            Some(t) => r matches Some(s) && s@ == t,
        },
{
    let comps = split_at_char(path, '.');
    let ghost pv = comps@.map_values(|x: String| x@);
    let mut cur: Option<&JsonValue> = Some(data);
    let mut i: usize = 0;
    assert(pv.subrange(0, pv.len() as int) =~= pv);
    while i < comps.len()
        invariant
            0 <= i <= comps@.len(),
            pv == comps@.map_values(|x: String| x@),
            pv == split(path@, '.'),
            resolve(*data, pv) == resolve(val(cur), pv.subrange(i as int, pv.len() as int)),
        decreases comps.len() - i,
    {
        proof {
            let rest = pv.subrange(i as int, pv.len() as int);
            assert(rest[0] == comps@[i as int]@);
            assert(rest.drop_first() =~= pv.subrange(i + 1, pv.len() as int));
        }
        match step(cur, &comps[i]) {
            Err(()) => {
                return None;
            },
            Ok(next) => {
                cur = next;
            },
        }
        i = i + 1;
    }
    leaf_string(cur)
}

/// The colour code for an air quality index from 1 to 5.
fn color_for_aqi(n: u128) -> (r: Option<String>)
    ensures
        match aqi_color(n as nat) {
            None => r is None,
            Some(t) => r matches Some(s) && s@ == t,
        },
{
    proof {
        reveal_strlit("\u{1b}[32m");
        reveal_strlit("\u{1b}[92m");
        reveal_strlit("\u{1b}[33m");
        reveal_strlit("\u{1b}[91m");
        reveal_strlit("\u{1b}[31m");
    }
    if n == 1 {
        Some(String::from_str("\u{1b}[32m"))
    } else if n == 2 {
        Some(String::from_str("\u{1b}[92m"))
    } else if n == 3 {
        Some(String::from_str("\u{1b}[33m"))
    } else if n == 4 {
        Some(String::from_str("\u{1b}[91m"))
    } else if n == 5 {
        Some(String::from_str("\u{1b}[31m"))
    } else {
        None
    }
}

fn argument_string(arg: &str, data: &JsonValue) -> (r: Option<String>)
    ensures
        match argument_text(arg@, *data) {
            None => r is None,
            Some(t) => r matches Some(s) && s@ == t,
        },
{
    let n: usize = arg.unicode_len();
    if n > 0 {
        let first = arg.get_char(0);
        let rest = arg.substring_char(1, n);
        proof {
            assert(rest@ =~= arg@.drop_first());
            lemma_split_len(rest@, '|');
        }
        if first == '#' {
            return None;
        } else if first == '@' {
            let parts = split_at_char(rest, '|');
            proof {
                assert(parts@.map_values(|x: String| x@)[0] == parts@[0]@);
            }
            return variable_string(parts[0].as_str(), data);
        } else if first == '\\' {
            return Some(String::from_str(rest));
        }
    }
    Some(String::from_str(arg))
}

fn function_string(i: &ItemJson, data: &JsonValue) -> (r: Option<String>)
    ensures
        match function_text(*i, *data) {
            None => r is None,
            Some(t) => r matches Some(s) && s@ == t,
        },
{
    let name = String::from_str("color_aqi");
    proof {
        reveal_strlit("color_aqi");
    }
    if i.value == name && i.args.len() > 0 {
        match argument_string(i.args[0].as_str(), data) {
            None => None,
            Some(t) => {
                let n: u128 = match read_digits(t.as_str()) {
                    None => 0,
                    Some((true, _)) => 0,
                    Some((false, v)) => v,
                };
                match read_digits(t.as_str()) {
                    Some((true, _)) => None,
                    _ => color_for_aqi(n),
                }
            },
        }
    } else {
        None
    }
}

fn layout_error(message: &str) -> (r: WeatherError)
    ensures
        r is Layout,
{
    WeatherError::Layout { message: String::from_str(message), row: None, item: None }
}

fn append_opt(s: &mut String, o: &Option<String>)
    ensures
        final(s)@ == old(s)@ + or_empty(*o),
{
    match o {
        Some(t) => s.append(t.as_str()),
        None => {
            assert(old(s)@ + Seq::<char>::empty() =~= old(s)@);
        },
    }
}

impl Item {
    /// The value that the item shows, before colours and units; a variable
    /// that does not resolve or an unknown function is a layout error.
    pub fn get_value(&self, data: &JsonValue) -> (r: Result<String, WeatherError>)
        ensures
            match value_text(self.data, *data) {
                None => r matches Err(e) && e is Layout,
                Some(t) => r matches Ok(s) && s@ == t,
            },
    {
        match self.data.item_type {
            ItemKind::Variable => match variable_string(self.data.value.as_str(), data) {
                Some(s) => Ok(s),
                None => Err(layout_error("variable not found in data")),
            },
            ItemKind::Function => match function_string(&self.data, data) {
                Some(s) => Ok(s),
                None => Err(layout_error("function not found")),
            },
            _ => Ok(self.data.value.clone()),
        }
    }

    /// Renders the item with the given colours and unit system.
    pub fn to_string(&self, data: &JsonValue, colors: &Colors, metric: bool) -> (r: Result<Piece, WeatherError>)
        ensures
            match rendered(self.data, *data, *colors, metric) {
                None => r matches Err(e) && e is Layout,
                Some(Ok(t)) => r matches Ok(Piece::Text(s)) && s@ == t,
                Some(Err(u)) => r matches Ok(Piece::Image { url, scale }) && url@ == u && scale == self.data.scale,
            },
    {
        let d = &self.data;
        match d.item_type {
            ItemKind::Text => {
                let mut s = colors.text.clone();
                s.append(colors.text_bg.as_str());
                append_opt(&mut s, &d.color);
                append_opt(&mut s, &d.bg_color);
                s.append(d.value.as_str());
                Ok(Piece::Text(s))
            },
            ItemKind::Variable => match variable_string(d.value.as_str(), data) {
                None => Err(layout_error("variable not found in data")),
                Some(v) => {
                    let mut s = colors.variable.clone();
                    s.append(colors.variable_bg.as_str());
                    append_opt(&mut s, &d.color);
                    append_opt(&mut s, &d.bg_color);
                    s.append(v.as_str());
                    s.append(colors.unit.as_str());
                    s.append(colors.unit_bg.as_str());
                    append_opt(&mut s, &d.unit_color);
                    if metric {
                        append_opt(&mut s, &d.metric);
                    } else {
                        append_opt(&mut s, &d.imperial);
                    }
                    Ok(Piece::Text(s))
                },
            },
            ItemKind::Function => match function_string(d, data) {
                None => Err(layout_error("function not found")),
                Some(v) => {
                    let mut s = String::new();
                    append_opt(&mut s, &d.color);
                    append_opt(&mut s, &d.bg_color);
                    s.append(v.as_str());
                    proof {
                        assert(s@ =~= or_empty(d.color) + or_empty(d.bg_color) + v@);
                    }
                    Ok(Piece::Text(s))
                },
            },
            ItemKind::Image => match argument_string(d.value.as_str(), data) {
                None => Err(layout_error("image source not found")),
                Some(src) => {
                    if is_url(src.as_str()) {
                        Ok(Piece::Image { url: src, scale: d.scale })
                    } else {
                        Err(layout_error("source is not a url"))
                    }
                },
            },
            ItemKind::Other => {
                let s = String::new();
                Ok(Piece::Text(s))
            },
        }
    }
}

} // verus!
