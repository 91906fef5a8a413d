use vstd::prelude::*;

use crate::cache::{unique_keys, Cache, CacheRow, RowView};
use crate::error::WeatherError;
use crate::json::{find_member, member_opt, JsonValue};
use crate::layout_item::{all_digits, digits_value, read_digits};
use crate::text::{decimal, digit_char, push_decimal};

verus! {

/// The date a stored date text stands for: decimal milliseconds, or `None`
/// when the text is not such a number.
pub open spec fn date_of(s: Seq<char>) -> Option<u64> {
    if s.len() > 0 && all_digits(s) && digits_value(s) <= u64::MAX {
        Some(digits_value(s) as u64)
    } else {
        None
    }
}

/// The date text stored for a date: its decimal form, or empty when unknown.
pub open spec fn date_text(d: Option<u64>) -> Seq<char> {
    match d {
        Some(n) => decimal(n as nat),
        None => Seq::empty(),
    }
}

/// The hit count stored for a row, saturating at the largest `i64`.
pub open spec fn stored_hits(h: u64) -> i64 {
    if h <= i64::MAX {
        h as i64
    } else {
        i64::MAX
    }
}

/// `j` is the stored form of row `r`.
pub open spec fn row_json(r: RowView, j: JsonValue) -> bool {
    &&& j is Object
    &&& {
        let m = j->Object_0@;
        &&& m.len() == 4
        &&& m[0].0@ == "key"@ && m[0].1 is Str && m[0].1->Str_0@ == r.key
        &&& m[1].0@ == "value"@ && m[1].1 is Str && m[1].1->Str_0@ == r.value
        &&& m[2].0@ == "date"@ && m[2].1 is Str && m[2].1->Str_0@ == date_text(r.date)
        &&& m[3].0@ == "hits"@ && m[3].1 == JsonValue::Int(stored_hits(r.hits))
    }
}

/// A stored row reads: an object with string `key`, `value` and `date`
/// members and a non-negative integer `hits` member.
pub open spec fn row_readable(j: JsonValue) -> bool {
    &&& j is Object
    &&& {
        let m = j->Object_0@;
        &&& member_opt(m, "key"@) matches Some(x) && x is Str
        &&& member_opt(m, "value"@) matches Some(x) && x is Str
        &&& member_opt(m, "date"@) matches Some(x) && x is Str
        &&& member_opt(m, "hits"@) matches Some(x) && x is Int && x->Int_0 >= 0
    }
}

/// The row that a readable stored row gives.
pub open spec fn row_read(j: JsonValue) -> RowView {
    let m = j->Object_0@;
    RowView {
        key: member_opt(m, "key"@)->0->Str_0@,
        value: member_opt(m, "value"@)->0->Str_0@,
        date: date_of(member_opt(m, "date"@)->0->Str_0@),
        hits: member_opt(m, "hits"@)->0->Int_0 as u64,
    }
}

fn date_string(d: Option<u64>) -> (r: String)
    ensures
        r@ == date_text(d),
{
    let mut s = String::new();
    match d {
        Some(n) => {
            push_decimal(&mut s, n as u128);
            assert(s@ =~= decimal(n as nat));
        },
        None => {},
    }
    s
}

fn parse_date(s: &String) -> (r: Option<u64>)
    ensures
        r == date_of(s@),
{
    match read_digits(s.as_str()) {
        Some((false, v)) => {
            if v <= u64::MAX as u128 {
                Some(v as u64)
            } else {
                None
            }
        },
        _ => {
            proof {
                assert(u64::MAX < crate::layout_item::INDEX_CAP);
            }
            None
        },
    }
}

fn row_to_json(r: &CacheRow) -> (j: JsonValue)
    ensures
        row_json(r@, j),
{
    let hits: i64 = if r.hits <= i64::MAX as u64 {
        r.hits as i64
    } else {
        i64::MAX
    };
    let mut m: Vec<(String, JsonValue)> = Vec::new();
    m.push((String::from_str("key"), JsonValue::Str(r.key.clone())));
    m.push((String::from_str("value"), JsonValue::Str(r.value.clone())));
    m.push((String::from_str("date"), JsonValue::Str(date_string(r.date))));
    m.push((String::from_str("hits"), JsonValue::Int(hits)));
    JsonValue::Object(m)
}

fn row_from_json(j: &JsonValue) -> (r: Option<CacheRow>)
    ensures
        r is Some <==> row_readable(*j),
        r matches Some(row) ==> row@ == row_read(*j),
{
    let m = match j {
        JsonValue::Object(m) => m,
        _ => {
            return None;
        },
    };
    let key = match find_member(m, &String::from_str("key")) {
        Some(JsonValue::Str(s)) => s.clone(),
        _ => {
            return None;
        },
    };
    let value = match find_member(m, &String::from_str("value")) {
        Some(JsonValue::Str(s)) => s.clone(),
        _ => {
            return None;
        },
    };
    let date = match find_member(m, &String::from_str("date")) {
        Some(JsonValue::Str(s)) => parse_date(s),
        _ => {
            return None;
        },
    };
    let hits: u64 = match find_member(m, &String::from_str("hits")) {
        Some(JsonValue::Int(h)) => {
            if *h < 0 {
                return None;
            }
            *h as u64
        },
        _ => {
            return None;
        },
    };
    Some(CacheRow { key, value, date, hits })
}

impl Cache {
    /// The stored form of the cache: a list of rows in order.
    pub fn to_json(&self) -> (r: JsonValue)
        requires
            self.wf(),
        ensures
            r matches JsonValue::Array(v) && v@.len() == self@.len() && forall|i: int|
                0 <= i < v@.len() ==> row_json(self@[i], #[trigger] v@[i]),
    {
        let rows = self.rows();
        let mut out: Vec<JsonValue> = Vec::new();
        let mut i: usize = 0;
        while i < rows.len()
            invariant
                rows@.map_values(|x: CacheRow| x@) == self@,
                0 <= i <= rows@.len(),
                out@.len() == i,
                forall|k: int| 0 <= k < i ==> row_json(self@[k], #[trigger] out@[k]),
            decreases rows.len() - i,
        {
            assert(self@[i as int] == rows@[i as int]@);
            out.push(row_to_json(&rows[i]));
            i = i + 1;
        }
        JsonValue::Array(out)
    }

    /// Reads the stored form back: a list of readable rows with distinct keys;
    /// anything else is a serialization error.
    pub fn from_json(j: &JsonValue) -> (r: Result<Cache, WeatherError>)
        ensures
            r is Ok <==> (j matches JsonValue::Array(v) && (forall|i: int|
                0 <= i < v@.len() ==> row_readable(#[trigger] v@[i])) && unique_keys(
                v@.map_values(|x: JsonValue| row_read(x)),
            )),
            r matches Ok(c) ==> c.wf() && c@ == j->Array_0@.map_values(|x: JsonValue| row_read(x)),
            r matches Err(e) ==> e is Serialization,
    {
        let v = match j {
            JsonValue::Array(v) => v,
            _ => {
                return Err(WeatherError::Serialization(String::from_str("the cache is not a list")));
            },
        };
        let mut rows: Vec<CacheRow> = Vec::new();
        let mut i: usize = 0;
        while i < v.len()
            invariant
                *j == JsonValue::Array(*v),
                0 <= i <= v@.len(),
                rows@.len() == i,
                forall|k: int| 0 <= k < i ==> row_readable(#[trigger] v@[k]),
                forall|k: int| 0 <= k < i ==> (#[trigger] rows@[k])@ == row_read(v@[k]),
            decreases v.len() - i,
        {
            match row_from_json(&v[i]) {
                Some(row) => {
                    rows.push(row);
                },
                None => {
                    proof {
                        assert((*j)->Array_0 == *v);
                        assert(!row_readable(v@[i as int]));
                    }
                    return Err(WeatherError::Serialization(String::from_str("a cache row does not read")));
                },
            }
            i = i + 1;
        }
        proof {
            assert((*j)->Array_0 == *v);
            assert(rows@.map_values(|x: CacheRow| x@) =~= v@.map_values(|x: JsonValue| row_read(x)));
        }
        Cache::from_rows(rows)
    }
}

/// Storing a cache and reading it back gives the same rows, except that a hit
/// count above the largest `i64` comes back as that largest value.
pub proof fn lemma_cache_round_trip(rows: Seq<RowView>, v: Seq<JsonValue>)
    requires
        unique_keys(rows),
        v.len() == rows.len(),
        forall|i: int| 0 <= i < v.len() ==> row_json(rows[i], #[trigger] v[i]),
        forall|i: int| 0 <= i < rows.len() ==> (#[trigger] rows[i]).hits <= i64::MAX,
    ensures
        forall|i: int| 0 <= i < v.len() ==> row_readable(#[trigger] v[i]),
        v.map_values(|x: JsonValue| row_read(x)) == rows,
{
    reveal_strlit("key");
    reveal_strlit("value");
    reveal_strlit("date");
    reveal_strlit("hits");
    assert("key"@.len() == 3 && "value"@.len() == 5 && "date"@.len() == 4 && "hits"@.len() == 4);
    assert("date"@[0] == 'd' && "hits"@[0] == 'h');
    assert forall|i: int| 0 <= i < v.len() implies row_readable(#[trigger] v[i]) && row_read(v[i]) == rows[i] by {
        let m = v[i]->Object_0@;
        crate::json::lemma_member_opt_at(m, "key"@, 0);
        crate::json::lemma_member_opt_at(m, "value"@, 1);
        crate::json::lemma_member_opt_at(m, "date"@, 2);
        crate::json::lemma_member_opt_at(m, "hits"@, 3);
        lemma_date_round_trip(rows[i].date);
    }
    assert(v.map_values(|x: JsonValue| row_read(x)) =~= rows);
}

proof fn lemma_digit_char(k: nat)
    requires
        k < 10,
    ensures
        '0' <= digit_char(k) <= '9',
        digit_char(k) as int - '0' as int == k,
{
}

proof fn lemma_digits_of_decimal(n: nat)
    ensures
        decimal(n).len() > 0,
        all_digits(decimal(n)),
        digits_value(decimal(n)) == n,
    decreases n,
{
    let d = decimal(n);
    lemma_digit_char(n % 10);
    if n >= 10 {
        lemma_digits_of_decimal(n / 10);
        assert(d.drop_last() =~= decimal(n / 10));
        assert(d.last() == digit_char(n % 10));
        assert(digits_value(d) == digits_value(decimal(n / 10)) * 10 + (n % 10));
        vstd::arithmetic::div_mod::lemma_fundamental_div_mod(n as int, 10);
        assert forall|i: int| 0 <= i < d.len() implies '0' <= #[trigger] d[i] <= '9' by {
            if i < d.len() - 1 {
                assert(d[i] == decimal(n / 10)[i]);
            }
        }
    } else {
        assert(d.drop_last() =~= Seq::<char>::empty());
        assert(n % 10 == n);
        assert(digits_value(Seq::<char>::empty()) == 0);
        assert(digits_value(d) == digits_value(d.drop_last()) * 10 + ((d.last() as int - '0' as int) as nat));
    }
}

proof fn lemma_date_round_trip(d: Option<u64>)
    ensures
        date_of(date_text(d)) == d,
{
    if let Some(n) = d {
        lemma_digits_of_decimal(n as nat);
    }
}

} // verus!
