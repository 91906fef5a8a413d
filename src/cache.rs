use vstd::prelude::*;

use crate::error::WeatherError;
use crate::text::wide_mul;

verus! {

/// Rows beyond this count are removed by `prune`.
pub const MAX_ROWS: usize = 100;

/// One entry of the request cache.
#[derive(Debug)]
pub struct CacheRow {
    pub key: String,
    pub value: String,
    /// Milliseconds since the epoch of the last write; `None` when the stored
    /// date could not be read back.
    pub date: Option<u64>,
    pub hits: u64,
}

/// What a row holds, as mathematical values.
pub struct RowView {
    pub key: Seq<char>,
    pub value: Seq<char>,
    pub date: Option<u64>,
    pub hits: u64,
}

impl View for CacheRow {
    type V = RowView;

    open spec fn view(&self) -> RowView {
        RowView { key: self.key@, value: self.value@, date: self.date, hits: self.hits }
    }
}

/// The request cache: a sequence of rows with at most one row per key.
#[derive(Debug)]
pub struct Cache {
    rows: Vec<CacheRow>,
}

/// No two rows share a key.
pub open spec fn unique_keys(rows: Seq<RowView>) -> bool {
    forall|i: int, j: int|
        0 <= i < rows.len() && 0 <= j < rows.len() && #[trigger] rows[i].key == #[trigger] rows[j].key
            ==> i == j
}

/// Some row holds key `k`.
pub open spec fn has_key(rows: Seq<RowView>, k: Seq<char>) -> bool {
    exists|i: int| 0 <= i < rows.len() && #[trigger] rows[i].key == k
}

/// The index of the row that holds `k`, when there is one.
pub open spec fn key_index(rows: Seq<RowView>, k: Seq<char>) -> int {
    choose|i: int| 0 <= i < rows.len() && #[trigger] rows[i].key == k
}

/// The value stored under `k`.
pub open spec fn lookup(rows: Seq<RowView>, k: Seq<char>) -> Option<Seq<char>> {
    if has_key(rows, k) {
        Some(rows[key_index(rows, k)].value)
    } else {
        None
    }
}

/// The rows after `write(k, v)` at time `now`: the row of `k` is replaced in
/// place by a fresh one, or a fresh row is appended.
pub open spec fn written(rows: Seq<RowView>, k: Seq<char>, v: Seq<char>, now: u64) -> Seq<RowView> {
    let fresh = RowView { key: k, value: v, date: Some(now), hits: 0 };
    if has_key(rows, k) {
        rows.update(key_index(rows, k), fresh)
    } else {
        rows.push(fresh)
    }
}

/// The rows after `update_hits(k)` at time `now`: the row of `k` gets date
/// `now` and one more hit (saturating at the largest `u64`).
pub open spec fn hit(rows: Seq<RowView>, k: Seq<char>, now: u64) -> Seq<RowView> {
    let i = key_index(rows, k);
    let r = rows[i];
    let hits = if r.hits == u64::MAX {
        u64::MAX
    } else {
        (r.hits + 1) as u64
    };
    rows.update(i, RowView { key: r.key, value: r.value, date: Some(now), hits })
}

/// How long ago a row was written, in milliseconds.
pub open spec fn age(d: u64, now: u64) -> int {
    if now >= d {
        now - d
    } else {
        d - now
    }
}

/// `a` is worth strictly less than `b`. A row's power is `hits / age`; a row
/// with an unreadable date ranks below every other, and a row written at
/// `now` (age 0) ranks above every row of positive age.
pub open spec fn power_less(a: RowView, b: RowView, now: u64) -> bool {
    match (a.date, b.date) {
        (None, None) => false,
        (None, Some(_)) => true,
        (Some(_), None) => false,
        (Some(da), Some(db)) => {
            let ga = age(da, now);
            let gb = age(db, now);
            if ga == 0 {
                false
            } else if gb == 0 {
                true
            } else {
                a.hits * gb < b.hits * ga
            }
        },
    }
}

/// Index of the first row of least power among the first `n` rows.
pub open spec fn min_index(rows: Seq<RowView>, now: u64, n: int) -> int
    decreases n,
{
    if n <= 1 {
        0
    } else {
        let m = min_index(rows, now, n - 1);
        if power_less(rows[n - 1], rows[m], now) {
            n - 1
        } else {
            m
        }
    }
}

/// The rows left once rows of least power are removed, one at a time, until
/// at most `MAX_ROWS` remain.
pub open spec fn pruned(rows: Seq<RowView>, now: u64) -> Seq<RowView>
    decreases rows.len(),
{
    if rows.len() <= MAX_ROWS {
        rows
    } else {
        let m = min_index(rows, now, rows.len() as int);
        if 0 <= m < rows.len() {
            pruned(rows.remove(m), now)
        } else {
            rows
        }
    }
}

proof fn lemma_min_index_bounds(rows: Seq<RowView>, now: u64, n: int)
    requires
        1 <= n,
    ensures
        0 <= min_index(rows, now, n) < n,
    decreases n,
{
    if n > 1 {
        lemma_min_index_bounds(rows, now, n - 1);
    }
}

impl View for Cache {
    type V = Seq<RowView>;

    closed spec fn view(&self) -> Seq<RowView> {
        self.rows@.map_values(|r: CacheRow| r@)
    }
}

impl Cache {
    /// The cache holds at most one row per key.
    pub open spec fn wf(&self) -> bool {
        unique_keys(self@)
    }

    /// An empty cache.
    pub fn new() -> (r: Cache)
        ensures
            r.wf(),
            r@ == Seq::<RowView>::empty(),
    {
        let r = Cache { rows: Vec::new() };
        assert(r@ =~= Seq::<RowView>::empty());
        r
    }

    /// Builds a cache from stored rows; fails when two rows share a key.
    pub fn from_rows(rows: Vec<CacheRow>) -> (r: Result<Cache, WeatherError>)
        ensures
            r is Ok <==> unique_keys(rows@.map_values(|x: CacheRow| x@)),
            r matches Ok(c) ==> c@ == rows@.map_values(|x: CacheRow| x@) && c.wf(),
            r matches Err(e) ==> e is Serialization,
    {
        let ghost v = rows@.map_values(|x: CacheRow| x@);
        let mut i: usize = 0;
        while i < rows.len()
            invariant
                0 <= i <= rows.len(),
                v == rows@.map_values(|x: CacheRow| x@),
                forall|a: int, b: int|
                    0 <= a < i && 0 <= b < rows.len() && #[trigger] v[a].key == #[trigger] v[b].key ==> a == b,
            decreases rows.len() - i,
        {
            let mut j: usize = 0;
            while j < rows.len()
                invariant
                    0 <= i < rows.len(),
                    0 <= j <= rows.len(),
                    v == rows@.map_values(|x: CacheRow| x@),
                    forall|a: int, b: int|
                        0 <= a < i && 0 <= b < rows.len() && #[trigger] v[a].key == #[trigger] v[b].key ==> a
                            == b,
                    forall|b: int| 0 <= b < j && v[i as int].key == #[trigger] v[b].key ==> b == i,
                decreases rows.len() - j,
            {
                if j != i && rows[i].key == rows[j].key {
                    assert(!unique_keys(v)) by {
                        assert(v[i as int].key == v[j as int].key);
                    }
                    return Err(WeatherError::Serialization(String::from_str("duplicate cache key")));
                }
                j = j + 1;
            }
            i = i + 1;
        }
        Ok(Cache { rows })
    }

    /// The rows, for storing.
    pub fn rows(&self) -> (r: &Vec<CacheRow>)
        ensures
            r@.map_values(|x: CacheRow| x@) == self@,
    {
        &self.rows
    }

    /// The number of rows.
    pub fn len(&self) -> (r: usize)
        ensures
            r == self@.len(),
    {
        self.rows.len()
    }
}

proof fn lemma_key_index(rows: Seq<RowView>, i: int)
    requires
        unique_keys(rows),
        0 <= i < rows.len(),
    ensures
        has_key(rows, rows[i].key),
        key_index(rows, rows[i].key) == i,
{
    let k = rows[i].key;
    assert(has_key(rows, k));
    let j = key_index(rows, k);
    assert(rows[j].key == rows[i].key);
}

/// Position of the row holding `key`, if any.
fn position(cache: &Cache, key: &String) -> (r: Option<usize>)
    requires
        cache.wf(),
    ensures
        r is None <==> !has_key(cache@, key@),
        r matches Some(i) ==> i < cache@.len() && i == key_index(cache@, key@),
{
    let ghost v = cache@;
    let mut i: usize = 0;
    while i < cache.rows.len()
        invariant
            0 <= i <= cache.rows.len(),
            v == cache@,
            unique_keys(v),
            v.len() == cache.rows@.len(),
            forall|j: int| 0 <= j < i ==> #[trigger] v[j].key != key@,
        decreases cache.rows.len() - i,
    {
        if cache.rows[i].key == *key {
            assert(v[i as int] == cache.rows@[i as int]@);
            proof {
                lemma_key_index(v, i as int);
            }
            return Some(i);
        }
        assert(v[i as int] == cache.rows@[i as int]@);
        i = i + 1;
    }
    None
}

/// Reads the value stored under `key`; a cache miss is `NotFound`.
pub fn read(cache: &Cache, key: &str) -> (r: Result<String, WeatherError>)
    requires
        cache.wf(),
    ensures
        r is Ok <==> lookup(cache@, key@) is Some,
        r matches Ok(v) ==> lookup(cache@, key@) == Some(v@),
        r matches Err(e) ==> e is NotFound,
{
    let k = String::from_str(key);
    match position(cache, &k) {
        Some(i) => {
            assert(cache@[i as int] == cache.rows@[i as int]@);
            Ok(cache.rows[i].value.clone())
        },
        None => Err(WeatherError::NotFound(String::from_str("key not found"))),
    }
}

proof fn lemma_unique_update(rows: Seq<RowView>, i: int, r: RowView)
    requires
        unique_keys(rows),
        0 <= i < rows.len(),
        r.key == rows[i].key,
    ensures
        unique_keys(rows.update(i, r)),
{
    let u = rows.update(i, r);
    assert forall|a: int, b: int| 0 <= a < u.len() && 0 <= b < u.len() && #[trigger] u[a].key == #[trigger] u[b].key implies a == b by {
        assert(u[a].key == rows[a].key);
        assert(u[b].key == rows[b].key);
    }
}

proof fn lemma_unique_push(rows: Seq<RowView>, r: RowView)
    requires
        unique_keys(rows),
        !has_key(rows, r.key),
    ensures
        unique_keys(rows.push(r)),
{
    let u = rows.push(r);
    assert forall|a: int, b: int| 0 <= a < u.len() && 0 <= b < u.len() && #[trigger] u[a].key == #[trigger] u[b].key implies a == b by {
        if a < rows.len() && b == rows.len() {
            assert(rows[a].key == r.key);
        } else if b < rows.len() && a == rows.len() {
            assert(rows[b].key == r.key);
        }
    }
}

proof fn lemma_unique_remove(rows: Seq<RowView>, m: int)
    requires
        unique_keys(rows),
        0 <= m < rows.len(),
    ensures
        unique_keys(rows.remove(m)),
{
    let u = rows.remove(m);
    assert forall|a: int, b: int| 0 <= a < u.len() && 0 <= b < u.len() && #[trigger] u[a].key == #[trigger] u[b].key implies a == b by {
        let a2 = if a < m { a } else { a + 1 };
        let b2 = if b < m { b } else { b + 1 };
        assert(u[a] == rows[a2]);
        assert(u[b] == rows[b2]);
    }
}

/// Stores `value` under `key` at time `now`: an existing row for the key is
/// replaced in place with zero hits, otherwise a row is appended.
pub fn write(cache: &mut Cache, key: &str, value: &str, now: u64)
    requires
        old(cache).wf(),
    ensures
        final(cache).wf(),
        final(cache)@ == written(old(cache)@, key@, value@, now),
{
    let k = String::from_str(key);
    let row = CacheRow { key: String::from_str(key), value: String::from_str(value), date: Some(now), hits: 0 };
    let ghost fresh = row@;
    let ghost v = cache@;
    match position(cache, &k) {
        Some(i) => {
            cache.rows.set(i, row);
            proof {
                assert(cache@ =~= v.update(i as int, fresh));
                lemma_unique_update(v, i as int, fresh);
            }
        },
        None => {
            cache.rows.push(row);
            proof {
                assert(cache@ =~= v.push(fresh));
                lemma_unique_push(v, fresh);
            }
        },
    }
}

/// Records a hit on `key` at time `now`: the row's date becomes `now` and its
/// hit count grows by one (saturating). A missing key is `NotFound`.
pub fn update_hits(cache: &mut Cache, key: &str, now: u64) -> (r: Result<(), WeatherError>)
    requires
        old(cache).wf(),
    ensures
        final(cache).wf(),
        r is Ok <==> has_key(old(cache)@, key@),
        r is Ok ==> final(cache)@ == hit(old(cache)@, key@, now),
        r matches Err(e) ==> e is NotFound && final(cache)@ == old(cache)@,
{
    let k = String::from_str(key);
    let ghost v = cache@;
    match position(cache, &k) {
        Some(i) => {
            let old_row = &cache.rows[i];
            assert(v[i as int] == old_row@);
            let hits: u64 = if old_row.hits == u64::MAX {
                u64::MAX
            } else {
                old_row.hits + 1
            };
            let row = CacheRow { key: old_row.key.clone(), value: old_row.value.clone(), date: Some(now), hits };
            let ghost nr = row@;
            cache.rows.set(i, row);
            proof {
                assert(cache@ =~= v.update(i as int, nr));
                lemma_unique_update(v, i as int, nr);
            }
            Ok(())
        },
        None => Err(WeatherError::NotFound(String::from_str("key not found"))),
    }
}

fn abs_diff(d: u64, now: u64) -> (r: u64)
    ensures
        r == age(d, now),
{
    if now >= d {
        now - d
    } else {
        d - now
    }
}

/// Whether row `a` has strictly less power than row `b` at time `now`.
fn less_power(a: &CacheRow, b: &CacheRow, now: u64) -> (r: bool)
    ensures
        r == power_less(a@, b@, now),
{
    match (a.date, b.date) {
        (None, None) => false,
        (None, Some(_)) => true,
        (Some(_), None) => false,
        (Some(da), Some(db)) => {
            let ga: u64 = abs_diff(da, now);
            let gb: u64 = abs_diff(db, now);
            if ga == 0 {
                false
            } else if gb == 0 {
                true
            } else {
                wide_mul(a.hits, gb) < wide_mul(b.hits, ga)
            }
        },
    }
}

/// The index of the first row of least power.
fn least_power_index(cache: &Cache, now: u64) -> (r: usize)
    requires
        cache@.len() >= 1,
    ensures
        r == min_index(cache@, now, cache@.len() as int),
        r < cache@.len(),
{
    let ghost v = cache@;
    let mut m: usize = 0;
    let mut i: usize = 1;
    while i < cache.rows.len()
        invariant
            1 <= i <= cache.rows.len(),
            v == cache@,
            v.len() == cache.rows@.len(),
            m == min_index(v, now, i as int),
            m < i,
        decreases cache.rows.len() - i,
    {
        assert(v[i as int] == cache.rows@[i as int]@);
        assert(v[m as int] == cache.rows@[m as int]@);
        if less_power(&cache.rows[i], &cache.rows[m], now) {
            m = i;
        }
        i = i + 1;
    }
    m
}

/// Removes rows of least power, the first of equals first, until at most
/// `MAX_ROWS` remain.
pub fn prune(cache: &mut Cache, now: u64)
    requires
        old(cache).wf(),
    ensures
        final(cache).wf(),
        final(cache)@ == pruned(old(cache)@, now),
        final(cache)@.len() <= MAX_ROWS,
{
    while cache.rows.len() > MAX_ROWS
        invariant
            cache.wf(),
            pruned(cache@, now) == pruned(old(cache)@, now),
        decreases cache.rows.len(),
    {
        let m: usize = least_power_index(cache, now);
        let ghost v = cache@;
        cache.rows.remove(m);
        proof {
            assert(cache@ =~= v.remove(m as int));
            lemma_unique_remove(v, m as int);
        }
    }
}

proof fn lemma_written_unique(rows: Seq<RowView>, k: Seq<char>, v: Seq<char>, now: u64)
    requires
        unique_keys(rows),
    ensures
        unique_keys(written(rows, k, v, now)),
        has_key(written(rows, k, v, now), k),
        lookup(written(rows, k, v, now), k) == Some(v),
{
    let fresh = RowView { key: k, value: v, date: Some(now), hits: 0 };
    if has_key(rows, k) {
        let i = key_index(rows, k);
        lemma_unique_update(rows, i, fresh);
        lemma_key_index(rows.update(i, fresh), i);
    } else {
        lemma_unique_push(rows, fresh);
        lemma_key_index(rows.push(fresh), rows.len() as int);
    }
}

/// After `write(k, v)`, reading `k` gives `v`.
pub proof fn lemma_read_after_write(rows: Seq<RowView>, k: Seq<char>, v: Seq<char>, now: u64)
    requires
        unique_keys(rows),
    ensures
        lookup(written(rows, k, v, now), k) == Some(v),
{
    lemma_written_unique(rows, k, v, now);
}

/// Writing `k` a second time makes reads of `k` give the second value and
/// leaves the number of rows as the first write left it.
pub proof fn lemma_overwrite(
    rows: Seq<RowView>,
    k: Seq<char>,
    v1: Seq<char>,
    v2: Seq<char>,
    now1: u64,
    now2: u64,
)
    requires
        unique_keys(rows),
    ensures
        lookup(written(written(rows, k, v1, now1), k, v2, now2), k) == Some(v2),
        written(written(rows, k, v1, now1), k, v2, now2).len() == written(rows, k, v1, now1).len(),
{
    lemma_written_unique(rows, k, v1, now1);
    lemma_written_unique(written(rows, k, v1, now1), k, v2, now2);
}

/// Pruning leaves at most `MAX_ROWS` rows.
pub proof fn lemma_pruned_len(rows: Seq<RowView>, now: u64)
    ensures
        pruned(rows, now).len() <= MAX_ROWS,
    decreases rows.len(),
{
    if rows.len() > MAX_ROWS {
        let m = min_index(rows, now, rows.len() as int);
        lemma_min_index_bounds(rows, now, rows.len() as int);
        lemma_pruned_len(rows.remove(m), now);
    }
}

proof fn lemma_pruned_subset(rows: Seq<RowView>, now: u64, x: RowView)
    requires
        pruned(rows, now).contains(x),
    ensures
        rows.contains(x),
    decreases rows.len(),
{
    if rows.len() > MAX_ROWS {
        let m = min_index(rows, now, rows.len() as int);
        lemma_min_index_bounds(rows, now, rows.len() as int);
        let r2 = rows.remove(m);
        lemma_pruned_subset(r2, now, x);
        let i = choose|i: int| 0 <= i < r2.len() && r2[i] == x;
        if i < m {
            assert(rows[i] == x);
        } else {
            assert(rows[i + 1] == x);
        }
    }
}

proof fn lemma_power_less_trans(a: RowView, b: RowView, c: RowView, now: u64)
    requires
        power_less(a, b, now),
        power_less(b, c, now),
    ensures
        power_less(a, c, now),
{
    if a.date is Some {
        let ga = age(a.date->0, now);
        let gb = age(b.date->0, now);
        let gc = age(c.date->0, now);
        if gc != 0 {
            let (ha, hb, hc) = (a.hits as int, b.hits as int, c.hits as int);
            assert(ha * gc < hc * ga) by (nonlinear_arith)
                requires
                    ha * gb < hb * ga,
                    hb * gc < hc * gb,
                    ga > 0,
                    gb > 0,
                    gc > 0,
            ;
        }
    }
}

proof fn lemma_min_index_least(rows: Seq<RowView>, now: u64, n: int)
    requires
        1 <= n <= rows.len(),
    ensures
        forall|k: int| 0 <= k < n ==> !power_less(#[trigger] rows[k], rows[min_index(rows, now, n)], now),
    decreases n,
{
    if n > 1 {
        lemma_min_index_least(rows, now, n - 1);
        lemma_min_index_bounds(rows, now, n - 1);
        let m = min_index(rows, now, n - 1);
        if power_less(rows[n - 1], rows[m], now) {
            assert forall|k: int| 0 <= k < n implies !power_less(#[trigger] rows[k], rows[n - 1], now) by {
                if k < n - 1 && power_less(rows[k], rows[n - 1], now) {
                    lemma_power_less_trans(rows[k], rows[n - 1], rows[m], now);
                }
            }
        }
    }
}

/// Of two rows written at the same time, other than now, the one with fewer
/// hits is evicted first: whenever pruning keeps `b`, it keeps `a` too.
pub proof fn lemma_fewer_hits_evicted_first(rows: Seq<RowView>, now: u64, a: RowView, b: RowView)
    requires
        rows.contains(a),
        rows.contains(b),
        a.date == b.date,
        a.date is Some,
        a.date->0 != now,
        a.hits > b.hits,
    ensures
        pruned(rows, now).contains(b) ==> pruned(rows, now).contains(a),
    decreases rows.len(),
{
    if rows.len() > MAX_ROWS {
        let n = rows.len() as int;
        let m = min_index(rows, now, n);
        lemma_min_index_bounds(rows, now, n);
        lemma_min_index_least(rows, now, n);
        let ia = choose|i: int| 0 <= i < rows.len() && rows[i] == a;
        let ib = choose|i: int| 0 <= i < rows.len() && rows[i] == b;
        let g = age(a.date->0, now);
        assert(b.hits * g < a.hits * g) by (nonlinear_arith)
            requires
                g > 0,
                b.hits < a.hits,
        ;
        assert(power_less(rows[ib], rows[ia], now));
        assert(ia != m);
        let r2 = rows.remove(m);
        if ia < m {
            assert(r2[ia] == a);
        } else {
            assert(r2[ia - 1] == a);
        }
        if r2.contains(b) {
            lemma_fewer_hits_evicted_first(r2, now, a, b);
        } else if pruned(rows, now).contains(b) {
            lemma_pruned_subset(r2, now, b);
        }
    }
}

} // verus!
