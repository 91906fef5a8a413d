use vstd::prelude::*;

verus! {

/// A JSON document as the layout engine reads it. Numbers that are not
/// integers are kept rounded to tenths, which is all a layout shows of them.
#[derive(Debug)]
pub enum JsonValue {
    Null,
    Bool(bool),
    Int(i64),
    Tenths(i64),
    Str(String),
    Array(Vec<JsonValue>),
    Object(Vec<(String, JsonValue)>),
}

/// The value of the first member named `k`, or `Null`.
pub open spec fn member(m: Seq<(String, JsonValue)>, k: Seq<char>) -> JsonValue
    decreases m.len(),
{
    if m.len() == 0 {
        JsonValue::Null
    } else if m[0].0@ == k {
        m[0].1
    } else {
        member(m.drop_first(), k)
    }
}

/// The value of the first member of `m` named `k`, if any.
pub fn get_member<'a>(m: &'a Vec<(String, JsonValue)>, k: &String) -> (r: Option<&'a JsonValue>)
    ensures
        match r {
            Some(v) => *v == member(m@, k@),
            None => member(m@, k@) == JsonValue::Null,
        },
{
    let mut i: usize = 0;
    assert(m@.subrange(0, m@.len() as int) =~= m@);
    while i < m.len()
        invariant
            0 <= i <= m@.len(),
            member(m@, k@) == member(m@.subrange(i as int, m@.len() as int), k@),
        decreases m.len() - i,
    {
        proof {
            let t = m@.subrange(i as int, m@.len() as int);
            assert(t.drop_first() =~= m@.subrange(i + 1, m@.len() as int));
        }
        if m[i].0 == *k {
            return Some(&m[i].1);
        }
        i = i + 1;
    }
    None
}

/// The value of the first member named `k`, if there is one.
pub open spec fn member_opt(m: Seq<(String, JsonValue)>, k: Seq<char>) -> Option<JsonValue>
    decreases m.len(),
{
    if m.len() == 0 {
        None
    } else if m[0].0@ == k {
        Some(m[0].1)
    } else {
        member_opt(m.drop_first(), k)
    }
}

/// The member at `i` is the first named `k`, so lookups of `k` find it.
pub proof fn lemma_member_opt_at(m: Seq<(String, JsonValue)>, k: Seq<char>, i: int)
    requires
        0 <= i < m.len(),
        m[i].0@ == k,
        forall|j: int| 0 <= j < i ==> (#[trigger] m[j]).0@ != k,
    ensures
        member_opt(m, k) == Some(m[i].1),
    decreases i,
{
    if i > 0 {
        let t = m.drop_first();
        assert forall|j: int| 0 <= j < i - 1 implies (#[trigger] t[j]).0@ != k by {
            assert(t[j] == m[j + 1]);
        }
        lemma_member_opt_at(t, k, i - 1);
    }
}

/// The first member of `m` named `k`, if any.
pub fn find_member<'a>(m: &'a Vec<(String, JsonValue)>, k: &String) -> (r: Option<&'a JsonValue>)
    ensures
        match member_opt(m@, k@) {
            Some(v) => r matches Some(x) && *x == v,
            None => r is None,
        },
{
    let mut i: usize = 0;
    assert(m@.subrange(0, m@.len() as int) =~= m@);
    while i < m.len()
        invariant
            0 <= i <= m@.len(),
            member_opt(m@, k@) == member_opt(m@.subrange(i as int, m@.len() as int), k@),
        decreases m.len() - i,
    {
        proof {
            let t = m@.subrange(i as int, m@.len() as int);
            assert(t.drop_first() =~= m@.subrange(i + 1, m@.len() as int));
        }
        if m[i].0 == *k {
            return Some(&m[i].1);
        }
        i = i + 1;
    }
    None
}

} // verus!
