use vstd::prelude::*;
use vstd::string::StrSliceExecFns;

use crate::error::WeatherError;
use crate::json::JsonValue;
use crate::layout_item::{or_empty, parsed_from, rendered, variable_text, Colors, Item, ItemEnum, Piece};
use crate::text::split;

verus! {

/// The left-to-right scan of a template: the finished segments, the segment
/// being read, and the previous character (`'\0'` right after a brace).
pub open spec fn scan(s: Seq<char>) -> (Seq<Seq<char>>, Seq<char>, char)
    decreases s.len(),
{
    if s.len() == 0 {
        (Seq::empty(), Seq::empty(), '\0')
    } else {
        let (segs, cur, prev) = scan(s.drop_last());
        let c = s.last();
        if (c == '{' || c == '}') && prev != '\\' {
            (segs.push(cur), Seq::empty(), '\0')
        } else {
            (segs, cur.push(c), c)
        }
    }
}

/// The segments of a template: an unescaped brace ends a segment, and a last
/// segment counts when it is not empty.
pub open spec fn segments(s: Seq<char>) -> Seq<Seq<char>> {
    let (segs, cur, _) = scan(s);
    if cur.len() > 0 {
        segs.push(cur)
    } else {
        segs
    }
}

/// `p` is what rendering gave: the text, or the image to fetch.
pub open spec fn piece_is(p: Piece, r: Result<Seq<char>, Seq<char>>, scale: Option<i64>) -> bool {
    match r {
        Ok(t) => p matches Piece::Text(s) && s@ == t,
        Err(u) => p matches Piece::Image { url, scale: sc } && url@ == u && sc == scale,
    }
}

/// Every item among the first `n` renders.
pub open spec fn all_render(items: Seq<Item>, n: int, data: JsonValue, c: Colors, metric: bool) -> bool {
    forall|k: int| 0 <= k < n ==> (#[trigger] rendered(items[k].data, data, c, metric)) is Some
}

/// The first item that fails to render.
pub open spec fn first_failure(items: Seq<Item>, data: JsonValue, c: Colors, metric: bool) -> int {
    choose|k: int|
        0 <= k < items.len() && rendered(items[k].data, data, c, metric) is None && all_render(
            items,
            k,
            data,
            c,
            metric,
        )
}

/// A row of a layout: an ordered list of items.
#[derive(Debug)]
pub struct Row {
    pub items: Vec<Item>,
}

/// Tags a layout error with the index of the item that raised it; other
/// errors pass unchanged.
pub fn reemit_layout_error(e: WeatherError, count: usize) -> (r: WeatherError)
    ensures
        match e {
            WeatherError::Layout { message, .. } => r == WeatherError::Layout {
                message,
                row: None,
                item: Some(count),
            },
            _ => r == e,
        },
{
    match e {
        WeatherError::Layout { message, .. } => WeatherError::Layout { message, row: None, item: Some(count) },
        _ => e,
    }
}

impl Row {
    /// Parses a template string into items.
    pub fn from_str(data: &str) -> (r: Row)
        ensures
            r.items@.len() == segments(data@).len(),
            forall|k: int| 0 <= k < r.items@.len() ==> parsed_from(segments(data@)[k], #[trigger] r.items@[k].data),
    {
        let n: usize = data.unicode_len();
        let mut items: Vec<Item> = Vec::new();
        let mut start: usize = 0;
        let mut prev: char = '\0';
        let mut i: usize = 0;
        while i < n
            invariant
                n == data@.len(),
                0 <= start <= i <= n,
                scan(data@.subrange(0, i as int)).0.len() == items@.len(),
                forall|k: int|
                    0 <= k < items@.len() ==> parsed_from(
                        scan(data@.subrange(0, i as int)).0[k],
                        #[trigger] items@[k].data,
                    ),
                scan(data@.subrange(0, i as int)).1 == data@.subrange(start as int, i as int),
                scan(data@.subrange(0, i as int)).2 == prev,
            decreases n - i,
        {
            let c = data.get_char(i);
            proof {
                assert(data@.subrange(0, i + 1).drop_last() =~= data@.subrange(0, i as int));
            }
            if (c == '{' || c == '}') && prev != '\\' {
                let seg = data.substring_char(start, i);
                items.push(Item::from_str(seg));
                start = i + 1;
                prev = '\0';
            } else {
                proof {
                    assert(data@.subrange(start as int, i + 1) =~= data@.subrange(start as int, i as int).push(c));
                }
                prev = c;
            }
            i = i + 1;
        }
        proof {
            assert(data@.subrange(0, n as int) =~= data@);
        }
        if start < n {
            let seg = data.substring_char(start, n);
            items.push(Item::from_str(seg));
        }
        Row { items }
    }

    /// Builds a row from the entries of a row list.
    pub fn from_vec(data: Vec<ItemEnum>) -> (r: Row)
        ensures
            r.items@.len() == data@.len(),
            forall|k: int|
                0 <= k < data@.len() ==> match #[trigger] data@[k] {
                    ItemEnum::ItemString(s) => parsed_from(s@, r.items@[k].data),
                    ItemEnum::ItemInt(n) => parsed_from(crate::text::signed_decimal(n as int), r.items@[k].data),
                    ItemEnum::ItemFloat(s) => parsed_from(s@, r.items@[k].data),
                    ItemEnum::Item(d) => r.items@[k].data == d,
                },
    {
        let ghost src = data@;
        let mut items: Vec<Item> = Vec::new();
        let mut rest = data;
        while rest.len() > 0
            invariant
                items@.len() <= src.len(),
                rest@ == src.subrange(items@.len() as int, src.len() as int),
                forall|k: int|
                    0 <= k < items@.len() ==> match #[trigger] src[k] {
                        ItemEnum::ItemString(s) => parsed_from(s@, items@[k].data),
                        ItemEnum::ItemInt(n) => parsed_from(crate::text::signed_decimal(n as int), items@[k].data),
                        ItemEnum::ItemFloat(s) => parsed_from(s@, items@[k].data),
                        ItemEnum::Item(d) => items@[k].data == d,
                    },
            decreases rest.len(),
        {
            let ghost k = items@.len() as int;
            let e = rest.remove(0);
            proof {
                assert(e == src[k]);
                assert(rest@ =~= src.subrange(k + 1, src.len() as int));
            }
            items.push(Item::new(e));
        }
        Row { items }
    }

    /// Renders every item in order; the first failure is a layout error
    /// tagged with its item index.
    pub fn to_string(&self, data: &JsonValue, colors: &Colors, metric: bool) -> (r: Result<Vec<Piece>, WeatherError>)
        ensures
            r is Ok <==> all_render(self.items@, self.items@.len() as int, *data, *colors, metric),
            r matches Ok(ps) ==> ps@.len() == self.items@.len() && forall|k: int|
                0 <= k < ps@.len() ==> piece_is(
                    #[trigger] ps@[k],
                    rendered(self.items@[k].data, *data, *colors, metric)->0,
                    self.items@[k].data.scale,
                ),
            r matches Err(e) ==> e is Layout && e->item == Some(
                first_failure(self.items@, *data, *colors, metric) as usize,
            ),
    {
        let mut out: Vec<Piece> = Vec::new();
        let mut k: usize = 0;
        while k < self.items.len()
            invariant
                0 <= k <= self.items@.len(),
                out@.len() == k,
                all_render(self.items@, k as int, *data, *colors, metric),
                forall|j: int|
                    0 <= j < k ==> piece_is(
                        #[trigger] out@[j],
                        rendered(self.items@[j].data, *data, *colors, metric)->0,
                        self.items@[j].data.scale,
                    ),
            decreases self.items.len() - k,
        {
            match self.items[k].to_string(data, colors, metric) {
                Ok(p) => {
                    out.push(p);
                },
                Err(e) => {
                    let ghost f = first_failure(self.items@, *data, *colors, metric);
                    proof {
                        assert(rendered(self.items@[k as int].data, *data, *colors, metric) is None);
                        if f != k {
                            if f < k {
                                assert(rendered(self.items@[f].data, *data, *colors, metric) is Some);
                            } else {
                                assert(rendered(self.items@[k as int].data, *data, *colors, metric) is Some);
                            }
                        }
                    }
                    return Err(reemit_layout_error(e, k));
                },
            }
            k = k + 1;
        }
        Ok(out)
    }
}

/// All rows render.
pub open spec fn rows_render(rows: Seq<Row>, n: int, data: JsonValue, c: Colors, metric: bool) -> bool {
    forall|k: int|
        0 <= k < n ==> all_render(#[trigger] rows[k].items@, rows[k].items@.len() as int, data, c, metric)
}

/// A parsed layout document: its default colours and its rows.
#[derive(Debug)]
pub struct LayoutFile {
    pub colors: Colors,
    pub rows: Vec<Row>,
}

impl LayoutFile {
    /// Renders every row in order; the first failure is a layout error
    /// tagged with its row and item indices.
    pub fn render(&self, data: &JsonValue, metric: bool) -> (r: Result<Vec<Vec<Piece>>, WeatherError>)
        ensures
            r is Ok <==> rows_render(self.rows@, self.rows@.len() as int, *data, self.colors, metric),
            r matches Ok(out) ==> out@.len() == self.rows@.len() && (forall|k: int|
                0 <= k < out@.len() ==> (#[trigger] out@[k])@.len() == self.rows@[k].items@.len()) && forall|
                k: int,
                j: int,
            |
                0 <= k < out@.len() && 0 <= j < self.rows@[k].items@.len() ==> piece_is(
                    #[trigger] out@[k]@[j],
                    rendered(self.rows@[k].items@[j].data, *data, self.colors, metric)->0,
                    self.rows@[k].items@[j].data.scale,
                ),
            r matches Err(e) ==> e is Layout && (e->row) is Some && ({
                let k = (e->row)->0 as int;
                &&& 0 <= k < self.rows@.len()
                &&& rows_render(self.rows@, k, *data, self.colors, metric)
                &&& !all_render(self.rows@[k].items@, self.rows@[k].items@.len() as int, *data, self.colors, metric)
                &&& e->item == Some(#[verifier::truncate] (first_failure(self.rows@[k].items@, *data, self.colors, metric) as usize))
            }),
    {
        let mut out: Vec<Vec<Piece>> = Vec::new();
        let mut k: usize = 0;
        while k < self.rows.len()
            invariant
                0 <= k <= self.rows@.len(),
                out@.len() == k,
                rows_render(self.rows@, k as int, *data, self.colors, metric),
                forall|m: int| 0 <= m < k ==> (#[trigger] out@[m])@.len() == self.rows@[m].items@.len(),
                forall|m: int, j: int|
                    0 <= m < k && 0 <= j < self.rows@[m].items@.len() ==> piece_is(
                        #[trigger] out@[m]@[j],
                        rendered(self.rows@[m].items@[j].data, *data, self.colors, metric)->0,
                        self.rows@[m].items@[j].data.scale,
                    ),
            decreases self.rows.len() - k,
        {
            match self.rows[k].to_string(data, &self.colors, metric) {
                Ok(ps) => {
                    let ghost before = out@;
                    out.push(ps);
                    proof {
                        assert forall|m: int, j: int|
                            0 <= m <= k && 0 <= j < self.rows@[m].items@.len() implies piece_is(
                            #[trigger] out@[m]@[j],
                            rendered(self.rows@[m].items@[j].data, *data, self.colors, metric)->0,
                            self.rows@[m].items@[j].data.scale,
                        ) by {
                            if m < k {
                                assert(out@[m] == before[m]);
                            }
                        }
                    }
                },
                Err(e) => {
                    return match e {
                        WeatherError::Layout { message, row: _, item } => Err(
                            WeatherError::Layout { message, row: Some(k), item },
                        ),
                        _ => Err(e),
                    };
                },
            }
            k = k + 1;
        }
        Ok(out)
    }
}

/// The text a piece carries, or the image it asks for.
pub open spec fn piece_view(p: Piece) -> Result<Seq<char>, (Seq<char>, Option<i64>)> {
    match p {
        Piece::Text(s) => Ok(s@),
        Piece::Image { url, scale } => Err((url@, scale)),
    }
}

/// Rendering is deterministic: two renders of one row against the same data,
/// colours and unit system yield the same pieces.
pub proof fn lemma_render_deterministic(
    row: Row,
    data: JsonValue,
    c: Colors,
    metric: bool,
    ps1: Seq<Piece>,
    ps2: Seq<Piece>,
)
    requires
        ps1.len() == row.items@.len(),
        ps2.len() == row.items@.len(),
        forall|k: int|
            0 <= k < ps1.len() ==> piece_is(
                #[trigger] ps1[k],
                rendered(row.items@[k].data, data, c, metric)->0,
                row.items@[k].data.scale,
            ),
        forall|k: int|
            0 <= k < ps2.len() ==> piece_is(
                #[trigger] ps2[k],
                rendered(row.items@[k].data, data, c, metric)->0,
                row.items@[k].data.scale,
            ),
    ensures
        ps1.map_values(|p: Piece| piece_view(p)) == ps2.map_values(|p: Piece| piece_view(p)),
{
    assert forall|k: int| 0 <= k < ps1.len() implies piece_view(ps1[k]) == piece_view(ps2[k]) by {
        assert(piece_is(ps1[k], rendered(row.items@[k].data, data, c, metric)->0, row.items@[k].data.scale));
        assert(piece_is(ps2[k], rendered(row.items@[k].data, data, c, metric)->0, row.items@[k].data.scale));
    }
    assert(ps1.map_values(|p: Piece| piece_view(p)) =~= ps2.map_values(|p: Piece| piece_view(p)));
}

/// A template segment that is neither a variable nor a function: its literal
/// text, with a leading backslash dropped.
pub open spec fn literal_of(seg: Seq<char>) -> Seq<char> {
    if seg.len() > 0 && seg[0] == '\\' {
        seg.drop_first()
    } else {
        seg
    }
}

/// Rendering a parsed template emits one piece per segment, in order: each
/// literal segment appears whole after the text colours, and each variable
/// segment emits its resolved value exactly once, between the variable
/// colours and its unit.
pub proof fn lemma_template_render(
    s: Seq<char>,
    row: Row,
    data: JsonValue,
    c: Colors,
    metric: bool,
    ps: Seq<Piece>,
)
    requires
        row.items@.len() == segments(s).len(),
        forall|k: int| 0 <= k < row.items@.len() ==> parsed_from(segments(s)[k], #[trigger] row.items@[k].data),
        all_render(row.items@, row.items@.len() as int, data, c, metric),
        ps.len() == row.items@.len(),
        forall|k: int|
            0 <= k < ps.len() ==> piece_is(
                #[trigger] ps[k],
                rendered(row.items@[k].data, data, c, metric)->0,
                row.items@[k].data.scale,
            ),
    ensures
        ps.len() == segments(s).len(),
        forall|k: int|
            0 <= k < ps.len() && !(segments(s)[k].len() > 0 && (segments(s)[k][0] == '@' || segments(s)[k][0]
                == '#')) ==> piece_view(#[trigger] ps[k]) == Ok::<Seq<char>, (Seq<char>, Option<i64>)>(
                c.text@ + c.text_bg@ + literal_of(segments(s)[k]),
            ),
        forall|k: int|
            0 <= k < ps.len() && segments(s)[k].len() > 0 && segments(s)[k][0] == '@' ==> {
                let path = split(segments(s)[k].drop_first(), '|')[0];
                &&& variable_text(path, data) is Some
                &&& piece_view(#[trigger] ps[k]) == Ok::<Seq<char>, (Seq<char>, Option<i64>)>(
                    c.variable@ + c.variable_bg@ + variable_text(path, data)->0 + c.unit@ + c.unit_bg@ + (if metric {
                        or_empty(row.items@[k].data.metric)
                    } else {
                        or_empty(row.items@[k].data.imperial)
                    }),
                )
            },
{
    assert forall|k: int|
        0 <= k < ps.len() && !(segments(s)[k].len() > 0 && (segments(s)[k][0] == '@' || segments(s)[k][0]
            == '#')) implies piece_view(#[trigger] ps[k]) == Ok::<Seq<char>, (Seq<char>, Option<i64>)>(
        c.text@ + c.text_bg@ + literal_of(segments(s)[k]),
    ) by {
        assert(parsed_from(segments(s)[k], row.items@[k].data));
        assert(rendered(row.items@[k].data, data, c, metric) is Some);
        assert(c.text@ + c.text_bg@ + Seq::<char>::empty() + Seq::<char>::empty() + literal_of(segments(s)[k])
            =~= c.text@ + c.text_bg@ + literal_of(segments(s)[k]));
    }
    assert forall|k: int| 0 <= k < ps.len() && segments(s)[k].len() > 0 && segments(s)[k][0] == '@' implies {
        let path = split(segments(s)[k].drop_first(), '|')[0];
        &&& variable_text(path, data) is Some
        &&& piece_view(#[trigger] ps[k]) == Ok::<Seq<char>, (Seq<char>, Option<i64>)>(
            c.variable@ + c.variable_bg@ + variable_text(path, data)->0 + c.unit@ + c.unit_bg@ + (if metric {
                or_empty(row.items@[k].data.metric)
            } else {
                or_empty(row.items@[k].data.imperial)
            }),
        )
    } by {
        let path = split(segments(s)[k].drop_first(), '|')[0];
        assert(parsed_from(segments(s)[k], row.items@[k].data));
        assert(rendered(row.items@[k].data, data, c, metric) is Some);
        let v = variable_text(path, data)->0;
        let sfx = if metric {
            or_empty(row.items@[k].data.metric)
        } else {
            or_empty(row.items@[k].data.imperial)
        };
        assert(c.variable@ + c.variable_bg@ + Seq::<char>::empty() + Seq::<char>::empty() + v + c.unit@ + c.unit_bg@
            + Seq::<char>::empty() + sfx =~= c.variable@ + c.variable_bg@ + v + c.unit@ + c.unit_bg@ + sfx);
    }
}

} // verus!
