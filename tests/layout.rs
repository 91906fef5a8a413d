use weathercli::error::WeatherError;
use weathercli::json::JsonValue;
use weathercli::layout_item::{Colors, Item, ItemEnum, ItemJson, ItemKind, Piece};
use weathercli::layout_row::{reemit_layout_error, LayoutFile, Row};

fn obj(members: Vec<(&str, JsonValue)>) -> JsonValue {
    JsonValue::Object(members.into_iter().map(|(k, v)| (k.to_string(), v)).collect())
}

fn no_colors() -> Colors {
    Colors {
        variable: String::new(),
        text: String::new(),
        unit: String::new(),
        variable_bg: String::new(),
        text_bg: String::new(),
        unit_bg: String::new(),
    }
}

fn text_of(pieces: &[Piece]) -> String {
    let mut s = String::new();
    for p in pieces {
        match p {
            Piece::Text(t) => s.push_str(t),
            Piece::Image { url, .. } => s.push_str(&format!("<{url}>")),
        }
    }
    s
}

fn sample() -> JsonValue {
    let temp = (12.3456f64 * 10.0).round() as i64;
    obj(vec![("main", obj(vec![("temp", JsonValue::Tenths(temp))]))])
}

#[test]
fn layout_variable_renders_with_unit() {
    let row = Row::from_str("Temp: {@main.temp||°C} ");
    let pieces = row.to_string(&sample(), &no_colors(), true).unwrap();
    assert_eq!(text_of(&pieces), "Temp: 12.3°C ");
}

#[test]
fn layout_imperial_suffix() {
    let row = Row::from_str("{@main.temp|F|C}");
    assert_eq!(text_of(&row.to_string(&sample(), &no_colors(), false).unwrap()), "12.3F");
    assert_eq!(text_of(&row.to_string(&sample(), &no_colors(), true).unwrap()), "12.3C");
}

#[test]
fn layout_render_is_deterministic() {
    let row = Row::from_str("a {@main.temp|x} b");
    let c = Colors {
        variable: "V".to_string(),
        text: "T".to_string(),
        unit: "U".to_string(),
        variable_bg: "v".to_string(),
        text_bg: "t".to_string(),
        unit_bg: "u".to_string(),
    };
    let one = text_of(&row.to_string(&sample(), &c, true).unwrap());
    let two = text_of(&row.to_string(&sample(), &c, true).unwrap());
    assert_eq!(one, two);
    assert_eq!(one, "Tta Vv12.3UuxTt b");
}

#[test]
fn layout_round_trip_keeps_literals_and_variables() {
    let data = obj(vec![
        ("city", JsonValue::Str("Oslo".to_string())),
        ("list", JsonValue::Array(vec![JsonValue::Int(4), JsonValue::Int(-7)])),
    ]);
    let row = Row::from_str("In {@city}: {@list.[1]} and \\{raw\\}");
    let out = text_of(&row.to_string(&data, &no_colors(), true).unwrap());
    assert_eq!(out, "In Oslo: -7 and \\{raw\\}");
    assert!(out.contains("In "));
    assert_eq!(out.matches("Oslo").count(), 1);
    assert_eq!(out.matches("-7").count(), 1);
}

#[test]
fn item_from_str_kinds() {
    let v = Item::from_str("@a.b|in|cm");
    assert!(matches!(v.data.item_type, ItemKind::Variable));
    assert_eq!(v.data.value, "a.b");
    assert_eq!(v.data.imperial.as_deref(), Some("in"));
    assert_eq!(v.data.metric.as_deref(), Some("cm"));
    let f = Item::from_str("#color_aqi|x|k=v");
    assert!(matches!(f.data.item_type, ItemKind::Function));
    assert_eq!(f.data.value, "color_aqi");
    assert_eq!(f.data.args, vec!["x".to_string()]);
    assert_eq!(f.data.kwargs, vec![("k".to_string(), "v".to_string())]);
    let e = Item::from_str("\\@literal");
    assert!(matches!(e.data.item_type, ItemKind::Text));
    assert_eq!(e.data.value, "@literal");
    let n = Item::new(ItemEnum::ItemInt(-42));
    assert_eq!(n.data.value, "-42");
}

#[test]
fn color_aqi_function() {
    let data = obj(vec![("aqi", JsonValue::Int(3))]);
    let row = Row::from_str("{#color_aqi|@aqi}");
    assert_eq!(text_of(&row.to_string(&data, &no_colors(), true).unwrap()), "\u{1b}[33m");
}

#[test]
fn unknown_function_is_layout_error_with_item_index() {
    let row = Row::from_str("ok{#nothing}");
    match row.to_string(&sample(), &no_colors(), true) {
        Err(WeatherError::Layout { item, row, .. }) => {
            assert_eq!(item, Some(1));
            assert_eq!(row, None);
        },
        other => panic!("unexpected {:?}", other.is_ok()),
    }
}

#[test]
fn missing_variable_is_layout_error() {
    let row = Row::from_str("{@nothing.here}");
    assert!(matches!(row.to_string(&sample(), &no_colors(), true), Err(WeatherError::Layout { .. })));
}

#[test]
fn layout_file_tags_row_index() {
    let file = LayoutFile { colors: no_colors(), rows: vec![Row::from_str("fine"), Row::from_str("{@x}")] };
    match file.render(&sample(), true) {
        Err(WeatherError::Layout { row, item, .. }) => {
            assert_eq!(row, Some(1));
            // the leading brace closes an empty text item first
            assert_eq!(item, Some(1));
        },
        other => panic!("unexpected {:?}", other.is_ok()),
    }
}

#[test]
fn reemit_tags_only_layout_errors() {
    let e = reemit_layout_error(WeatherError::Layout { message: "m".to_string(), row: Some(3), item: None }, 4);
    assert!(matches!(e, WeatherError::Layout { row: None, item: Some(4), .. }));
    let n = reemit_layout_error(WeatherError::NotFound("x".to_string()), 4);
    assert!(matches!(n, WeatherError::NotFound(_)));
}

#[test]
fn image_item_asks_for_url() {
    let item = ItemJson {
        item_type: ItemKind::Image,
        value: "https://example.com/a.png".to_string(),
        color: None,
        bg_color: None,
        unit_color: None,
        metric: None,
        imperial: None,
        args: vec![],
        kwargs: vec![],
        scale: Some(5),
    };
    let row = Row::from_vec(vec![ItemEnum::Item(item)]);
    let pieces = row.to_string(&sample(), &no_colors(), true).unwrap();
    assert!(matches!(&pieces[0], Piece::Image { url, scale: Some(5) } if url == "https://example.com/a.png"));
    let bad = ItemJson {
        item_type: ItemKind::Image,
        value: "not a url".to_string(),
        color: None,
        bg_color: None,
        unit_color: None,
        metric: None,
        imperial: None,
        args: vec![],
        kwargs: vec![],
        scale: None,
    };
    let row = Row::from_vec(vec![ItemEnum::Item(bad)]);
    assert!(row.to_string(&sample(), &no_colors(), true).is_err());
}

#[test]
fn floats_show_one_decimal() {
    let data = obj(vec![("t", JsonValue::Tenths(-5)), ("u", JsonValue::Tenths(200))]);
    let row = Row::from_str("{@t} {@u}");
    assert_eq!(text_of(&row.to_string(&data, &no_colors(), true).unwrap()), "-0.5 20.0");
}

#[test]
fn layout_document_reads_rows_and_colours() {
    let item = obj(vec![
        ("type", JsonValue::Str("variable".to_string())),
        ("value", JsonValue::Str("main.temp".to_string())),
        ("metric", JsonValue::Str("C".to_string())),
        ("scale", JsonValue::Int(2)),
    ]);
    let doc = obj(vec![
        ("text_color", JsonValue::Str("T".to_string())),
        (
            "layout",
            JsonValue::Array(vec![
                JsonValue::Str("Now {@main.temp||°C}".to_string()),
                JsonValue::Array(vec![JsonValue::Str("x=".to_string()), JsonValue::Int(7), item]),
            ]),
        ),
    ]);
    let file = LayoutFile::from_json(&doc).unwrap();
    assert_eq!(file.colors.text, "T");
    assert_eq!(file.colors.variable, "");
    assert_eq!(file.rows.len(), 2);
    assert_eq!(file.rows[1].items[1].data.value, "7");
    assert_eq!(file.rows[1].items[2].data.scale, Some(20));
    let rows = file.render(&sample(), true).unwrap();
    assert_eq!(text_of(&rows[0]), "TNow 12.3°C");
    assert_eq!(text_of(&rows[1]), "Tx=T712.3C");
}

#[test]
fn layout_document_errors() {
    assert!(matches!(LayoutFile::from_json(&JsonValue::Null), Err(WeatherError::Serialization(_))));
    let doc = obj(vec![("layout", JsonValue::Array(vec![JsonValue::Array(vec![JsonValue::Bool(true)])]))]);
    assert!(matches!(LayoutFile::from_json(&doc), Err(WeatherError::Serialization(_))));
}
