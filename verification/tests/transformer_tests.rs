use meilibridge::config::pipeline::{FieldTransform, Transform, TransformConfig};
use meilibridge::json::{JsonNumber, JsonValue};
use meilibridge::models::event::{CdcEvent, EventType};
use meilibridge::models::stream_event::Event;
use meilibridge::pipeline::transformer::{EventTransformer, MemberText, NumberParse};

fn s(v: &str) -> JsonValue {
    JsonValue::String(v.to_string())
}

fn row(fields: Vec<(&str, JsonValue)>) -> Vec<(String, JsonValue)> {
    fields.into_iter().map(|(k, v)| (k.to_string(), v)).collect()
}

fn get<'a>(r: &'a [(String, JsonValue)], k: &str) -> Option<&'a JsonValue> {
    r.iter().find(|(key, _)| key == k).map(|(_, v)| v)
}

fn texts(fields: Vec<(&str, &str, NumberParse)>) -> Vec<(String, MemberText)> {
    fields.into_iter().map(|(k, j, n)| (k.to_string(), MemberText { json: j.to_string(), number: n })).collect()
}

fn transformer(fields: Vec<FieldTransform>, globals: Option<Vec<Transform>>) -> EventTransformer {
    EventTransformer::new(TransformConfig {
        fields: vec![(
            "users".to_string(),
            fields.into_iter().enumerate().map(|(i, t)| (format!("t{}", i), t)).collect(),
        )],
        global_transforms: globals,
    })
}

fn cdc(data: Vec<(String, JsonValue)>) -> Event {
    Event::Cdc(CdcEvent {
        event_type: EventType::Update,
        table: "users".to_string(),
        schema: "public".to_string(),
        data,
        timestamp: 0,
        position: None,
    })
}

fn data_of(e: Event) -> Vec<(String, JsonValue)> {
    match e {
        Event::Cdc(c) => c.data,
        _ => panic!("expected a change event"),
    }
}

#[test]
fn renames_conversions_and_extractions() {
    let t = transformer(
        vec![
            FieldTransform::Rename { from: "name".to_string(), to: "full_name".to_string() },
            FieldTransform::Convert { field: "age".to_string(), to_type: "number".to_string() },
            FieldTransform::Convert { field: "active".to_string(), to_type: "boolean".to_string() },
            FieldTransform::Extract { from: "address".to_string(), path: "city".to_string(), to: "city".to_string() },
        ],
        None,
    );
    let data = row(vec![
        ("name", s("Ada")),
        ("age", s("36")),
        ("active", s("TRUE")),
        ("address", JsonValue::Object(row(vec![("city", s("London"))]))),
    ]);
    let ts = texts(vec![("age", "\"36\"", NumberParse::Parsed(36f64.to_bits()))]);
    let out = data_of(t.transform_at(cdc(data), &ts, &"now".to_string()).unwrap().unwrap());
    assert!(matches!(get(&out, "full_name"), Some(JsonValue::String(v)) if v == "Ada"));
    assert!(get(&out, "name").is_none());
    assert!(matches!(get(&out, "age"), Some(JsonValue::Number(JsonNumber::Float(b))) if f64::from_bits(*b) == 36.0));
    assert!(matches!(get(&out, "active"), Some(JsonValue::Bool(true))));
    assert!(matches!(get(&out, "city"), Some(JsonValue::String(v)) if v == "London"));
    assert!(get(&out, "address").is_some());
}

#[test]
fn failed_conversions_report_errors() {
    let t = transformer(vec![FieldTransform::Convert { field: "age".to_string(), to_type: "number".to_string() }], None);
    let ts = texts(vec![("age", "\"x\"", NumberParse::Invalid)]);
    let err = t.transform_at(cdc(row(vec![("age", s("x"))])), &ts, &"now".to_string()).unwrap_err();
    assert_eq!(err.message(), "Pipeline error: Cannot convert 'x' to number");
    let t = transformer(vec![FieldTransform::Convert { field: "age".to_string(), to_type: "date".to_string() }], None);
    let err = t.transform_at(cdc(row(vec![("age", s("1"))])), &vec![], &"now".to_string()).unwrap_err();
    assert_eq!(err.message(), "Pipeline error: Unknown type conversion: date");
    let t = transformer(vec![FieldTransform::Convert { field: "tags".to_string(), to_type: "number".to_string() }], None);
    let err = t.transform_at(cdc(row(vec![("tags", JsonValue::Array(vec![]))])), &vec![], &"now".to_string()).unwrap_err();
    assert_eq!(err.message(), "Pipeline error: Cannot convert value to number");
}

#[test]
fn conversions_to_string_and_array() {
    let t = transformer(
        vec![
            FieldTransform::Convert { field: "n".to_string(), to_type: "string".to_string() },
            FieldTransform::Convert { field: "one".to_string(), to_type: "array".to_string() },
            FieldTransform::Convert { field: "big".to_string(), to_type: "boolean".to_string() },
        ],
        None,
    );
    let data = row(vec![
        ("n", JsonValue::Number(JsonNumber::PosInt(5))),
        ("one", s("x")),
        ("big", JsonValue::Number(JsonNumber::PosInt(u64::MAX))),
    ]);
    let ts = texts(vec![("n", "5", NumberParse::NotText)]);
    let out = data_of(t.transform_at(cdc(data), &ts, &"now".to_string()).unwrap().unwrap());
    assert!(matches!(get(&out, "n"), Some(JsonValue::String(v)) if v == "5"));
    assert!(matches!(get(&out, "one"), Some(JsonValue::Array(items)) if items.len() == 1));
    assert!(matches!(get(&out, "big"), Some(JsonValue::Bool(false))));
}

#[test]
fn computed_concat() {
    let t = transformer(
        vec![FieldTransform::Compute { expression: "concat(first, n , missing)".to_string(), to: "label".to_string() }],
        None,
    );
    let data = row(vec![("first", s("Ada")), ("n", JsonValue::Number(JsonNumber::PosInt(7)))]);
    let ts = texts(vec![("n", "7", NumberParse::NotText)]);
    let out = data_of(t.transform_at(cdc(data), &ts, &"now".to_string()).unwrap().unwrap());
    assert!(matches!(get(&out, "label"), Some(JsonValue::String(v)) if v == "Ada7"));
    let t = transformer(vec![FieldTransform::Compute { expression: "sum(a)".to_string(), to: "x".to_string() }], None);
    let out = data_of(t.transform_at(cdc(row(vec![])), &vec![], &"now".to_string()).unwrap().unwrap());
    assert!(get(&out, "x").is_none());
}

#[test]
fn row_transformations_apply_in_order() {
    let t = transformer(
        vec![],
        Some(vec![
            Transform::AddField { name: "source".to_string(), value: s("pg") },
            Transform::RemoveField { name: "secret".to_string() },
            Transform::AddTimestamp { field: "seen_at".to_string() },
            Transform::Uppercase { fields: vec!["code".to_string(), "n".to_string()] },
            Transform::Lowercase { fields: vec!["email".to_string()] },
        ]),
    );
    let data = row(vec![
        ("secret", s("x")),
        ("code", s("ab")),
        ("email", s("A@B.C")),
        ("n", JsonValue::Number(JsonNumber::PosInt(1))),
    ]);
    let out = data_of(t.transform_at(cdc(data), &vec![], &"2024-01-01T00:00:00+00:00".to_string()).unwrap().unwrap());
    assert!(get(&out, "secret").is_none());
    assert!(matches!(get(&out, "source"), Some(JsonValue::String(v)) if v == "pg"));
    assert!(matches!(get(&out, "seen_at"), Some(JsonValue::String(v)) if v == "2024-01-01T00:00:00+00:00"));
    assert!(matches!(get(&out, "code"), Some(JsonValue::String(v)) if v == "AB"));
    assert!(matches!(get(&out, "email"), Some(JsonValue::String(v)) if v == "a@b.c"));
    assert!(matches!(get(&out, "n"), Some(JsonValue::Number(JsonNumber::PosInt(1)))));
}

#[test]
fn full_sync_rows_get_field_transformations_only() {
    let t = transformer(
        vec![FieldTransform::Rename { from: "a".to_string(), to: "b".to_string() }],
        Some(vec![Transform::AddField { name: "x".to_string(), value: JsonValue::Null }]),
    );
    let ev = Event::FullSync { table: "users".to_string(), data: JsonValue::Object(row(vec![("a", s("1"))])) };
    match t.transform(ev, &vec![]).unwrap().unwrap() {
        Event::FullSync { data: JsonValue::Object(ms), .. } => {
            assert!(get(&ms, "b").is_some());
            assert!(get(&ms, "x").is_none());
        }
        _ => panic!("expected a full-sync row"),
    }
    assert!(matches!(t.transform(Event::Heartbeat, &vec![]).unwrap(), Some(Event::Heartbeat)));
}
