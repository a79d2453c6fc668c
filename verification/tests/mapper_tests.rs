use meilibridge::config::pipeline::{FieldMapping, MappingConfig, TableMapping};
use meilibridge::json::{JsonNumber, JsonValue};
use meilibridge::models::event::{CdcEvent, EventType};
use meilibridge::models::stream_event::Event;
use meilibridge::pipeline::mapper::FieldMapper;

fn s(v: &str) -> JsonValue {
    JsonValue::String(v.to_string())
}

fn n(v: u64) -> JsonValue {
    JsonValue::Number(JsonNumber::PosInt(v))
}

fn row(fields: Vec<(&str, JsonValue)>) -> Vec<(String, JsonValue)> {
    fields.into_iter().map(|(k, v)| (k.to_string(), v)).collect()
}

fn get<'a>(r: &'a [(String, JsonValue)], k: &str) -> Option<&'a JsonValue> {
    r.iter().find(|(key, _)| key == k).map(|(_, v)| v)
}

fn text(v: Option<&JsonValue>) -> Option<String> {
    match v {
        Some(JsonValue::String(s)) => Some(s.clone()),
        _ => None,
    }
}

fn mapper(strategy: &str, prefix: Option<&str>, fields: Vec<(&str, FieldMapping)>, name: Option<&str>) -> FieldMapper {
    FieldMapper::new(MappingConfig {
        tables: vec![(
            "users".to_string(),
            TableMapping {
                name: name.map(|s| s.to_string()),
                fields: Some(fields.into_iter().map(|(k, m)| (k.to_string(), m)).collect()),
            },
        )],
        unmapped_fields_strategy: strategy.to_string(),
        unmapped_fields_prefix: prefix.map(|s| s.to_string()),
    })
}

fn complex(to: &str, default: Option<JsonValue>, sources: Option<Vec<&str>>, separator: Option<&str>, path: Option<&str>) -> FieldMapping {
    FieldMapping::Complex {
        to: Some(to.to_string()),
        default,
        sources: sources.map(|v| v.into_iter().map(|s| s.to_string()).collect()),
        separator: separator.map(|s| s.to_string()),
        path: path.map(|s| s.to_string()),
    }
}

#[test]
fn renames_and_keeps_unmapped_fields() {
    let m = mapper("include", None, vec![("first", FieldMapping::Simple("given".to_string()))], None);
    let data = row(vec![("first", s("Ada")), ("age", n(36))]);
    let out = m.map_fields(&data, &vec![("first".to_string(), FieldMapping::Simple("given".to_string()))], &vec![]);
    assert_eq!(text(get(&out, "given")), Some("Ada".to_string()));
    assert!(get(&out, "first").is_none());
    assert!(matches!(get(&out, "age"), Some(JsonValue::Number(JsonNumber::PosInt(36)))));
    assert_eq!(out.len(), 2);
}

#[test]
fn excluded_and_prefixed_unmapped_fields() {
    let fields = vec![("first".to_string(), FieldMapping::Simple("given".to_string()))];
    let data = row(vec![("first", s("Ada")), ("age", n(36))]);
    let ex = mapper("exclude", None, vec![], None);
    let out = ex.map_fields(&data, &fields, &vec![]);
    assert_eq!(out.len(), 1);
    let pre = mapper("prefix", None, vec![], None);
    let out = pre.map_fields(&data, &fields, &vec![]);
    assert!(get(&out, "_age").is_some());
    let pre2 = mapper("prefix", Some("x_"), vec![], None);
    let out = pre2.map_fields(&data, &fields, &vec![]);
    assert!(get(&out, "x_age").is_some());
}

#[test]
fn defaults_paths_and_joined_fields() {
    let data = row(vec![
        ("first", s("Ada")),
        ("last", s("Lovelace")),
        ("address", JsonValue::Object(row(vec![("city", s("London")), ("tags", JsonValue::Array(vec![s("a"), s("b")]))]))),
    ]);
    let fields = vec![
        ("first".to_string(), complex("name", None, Some(vec!["first", "middle", "last"]), Some(" "), None)),
        ("address".to_string(), complex("city", None, None, None, Some("city"))),
        ("address".to_string(), complex("tag", None, None, None, Some("tags.1"))),
        ("missing".to_string(), complex("status", Some(s("new")), None, None, None)),
        ("gone".to_string(), complex("other", None, None, None, None)),
    ];
    let m = mapper("exclude", None, vec![], None);
    let rendered = vec![vec!["Ada".to_string(), "Lovelace".to_string()]];
    let out = m.map_fields(&data, &fields, &rendered);
    assert_eq!(text(get(&out, "name")), Some("Ada Lovelace".to_string()));
    assert_eq!(text(get(&out, "city")), Some("London".to_string()));
    assert_eq!(text(get(&out, "tag")), Some("b".to_string()));
    assert_eq!(text(get(&out, "status")), Some("new".to_string()));
    assert!(matches!(get(&out, "other"), Some(JsonValue::Null)));
}

#[test]
fn render_requests_list_the_joined_values() {
    let m = mapper(
        "include",
        None,
        vec![
            ("first", complex("name", None, Some(vec!["first", "nope", "age"]), None, None)),
            ("age", FieldMapping::Simple("years".to_string())),
        ],
        None,
    );
    let ev = Event::Cdc(CdcEvent {
        event_type: EventType::Create,
        table: "users".to_string(),
        schema: "public".to_string(),
        data: row(vec![("first", s("Ada")), ("age", n(36))]),
        timestamp: 0,
        position: None,
    });
    let req = m.render_requests(&ev);
    assert_eq!(req.len(), 2);
    assert_eq!(req[0].len(), 2);
    assert!(req[1].is_empty());
}

#[test]
fn map_event_renames_the_table() {
    let m = mapper("include", None, vec![("first", FieldMapping::Simple("given".to_string()))], Some("people"));
    let ev = Event::Cdc(CdcEvent {
        event_type: EventType::Create,
        table: "users".to_string(),
        schema: "public".to_string(),
        data: row(vec![("first", s("Ada"))]),
        timestamp: 7,
        position: None,
    });
    match m.map_event(ev, &vec![vec![]]).unwrap() {
        Event::Cdc(c) => {
            assert_eq!(c.table, "people");
            assert_eq!(c.timestamp, 7);
            assert_eq!(text(get(&c.data, "given")), Some("Ada".to_string()));
        }
        _ => panic!("expected a change event"),
    }
    let other = Event::FullSync { table: "items".to_string(), data: JsonValue::Null };
    assert!(matches!(m.map_event(other, &vec![]).unwrap(), Event::FullSync { table, .. } if table == "items"));
}
