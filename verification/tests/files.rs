use vector_screen::json::JsonValue;
use vector_screen::moonraker::client::{http_failure, parse_reply, MoonrakerError};
use vector_screen::moonraker::files::{file_list_from_text, parse_entry, parse_file_list, FileEntry, ListedFile};

fn s(t: &str) -> JsonValue {
    JsonValue::String(t.to_string())
}

fn n(t: &str) -> JsonValue {
    JsonValue::Number(t.to_string())
}

fn obj(members: Vec<(&str, JsonValue)>) -> JsonValue {
    JsonValue::Object(members.into_iter().map(|(k, v)| (k.to_string(), v)).collect())
}

fn listed(name: &str, size: u64, modified: &str, float_modified: bool) -> ListedFile {
    ListedFile {
        entry: FileEntry { name: name.into(), size, modified: modified.into() },
        float_modified,
    }
}

#[test]
fn files_list_keeps_valid_entries() {
    let reply = obj(vec![(
        "result",
        JsonValue::Array(vec![
            obj(vec![("path", s("x")), ("filename", s("a.gcode")), ("size", n("1024")), ("modified", n("1700000000"))]),
            obj(vec![("filename", s("b.gcode")), ("size", n("-1")), ("modified", s("2024"))]),
            obj(vec![("filename", s("c.gcode")), ("size", n("12")), ("modified", s("2024-01-01"))]),
            obj(vec![("filename", s("d.gcode")), ("size", n("12.5")), ("modified", n("1"))]),
            obj(vec![("filename", s("e.gcode")), ("size", n("3"))]),
            JsonValue::Array(vec![s("f.gcode"), n("7"), n("1700000000.25")]),
            obj(vec![("filename", s("h.gcode")), ("size", n("0")), ("modified", n("1e21"))]),
            obj(vec![("filename", s("i.gcode")), ("size", n("1")), ("modified", n("-3"))]),
            JsonValue::Array(vec![s("g.gcode"), n("7")]),
            s("not an entry"),
        ]),
    )]);
    let files = parse_file_list(&reply);
    assert_eq!(
        files,
        vec![
            listed("a.gcode", 1024, "1700000000", false),
            listed("c.gcode", 12, "2024-01-01", false),
            listed("f.gcode", 7, "1700000000.25", true),
            listed("h.gcode", 0, "1e21", true),
            listed("i.gcode", 1, "-3", false),
        ]
    );
}

#[test]
fn files_list_without_result_array_is_empty() {
    assert!(parse_file_list(&obj(vec![("result", obj(vec![]))])).is_empty());
    assert!(parse_file_list(&obj(vec![])).is_empty());
    assert!(parse_file_list(&JsonValue::Null).is_empty());
}

#[test]
fn files_entry_size_limits() {
    let max = obj(vec![("filename", s("m")), ("size", n("18446744073709551615")), ("modified", n("0"))]);
    assert_eq!(parse_entry(&max).unwrap().entry.size, u64::MAX);
    let over = obj(vec![("filename", s("m")), ("size", n("18446744073709551616")), ("modified", n("0"))]);
    assert!(parse_entry(&over).is_none());
    let bad_modified = obj(vec![("filename", s("m")), ("size", n("1")), ("modified", JsonValue::Bool(true))]);
    assert!(parse_entry(&bad_modified).is_none());
}

#[test]
fn files_float_modified_is_marked() {
    let e = obj(vec![("filename", s("x")), ("size", n("5")), ("modified", n("1700000000.0"))]);
    let l = parse_entry(&e).unwrap();
    assert!(l.float_modified);
    assert_eq!(l.entry.modified, "1700000000.0");
    let e = obj(vec![("filename", s("x")), ("size", n("5")), ("modified", s("1700000000.0"))]);
    assert!(!parse_entry(&e).unwrap().float_modified);
}

#[test]
fn files_list_from_reply_text() {
    let text = "{\"result\":[{\"filename\":\"a.gcode\",\"size\":10,\"modified\":1700000000.5,\"path\":\"a.gcode\"},{\"filename\":\"b.gcode\"}]}";
    let files = file_list_from_text(text).unwrap();
    assert_eq!(files, vec![listed("a.gcode", 10, "1700000000.5", true)]);
    match file_list_from_text("{not json") {
        Err(MoonrakerError::JsonError(m)) => {
            assert_eq!(m, serde_json::from_str::<serde_json::Value>("{not json").unwrap_err().to_string());
        },
        _ => panic!("expected a JSON error"),
    }
    assert!(file_list_from_text("{\"result\":{}}").unwrap().is_empty());
    assert!(matches!(parse_reply("[1,2]"), Ok(JsonValue::Array(a)) if a.len() == 2));
}

#[test]
fn files_http_failures() {
    assert!(http_failure(200, Some("OK"), "x").is_none());
    assert!(http_failure(299, None, "x").is_none());
    match http_failure(404, Some("Not Found"), "missing") {
        Some(MoonrakerError::HttpError(m)) => assert_eq!(m, "HTTP 404 Not Found: missing"),
        _ => panic!("expected an HTTP error"),
    }
    match http_failure(599, None, "") {
        Some(MoonrakerError::HttpError(m)) => assert_eq!(m, "HTTP 599 <unknown status code>: "),
        _ => panic!("expected an HTTP error"),
    }
}
