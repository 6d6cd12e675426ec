use vector_screen::json::{write_json, JsonValue};
use vector_screen::moonraker::message::{JsonRpcMessage, Notification};

fn msg(id: Option<u64>, method: Option<&str>, params: Option<JsonValue>, result: Option<JsonValue>) -> JsonRpcMessage {
    JsonRpcMessage {
        jsonrpc: Some("2.0".into()),
        id,
        method: method.map(|m| m.to_string()),
        params,
        result,
        error: None,
    }
}

fn num(t: &str) -> JsonValue {
    JsonValue::Number(t.to_string())
}

#[test]
fn test_notification_parse_status_update() {
    let extruder = JsonValue::Object(vec![
        ("temperature".to_string(), num("210.5")),
        ("target".to_string(), num("220.0")),
    ]);
    let params = JsonValue::Array(vec![
        JsonValue::Object(vec![("extruder".to_string(), extruder)]),
        num("12345.67"),
    ]);
    let m = msg(None, Some("notify_status_update"), Some(params), None);

    let notif = Notification::from_message(m).expect("should parse");
    match notif {
        Notification::StatusUpdate { objects, eventtime } => {
            assert!(objects.iter().any(|(k, _)| k == "extruder"));
            assert_eq!(eventtime.as_deref(), Some("12345.67"));
            assert_eq!(eventtime.unwrap().parse::<f64>().unwrap(), 12345.67);
        },
        _ => panic!("wrong notification type"),
    }
}

#[test]
fn test_notification_parse_klippy_ready() {
    let m = msg(None, Some("notify_klippy_ready"), None, None);
    let notif = Notification::from_message(m).expect("should parse");
    assert!(matches!(notif, Notification::KlippyReady));
}

#[test]
fn test_notification_is_none_for_rpc_response() {
    let result = JsonValue::Object(vec![("connection_id".to_string(), JsonValue::String("abc".into()))]);
    let m = msg(Some(42), None, None, Some(result));
    assert!(Notification::from_message(m).is_none());
}

#[test]
fn notification_gcode_response_array_is_json_text() {
    let params = JsonValue::Array(vec![JsonValue::String("// probe at 1.0,2.0 is z=\"0.1\"\n".into())]);
    let n = Notification::from_message(msg(None, Some("notify_gcode_response"), Some(params), None)).unwrap();
    match n {
        Notification::GcodeResponse(t) => assert_eq!(t, "[\"// probe at 1.0,2.0 is z=\\\"0.1\\\"\\n\"]"),
        _ => panic!("wrong notification type"),
    }
    let n = Notification::from_message(msg(None, Some("notify_klippy_error"), Some(JsonValue::String("boom".into())), None)).unwrap();
    assert!(matches!(n, Notification::KlippyError(ref t) if t == "boom"));
    let n = Notification::from_message(msg(None, Some("notify_klippy_error"), None, None)).unwrap();
    assert!(matches!(n, Notification::KlippyError(ref t) if t == "null"));
}

#[test]
fn notification_status_update_needs_array_and_unknown_keeps_params() {
    assert!(Notification::from_message(msg(None, Some("notify_status_update"), Some(num("1")), None)).is_none());
    let n = Notification::from_message(msg(None, Some("notify_status_update"), Some(JsonValue::Array(vec![])), None)).unwrap();
    assert!(matches!(n, Notification::StatusUpdate { ref objects, eventtime: None } if objects.is_empty()));
    let n = Notification::from_message(msg(None, Some("notify_proc_stat_update"), Some(JsonValue::Bool(true)), None)).unwrap();
    assert!(matches!(n, Notification::Unknown { ref method, params: JsonValue::Bool(true) } if method == "notify_proc_stat_update"));
    assert!(matches!(Notification::from_message(msg(None, Some("notify_klippy_shutdown"), None, None)), Some(Notification::KlippyShutdown)));
    assert!(matches!(Notification::from_message(msg(None, Some("notify_klippy_disconnected"), None, None)), Some(Notification::KlippyDisconnected)));
}

#[test]
fn json_text_matches_serde_json() {
    let v = JsonValue::Object(vec![
        ("a".to_string(), JsonValue::Array(vec![num("1"), JsonValue::Null, JsonValue::Bool(false)])),
        ("b\tc".to_string(), JsonValue::String("q\"\\\u{1}\u{8}\u{c}\r/é".into())),
        ("e".to_string(), JsonValue::Object(vec![])),
    ]);
    let mut out = String::new();
    write_json(&v, &mut out);
    let parsed: serde_json::Value =
        serde_json::from_str(r#"{"a":[1,null,false],"b\tc":"q\"\\\u0001\b\f\r/é","e":{}}"#).unwrap();
    assert_eq!(out, parsed.to_string());
    assert_eq!(out, r#"{"a":[1,null,false],"b\tc":"q\"\\\u0001\b\f\r/é","e":{}}"#);
}
