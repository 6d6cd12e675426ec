use vector_screen::json::JsonValue;
use vector_screen::moonraker::client::{Delivery, MoonrakerConfig, MoonrakerError};
use vector_screen::moonraker::connection::Session;
use vector_screen::moonraker::message::{JsonRpcMessage, Notification};

fn reply(id: u64) -> JsonRpcMessage {
    JsonRpcMessage {
        jsonrpc: Some("2.0".into()),
        id: Some(id),
        method: None,
        params: None,
        result: Some(JsonValue::Bool(true)),
        error: None,
    }
}

#[test]
fn session_identifies_with_fresh_ids() {
    let mut s: Session<&str> = Session::new(&MoonrakerConfig::default());
    assert_eq!(s.next_request_id(), 1);
    let req = s.on_connected();
    assert_eq!(req.id, 1);
    assert_eq!(req.method, "server.connection.identify");
    assert_eq!(
        req.to_text(),
        "{\"jsonrpc\":\"2.0\",\"method\":\"server.connection.identify\",\"params\":{\"client_name\":\"VectorScreen\",\"type\":\"web\",\"version\":\"0.1.0\"},\"id\":1}"
    );
    assert_eq!(s.on_connected().id, 2);
    assert_eq!(s.next_request_id(), 3);
}

#[test]
fn session_backoff_and_reset() {
    let mut s: Session<()> = Session::new(&MoonrakerConfig::default());
    assert_eq!(s.on_connect_failed().0, 1000);
    assert_eq!(s.on_connect_failed().0, 2000);
    assert_eq!(s.on_connect_failed().0, 4000);
    let _ = s.on_connected();
    let (failed, wait, _notices) = s.on_connection_lost();
    assert!(failed.is_empty());
    assert_eq!(wait, 1000);
    for _ in 0..10 {
        s.on_connect_failed();
    }
    assert_eq!(s.on_connect_failed().0, 30000);
}

#[test]
fn session_reply_answers_request_once() {
    let mut s: Session<&str> = Session::new(&MoonrakerConfig::default());
    assert!(s.on_request(7, "seven").is_none());
    match s.on_message(reply(7)) {
        Delivery::Reply { responder, outcome } => {
            assert_eq!(responder, "seven");
            assert!(matches!(outcome, Ok(JsonValue::Bool(true))));
        },
        _ => panic!("expected a reply"),
    }
    assert!(matches!(s.on_message(reply(7)), Delivery::Ignore));
}

#[test]
fn session_send_failure_and_disconnect() {
    let mut s: Session<&str> = Session::new(&MoonrakerConfig::default());
    s.on_request(1, "a");
    s.on_request(2, "b");
    s.on_request(3, "c");
    let f = s.on_send_failed(2, "broken pipe".into()).unwrap();
    assert_eq!((f.id, f.responder), (2, "b"));
    assert!(matches!(f.error, MoonrakerError::WebSocketError(ref m) if m == "broken pipe"));
    assert!(s.on_send_failed(2, "again".into()).is_none());
    let (failed, wait, _notices) = s.on_connection_lost();
    assert_eq!(wait, 1000);
    let mut got: Vec<(u64, &str)> = failed.iter().map(|f| (f.id, f.responder)).collect();
    got.sort();
    assert_eq!(got, vec![(1, "a"), (3, "c")]);
    assert!(failed.iter().all(|f| matches!(f.error, MoonrakerError::WebSocketError(ref m) if m == "disconnected")));
    assert!(s.on_shutdown().is_empty());
}

#[test]
fn session_shutdown_closes_every_request() {
    let mut s: Session<&str> = Session::new(&MoonrakerConfig::default());
    s.on_request(4, "x");
    assert_eq!(s.on_request(4, "y"), Some("x"));
    let failed = s.on_shutdown();
    assert_eq!(failed.len(), 1);
    assert_eq!(failed[0].responder, "y");
    assert!(matches!(failed[0].error, MoonrakerError::ChannelClosed));
}

#[test]
fn session_config_for_printer() {
    let c = MoonrakerConfig::for_printer("10.0.0.5", 7125);
    assert_eq!(c.http_url, "http://10.0.0.5:7125");
    assert_eq!(c.ws_url, "ws://10.0.0.5:7125/websocket");
    assert_eq!(c.client_name, "VectorScreen");
    assert_eq!(c.reconnect_delay_max_ms, 30000);
}

#[test]
fn session_failures_tell_the_screen() {
    let mut s: Session<()> = Session::new(&MoonrakerConfig::default());
    let (_, notice) = s.on_connect_failed();
    assert!(matches!(notice, Notification::ConnectionState { connected: false }));
    let _ = s.on_connected();
    let (_, _, notices) = s.on_connection_lost();
    assert_eq!(notices.len(), 2);
    assert!(notices.iter().all(|n| matches!(n, Notification::ConnectionState { connected: false })));
}
