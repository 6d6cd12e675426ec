use vector_screen::json::{write_json, JsonValue};
use vector_screen::moonraker::message::{status_field, Notification};
use vector_screen::ui::screen::{screen_change, should_subscribe, status_subscription, Banner};

#[test]
fn screen_changes_for_notifications() {
    let c = screen_change(&Notification::KlippyDisconnected);
    assert_eq!(c.connected, Some(false));
    assert_eq!(c.banner, Banner::Show("Klipper disconnected".into()));
    let c = screen_change(&Notification::KlippyError("MCU 'mcu' shutdown".into()));
    assert_eq!(c.connected, None);
    assert_eq!(c.banner, Banner::Show("MCU 'mcu' shutdown".into()));
    let c = screen_change(&Notification::ConnectionState { connected: false });
    assert_eq!(c.connected, Some(false));
    assert_eq!(c.banner, Banner::Show("Connection lost \u{2014} reconnecting...".into()));
    let c = screen_change(&Notification::ConnectionState { connected: true });
    assert_eq!(c.connected, Some(true));
    assert_eq!(c.banner, Banner::Hide);
    for n in [Notification::KlippyReady, Notification::KlippyShutdown, Notification::GcodeResponse("ok".into())] {
        let c = screen_change(&n);
        assert_eq!(c.connected, None);
        assert_eq!(c.banner, Banner::Keep);
    }
}

#[test]
fn screen_subscription_params() {
    let mut out = String::new();
    write_json(&status_subscription(), &mut out);
    assert_eq!(out, "{\"objects\":{\"extruder\":null,\"heater_bed\":null,\"print_stats\":null,\"toolhead\":null}}");
}

#[test]
fn screen_status_field_lookup() {
    let objects = vec![
        (
            "print_stats".to_string(),
            JsonValue::Object(vec![
                ("state".to_string(), JsonValue::String("printing".into())),
                ("filename".to_string(), JsonValue::String("cube.gcode".into())),
            ]),
        ),
        ("extruder".to_string(), JsonValue::Object(vec![("target".to_string(), JsonValue::Number("215.0".into()))])),
    ];
    assert!(matches!(status_field(&objects, "print_stats", "filename"), Some(JsonValue::String(f)) if f == "cube.gcode"));
    assert!(matches!(status_field(&objects, "extruder", "target"), Some(JsonValue::Number(t)) if t == "215.0"));
    assert!(status_field(&objects, "extruder", "temperature").is_none());
    assert!(status_field(&objects, "toolhead", "position").is_none());
}

#[test]
fn screen_subscribes_once_on_ready() {
    assert!(should_subscribe(&Notification::KlippyReady, false));
    assert!(!should_subscribe(&Notification::KlippyReady, true));
    assert!(!should_subscribe(&Notification::KlippyShutdown, false));
}
