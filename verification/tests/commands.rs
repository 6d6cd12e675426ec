use vector_screen::moonraker::client::MoonrakerError;
use vector_screen::ui::commands::{console_entry, dispatch, failure_message, PrinterRequest, ScreenCommand};
use vector_screen::ui::led::LedControl;

fn script(cmd: ScreenCommand) -> String {
    let mut led = LedControl::new();
    match dispatch(cmd, &mut led).request {
        PrinterRequest::Gcode(g) => g,
        PrinterRequest::EmergencyStop => panic!("expected G-code"),
    }
}

#[test]
fn command_scripts() {
    assert_eq!(script(ScreenCommand::SendGcode("M105".into())), "M105");
    assert_eq!(script(ScreenCommand::HomeAll), "G28");
    assert_eq!(script(ScreenCommand::HomeAxis('Y')), "G28 Y");
    assert_eq!(script(ScreenCommand::HomeAxis('Q')), "G28");
    assert_eq!(script(ScreenCommand::StartPrint("part.gcode".into())), "PRINT_FILE FILENAME=part.gcode");
    assert_eq!(script(ScreenCommand::DeleteFile("old.gcode".into())), "DELETE_FILE FILENAME=old.gcode");
    assert_eq!(script(ScreenCommand::CalibrateMesh), "BED_MESH_CALIBRATE");
    assert_eq!(script(ScreenCommand::RunShaperCalibration), "SHAPER_CALIBRATE");
    assert_eq!(script(ScreenCommand::RefreshWifiNetworks), "WIFI_SCAN");
    assert_eq!(script(ScreenCommand::DisconnectWifi), "WIFI_DISCONNECT");
    assert_eq!(script(ScreenCommand::StartTouchCal), "TOUCH_CALIBRATE");
    assert_eq!(
        script(ScreenCommand::ConnectWifi { ssid: "Home".into(), password: "pa ss".into() }),
        "WIFI_CONNECT SSID=\"Home\" PASSWORD=\"pa ss\""
    );
}

#[test]
fn command_emergency_stop_is_an_api_call() {
    let mut led = LedControl::new();
    let d = dispatch(ScreenCommand::EmergencyStop, &mut led);
    assert!(matches!(d.request, PrinterRequest::EmergencyStop));
    assert_eq!(d.failure_label, "Emergency stop");
    assert!(!d.homes_all);
}

#[test]
fn command_failure_labels() {
    let mut led = LedControl::new();
    let cases: Vec<(ScreenCommand, &str, bool)> = vec![
        (ScreenCommand::SendGcode("G0".into()), "Command", false),
        (ScreenCommand::HomeAll, "Home", true),
        (ScreenCommand::HomeAxis('X'), "Home", false),
        (ScreenCommand::ToggleLed, "LED command", false),
        (ScreenCommand::SetLedBrightness(10), "LED brightness", false),
        (ScreenCommand::StartPrint("a".into()), "Print", false),
        (ScreenCommand::DeleteFile("a".into()), "Delete", false),
        (ScreenCommand::CalibrateMesh, "Bed mesh calibration", false),
        (ScreenCommand::RunShaperCalibration, "Input shaper calibration", false),
        (ScreenCommand::RefreshWifiNetworks, "WiFi scan", false),
        (ScreenCommand::DisconnectWifi, "WiFi disconnect", false),
        (ScreenCommand::ConnectWifi { ssid: "a".into(), password: "b".into() }, "WiFi connect", false),
        (ScreenCommand::StartTouchCal, "Touch calibration", false),
    ];
    for (cmd, label, homes) in cases {
        let d = dispatch(cmd, &mut led);
        assert_eq!(d.failure_label, label);
        assert_eq!(d.homes_all, homes);
    }
}

#[test]
fn command_led_toggle_and_brightness() {
    let mut led = LedControl::new();
    let on = dispatch(ScreenCommand::ToggleLed, &mut led);
    assert!(led.is_on());
    assert!(matches!(on.request, PrinterRequest::Gcode(ref g) if g == "SET_LED LED=chamber_light WHITE=0.5"));
    let off = dispatch(ScreenCommand::ToggleLed, &mut led);
    assert!(!led.is_on());
    assert!(matches!(off.request, PrinterRequest::Gcode(ref g) if g == "SET_LED LED=chamber_light WHITE=0.0"));
    let b = dispatch(ScreenCommand::SetLedBrightness(250), &mut led);
    assert_eq!(led.brightness(), 100);
    assert!(!led.is_on());
    assert!(matches!(b.request, PrinterRequest::Gcode(ref g) if g == "SET_LED LED=chamber_light WHITE=1.0"));
    let _ = dispatch(ScreenCommand::HomeAll, &mut led);
    assert_eq!(led.brightness(), 100);
    assert!(!led.is_on());
}

#[test]
fn command_failure_message_text() {
    let e = MoonrakerError::HttpError("HTTP 500 Internal Server Error: boom".into());
    assert_eq!(failure_message("Print", &e), "Print failed: http error: HTTP 500 Internal Server Error: boom");
    assert_eq!(failure_message("Home", &MoonrakerError::Timeout), "Home failed: request timed out");
}

#[test]
fn command_console_entries() {
    assert_eq!(console_entry("M105", &Ok("ok T:20".to_string())), "> M105\nok T:20");
    assert_eq!(
        console_entry("G28", &Err(MoonrakerError::NotConnected)),
        "> G28\nError: not connected"
    );
}
