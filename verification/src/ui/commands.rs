//! What the screen's buttons ask of the printer: the G-code each command
//! sends, the label its failure is reported under, and the lines the
//! console shows for a command and its reply.
use vstd::prelude::*;
use vstd::string::StringExecFns;
use crate::klipper::gcode::{format_home_all, format_home_axis, is_axis};
use crate::moonraker::client::{error_text, MoonrakerError};
use crate::ui::led::{brightness_text, LedControl};

verus! {

/// A screen command that is carried out by one request to the printer.
#[derive(Debug)]
pub enum ScreenCommand {
    EmergencyStop,
    SendGcode(String),
    HomeAll,
    HomeAxis(char),
    ToggleLed,
    SetLedBrightness(u8),
    StartPrint(String),
    DeleteFile(String),
    CalibrateMesh,
    RunShaperCalibration,
    RefreshWifiNetworks,
    DisconnectWifi,
    ConnectWifi { ssid: String, password: String },
    StartTouchCal,
}

/// The request a command makes.
#[derive(Debug)]
pub enum PrinterRequest {
    /// The emergency-stop call of the Moonraker API.
    EmergencyStop,
    /// A G-code script.
    Gcode(String),
}

/// How a command is carried out: the request, the label a failure is
/// reported under (`"{label} failed: {error}"`), and whether success
/// leaves every axis at its home position.
#[derive(Debug)]
pub struct Dispatch {
    pub request: PrinterRequest,
    pub failure_label: String,
    pub homes_all: bool,
}

/// The G-code of the LED after a command: its brightness when on, 0 when off.
pub open spec fn led_script(led: LedControl) -> Seq<char> {
    if led.on() {
        "SET_LED LED=chamber_light WHITE="@ + brightness_text(led.level() as nat)
    } else {
        "SET_LED LED=chamber_light WHITE=0.0"@
    }
}

/// The G-code script a command sends (`None` for the emergency stop, which
/// is an API call), given the LED as the command leaves it.
pub open spec fn command_script(cmd: ScreenCommand, led: LedControl) -> Option<Seq<char>> {
    match cmd {
        ScreenCommand::EmergencyStop => None,
        ScreenCommand::SendGcode(g) => Some(g@),
        ScreenCommand::HomeAll => Some("G28"@),
        ScreenCommand::HomeAxis(a) => Some(if is_axis(a) { "G28 "@.push(a) } else { "G28"@ }),
        ScreenCommand::ToggleLed => Some(led_script(led)),
        ScreenCommand::SetLedBrightness(_) => Some(
            "SET_LED LED=chamber_light WHITE="@ + brightness_text(led.level() as nat),
        ),
        ScreenCommand::StartPrint(p) => Some("PRINT_FILE FILENAME="@ + p@),
        ScreenCommand::DeleteFile(p) => Some("DELETE_FILE FILENAME="@ + p@),
        ScreenCommand::CalibrateMesh => Some("BED_MESH_CALIBRATE"@),
        ScreenCommand::RunShaperCalibration => Some("SHAPER_CALIBRATE"@),
        ScreenCommand::RefreshWifiNetworks => Some("WIFI_SCAN"@),
        ScreenCommand::DisconnectWifi => Some("WIFI_DISCONNECT"@),
        ScreenCommand::ConnectWifi { ssid, password } => Some(
            "WIFI_CONNECT SSID=\""@ + ssid@ + "\" PASSWORD=\""@ + password@ + "\""@,
        ),
        ScreenCommand::StartTouchCal => Some("TOUCH_CALIBRATE"@),
    }
}

/// The label a command's failure is reported under.
pub open spec fn failure_label_of(cmd: ScreenCommand) -> Seq<char> {
    match cmd {
        ScreenCommand::EmergencyStop => "Emergency stop"@,
        ScreenCommand::SendGcode(_) => "Command"@,
        ScreenCommand::HomeAll => "Home"@,
        ScreenCommand::HomeAxis(_) => "Home"@,
        ScreenCommand::ToggleLed => "LED command"@,
        ScreenCommand::SetLedBrightness(_) => "LED brightness"@,
        ScreenCommand::StartPrint(_) => "Print"@,
        ScreenCommand::DeleteFile(_) => "Delete"@,
        ScreenCommand::CalibrateMesh => "Bed mesh calibration"@,
        ScreenCommand::RunShaperCalibration => "Input shaper calibration"@,
        ScreenCommand::RefreshWifiNetworks => "WiFi scan"@,
        ScreenCommand::DisconnectWifi => "WiFi disconnect"@,
        ScreenCommand::ConnectWifi { .. } => "WiFi connect"@,
        ScreenCommand::StartTouchCal => "Touch calibration"@,
    }
}

/// What a command does to the LED state: a toggle flips it, a brightness
/// command sets the level (limited to 100); others leave it as it is.
pub open spec fn led_after(cmd: ScreenCommand, led: LedControl, after: LedControl) -> bool {
    match cmd {
        ScreenCommand::ToggleLed => after.on() == !led.on() && after.level() == led.level(),
        ScreenCommand::SetLedBrightness(b) => after.on() == led.on() && after.level() == (if b
            < 100 {
            b
        } else {
            100
        }),
        _ => after == led,
    }
}

fn text_after(prefix: &str, rest: &str) -> (r: String)
    ensures
        r@ == prefix@ + rest@,
{
    let mut s = prefix.to_string();
    s.append(rest);
    s
}

/// Works out how a command is carried out, updating the LED state first
/// where the command is about the LED.
pub fn dispatch(cmd: ScreenCommand, led: &mut LedControl) -> (d: Dispatch)
    ensures
        led_after(cmd, *old(led), *final(led)),
        d.failure_label@ == failure_label_of(cmd),
        d.homes_all == (cmd is HomeAll),
        command_script(cmd, *final(led)) matches Some(s) ==> (d.request matches PrinterRequest::Gcode(g)
            && g@ == s),
        command_script(cmd, *final(led)) is None ==> d.request is EmergencyStop,
{
    let homes_all = match &cmd {
        ScreenCommand::HomeAll => true,
        _ => false,
    };
    let (request, label) = match cmd {
        ScreenCommand::EmergencyStop => (PrinterRequest::EmergencyStop, "Emergency stop"),
        ScreenCommand::SendGcode(g) => (PrinterRequest::Gcode(g), "Command"),
        ScreenCommand::HomeAll => (PrinterRequest::Gcode(format_home_all()), "Home"),
        ScreenCommand::HomeAxis(a) => (PrinterRequest::Gcode(format_home_axis(a)), "Home"),
        ScreenCommand::ToggleLed => {
            led.toggle();
            let g = if led.is_on() {
                led.led_on_gcode()
            } else {
                led.led_off_gcode()
            };
            (PrinterRequest::Gcode(g), "LED command")
        },
        ScreenCommand::SetLedBrightness(b) => {
            led.set_brightness(b);
            (PrinterRequest::Gcode(led.set_brightness_gcode()), "LED brightness")
        },
        ScreenCommand::StartPrint(p) => (
            PrinterRequest::Gcode(text_after("PRINT_FILE FILENAME=", p.as_str())),
            "Print",
        ),
        ScreenCommand::DeleteFile(p) => (
            PrinterRequest::Gcode(text_after("DELETE_FILE FILENAME=", p.as_str())),
            "Delete",
        ),
        ScreenCommand::CalibrateMesh => (
            PrinterRequest::Gcode("BED_MESH_CALIBRATE".to_string()),
            "Bed mesh calibration",
        ),
        ScreenCommand::RunShaperCalibration => (
            PrinterRequest::Gcode("SHAPER_CALIBRATE".to_string()),
            "Input shaper calibration",
        ),
        ScreenCommand::RefreshWifiNetworks => (
            PrinterRequest::Gcode("WIFI_SCAN".to_string()),
            "WiFi scan",
        ),
        ScreenCommand::DisconnectWifi => (
            PrinterRequest::Gcode("WIFI_DISCONNECT".to_string()),
            "WiFi disconnect",
        ),
        ScreenCommand::ConnectWifi { ssid, password } => {
            let mut s = text_after("WIFI_CONNECT SSID=\"", ssid.as_str());
            s.append("\" PASSWORD=\"");
            s.append(password.as_str());
            s.append("\"");
            (PrinterRequest::Gcode(s), "WiFi connect")
        },
        ScreenCommand::StartTouchCal => (
            PrinterRequest::Gcode("TOUCH_CALIBRATE".to_string()),
            "Touch calibration",
        ),
    };
    Dispatch { request, failure_label: label.to_string(), homes_all }
}

/// The message shown when a command fails: `"{label} failed: {error}"`.
pub fn failure_message(label: &str, error: &MoonrakerError) -> (r: String)
    ensures
        r@ == label@ + " failed: "@ + error_text(*error),
{
    let mut s = text_after(label, " failed: ");
    let e = error.message();
    s.append(e.as_str());
    s
}

/// The console entry for a command sent from the console: the command
/// after `"> "`, then on the next line the reply, or the error after
/// `"Error: "`.
pub fn console_entry(gcode: &str, reply: &Result<String, MoonrakerError>) -> (r: String)
    ensures
        r@ == "> "@ + gcode@ + "\n"@ + match *reply {
            Ok(t) => t@,
            Err(e) => "Error: "@ + error_text(e),
        },
{
    let mut s = text_after("> ", gcode);
    s.append("\n");
    match reply {
        Ok(t) => s.append(t.as_str()),
        Err(e) => {
            s.append("Error: ");
            let m = e.message();
            s.append(m.as_str());
        },
    }
    s
}

} // verus!
