//! G-code formatting for the commands the screen sends.
use vstd::prelude::*;
use vstd::string::StringExecFns;
use crate::text::{hundredths, push_char, push_hundredths};

verus! {

pub fn format_emergency_stop() -> (r: String)
    ensures
        r@ == "M112"@,
{
    "M112".to_string()
}

pub fn format_home_all() -> (r: String)
    ensures
        r@ == "G28"@,
{
    "G28".to_string()
}

/// Whether `axis` names a homeable axis.
pub open spec fn is_axis(axis: char) -> bool {
    axis == 'X' || axis == 'Y' || axis == 'Z'
}

/// "G28 {axis}" for X, Y or Z; plain "G28" (home all) for anything else.
pub fn format_home_axis(axis: char) -> (r: String)
    ensures
        r@ == if is_axis(axis) { "G28 "@.push(axis) } else { "G28"@ },
{
    if axis == 'X' || axis == 'Y' || axis == 'Z' {
        let mut s = "G28 ".to_string();
        push_char(&mut s, axis);
        s
    } else {
        "G28".to_string()
    }
}

pub fn format_led_on() -> (r: String)
    ensures
        r@ == "SET_LED LED=chamber_light WHITE=1"@,
{
    "SET_LED LED=chamber_light WHITE=1".to_string()
}

pub fn format_led_off() -> (r: String)
    ensures
        r@ == "SET_LED LED=chamber_light WHITE=0"@,
{
    "SET_LED LED=chamber_light WHITE=0".to_string()
}

/// Brightness 0-255 as a fraction of 100 with two decimals.
pub fn format_led_brightness(brightness: u8) -> (r: String)
    ensures
        r@ == "SET_LED LED=chamber_light WHITE="@ + hundredths(brightness as nat),
{
    let mut s = "SET_LED LED=chamber_light WHITE=".to_string();
    push_hundredths(&mut s, brightness as u64);
    s
}

/// `SET_FAN_SPEED FAN={fan_name} SPEED={speed/100 with two decimals}`.
pub fn format_set_fan_speed(fan_name: &str, speed: u8) -> (r: String)
    ensures
        r@ == "SET_FAN_SPEED FAN="@ + fan_name@ + " SPEED="@ + hundredths(speed as nat),
{
    let mut s = "SET_FAN_SPEED FAN=".to_string();
    s.append(fan_name);
    s.append(" SPEED=");
    push_hundredths(&mut s, speed as u64);
    s
}

/// `SET_PIN PIN={pin_name} VALUE={value/100 with two decimals}`.
pub fn format_set_output_pin(pin_name: &str, value: u8) -> (r: String)
    ensures
        r@ == "SET_PIN PIN="@ + pin_name@ + " VALUE="@ + hundredths(value as nat),
{
    let mut s = "SET_PIN PIN=".to_string();
    s.append(pin_name);
    s.append(" VALUE=");
    push_hundredths(&mut s, value as u64);
    s
}

} // verus!
