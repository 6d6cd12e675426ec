use vector_screen::klipper::gcode::{
    format_emergency_stop, format_home_all, format_home_axis, format_led_brightness,
    format_led_off, format_led_on, format_set_fan_speed, format_set_output_pin,
};

#[test]
fn test_format_emergency_stop() {
    assert_eq!(format_emergency_stop(), "M112");
}

#[test]
fn test_format_home_all() {
    assert_eq!(format_home_all(), "G28");
}

#[test]
fn test_format_home_axis() {
    assert_eq!(format_home_axis('X'), "G28 X");
    assert_eq!(format_home_axis('Y'), "G28 Y");
    assert_eq!(format_home_axis('Z'), "G28 Z");
    assert_eq!(format_home_axis('A'), "G28");
}

#[test]
fn test_format_led_on() {
    assert_eq!(format_led_on(), "SET_LED LED=chamber_light WHITE=1");
}

#[test]
fn test_format_led_off() {
    assert_eq!(format_led_off(), "SET_LED LED=chamber_light WHITE=0");
}

#[test]
fn test_format_led_brightness() {
    assert_eq!(format_led_brightness(0), "SET_LED LED=chamber_light WHITE=0.00");
    assert_eq!(format_led_brightness(50), "SET_LED LED=chamber_light WHITE=0.50");
    assert_eq!(format_led_brightness(100), "SET_LED LED=chamber_light WHITE=1.00");
}

#[test]
fn test_format_set_fan_speed() {
    assert_eq!(format_set_fan_speed("part_fan", 0), "SET_FAN_SPEED FAN=part_fan SPEED=0.00");
    assert_eq!(format_set_fan_speed("part_fan", 50), "SET_FAN_SPEED FAN=part_fan SPEED=0.50");
    assert_eq!(format_set_fan_speed("part_fan", 100), "SET_FAN_SPEED FAN=part_fan SPEED=1.00");
}

#[test]
fn test_format_set_output_pin() {
    assert_eq!(format_set_output_pin("exhaust_fan", 75), "SET_PIN PIN=exhaust_fan VALUE=0.75");
}

#[test]
fn gcode_led_brightness_above_hundred() {
    assert_eq!(format_led_brightness(255), "SET_LED LED=chamber_light WHITE=2.55");
    assert_eq!(format_set_output_pin("p", 7), "SET_PIN PIN=p VALUE=0.07");
}
