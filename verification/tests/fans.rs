use vector_screen::ui::fans::{format_fan_speed, format_output_pin, Fan, FanControl};

#[test]
fn fans_test_new_defaults() {
    let fan = FanControl::new();
    assert_eq!(fan.part_cooling, 0);
    assert_eq!(fan.aux_fan, 0);
    assert_eq!(fan.controller_fan, 0);
    assert_eq!(fan.exhaust_fan, 0);
}

#[test]
fn fans_test_default_trait() {
    let fan = FanControl::default();
    assert_eq!(fan.part_cooling, 0);
    assert_eq!(fan.aux_fan, 0);
    assert_eq!(fan.controller_fan, 0);
    assert_eq!(fan.exhaust_fan, 0);
}

#[test]
fn test_set_part_cooling() {
    let mut fan = FanControl::new();
    fan.set_part_cooling(75);
    assert_eq!(fan.part_cooling, 75);
}

#[test]
fn test_set_part_cooling_clamps_max() {
    let mut fan = FanControl::new();
    fan.set_part_cooling(150);
    assert_eq!(fan.part_cooling, 100);
}

#[test]
fn test_set_aux_fan() {
    let mut fan = FanControl::new();
    fan.set_aux_fan(50);
    assert_eq!(fan.aux_fan, 50);
}

#[test]
fn test_set_aux_fan_clamps_max() {
    let mut fan = FanControl::new();
    fan.set_aux_fan(200);
    assert_eq!(fan.aux_fan, 100);
}

#[test]
fn test_set_controller_fan() {
    let mut fan = FanControl::new();
    fan.set_controller_fan(100);
    assert_eq!(fan.controller_fan, 100);
}

#[test]
fn test_set_controller_fan_clamps_max() {
    let mut fan = FanControl::new();
    fan.set_controller_fan(128);
    assert_eq!(fan.controller_fan, 100);
}

#[test]
fn test_set_exhaust_fan() {
    let mut fan = FanControl::new();
    fan.set_exhaust_fan(30);
    assert_eq!(fan.exhaust_fan, 30);
}

#[test]
fn test_set_exhaust_fan_clamps_max() {
    let mut fan = FanControl::new();
    fan.set_exhaust_fan(255);
    assert_eq!(fan.exhaust_fan, 100);
}

#[test]
fn test_part_cooling_gcode_zero() {
    let mut fan = FanControl::new();
    fan.set_part_cooling(0);
    assert_eq!(fan.part_cooling_gcode(), "SET_FAN_SPEED FAN=part_fan SPEED=0.00");
}

#[test]
fn test_part_cooling_gcode_fifty() {
    let mut fan = FanControl::new();
    fan.set_part_cooling(50);
    assert_eq!(fan.part_cooling_gcode(), "SET_FAN_SPEED FAN=part_fan SPEED=0.50");
}

#[test]
fn test_part_cooling_gcode_hundred() {
    let mut fan = FanControl::new();
    fan.set_part_cooling(100);
    assert_eq!(fan.part_cooling_gcode(), "SET_FAN_SPEED FAN=part_fan SPEED=1.00");
}

#[test]
fn test_aux_fan_gcode() {
    let mut fan = FanControl::new();
    fan.set_aux_fan(75);
    assert_eq!(fan.aux_fan_gcode(), "SET_FAN_SPEED FAN=aux_fan SPEED=0.75");
}

#[test]
fn test_controller_fan_gcode() {
    let mut fan = FanControl::new();
    fan.set_controller_fan(100);
    assert_eq!(fan.controller_fan_gcode(), "SET_FAN_SPEED FAN=controller_fan SPEED=1.00");
}

#[test]
fn test_exhaust_fan_gcode_zero() {
    let mut fan = FanControl::new();
    fan.set_exhaust_fan(0);
    assert_eq!(fan.exhaust_fan_gcode(), "SET_PIN PIN=exhaust_fan VALUE=0.00");
}

#[test]
fn test_exhaust_fan_gcode_fifty() {
    let mut fan = FanControl::new();
    fan.set_exhaust_fan(50);
    assert_eq!(fan.exhaust_fan_gcode(), "SET_PIN PIN=exhaust_fan VALUE=0.50");
}

#[test]
fn test_exhaust_fan_gcode_hundred() {
    let mut fan = FanControl::new();
    fan.set_exhaust_fan(100);
    assert_eq!(fan.exhaust_fan_gcode(), "SET_PIN PIN=exhaust_fan VALUE=1.00");
}

#[test]
fn test_format_fan_speed_zero() {
    assert_eq!(format_fan_speed("part_fan", 0), "SET_FAN_SPEED FAN=part_fan SPEED=0.00");
}

#[test]
fn test_format_fan_speed_boundary_values() {
    assert_eq!(format_fan_speed("test_fan", 1), "SET_FAN_SPEED FAN=test_fan SPEED=0.01");
    assert_eq!(format_fan_speed("test_fan", 99), "SET_FAN_SPEED FAN=test_fan SPEED=0.99");
}

#[test]
fn test_format_output_pin() {
    assert_eq!(format_output_pin("exhaust_fan", 75), "SET_PIN PIN=exhaust_fan VALUE=0.75");
}

#[test]
fn fans_two_decimals_match_float_formatting() {
    for v in 0u8..=255 {
        let expected = format!("SET_FAN_SPEED FAN=f SPEED={:.2}", v as f64 / 100.0);
        assert_eq!(format_fan_speed("f", v), expected);
    }
}

#[test]
fn fans_toggle_buttons() {
    assert_eq!(FanControl::toggle(Fan::PartCooling, false), (true, "SET_FAN_SPEED FAN=part_fan SPEED=1.00".to_string()));
    assert_eq!(FanControl::toggle(Fan::PartCooling, true), (false, "SET_FAN_SPEED FAN=part_fan SPEED=0.00".to_string()));
    assert_eq!(FanControl::toggle(Fan::Aux, false), (true, "SET_FAN_SPEED FAN=aux_fan SPEED=1.00".to_string()));
    assert_eq!(FanControl::toggle(Fan::Controller, true), (false, "SET_FAN_SPEED FAN=controller_fan SPEED=0.00".to_string()));
    assert_eq!(FanControl::toggle(Fan::Exhaust, false), (true, "SET_PIN PIN=exhaust_fan VALUE=1.00".to_string()));
    assert_eq!(FanControl::toggle(Fan::Exhaust, true), (false, "SET_PIN PIN=exhaust_fan VALUE=0.00".to_string()));
}
