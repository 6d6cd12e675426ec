use vector_screen::ui::tuning::TuningControl;

#[test]
fn test_adjust_speed() {
    let mut control = TuningControl::new();
    control.adjust_speed(10);
    assert_eq!(control.speed_multiplier, 110);
    control.adjust_speed(-20);
    assert_eq!(control.speed_multiplier, 90);
}

#[test]
fn test_speed_clamping() {
    let mut control = TuningControl::new();
    control.adjust_speed(-100);
    assert_eq!(control.speed_multiplier, 50);
    control.adjust_speed(200);
    assert_eq!(control.speed_multiplier, 200);
}

#[test]
fn test_adjust_flow() {
    let mut control = TuningControl::new();
    control.adjust_flow(5);
    assert_eq!(control.flow_rate, 105);
    control.adjust_flow(-10);
    assert_eq!(control.flow_rate, 95);
}

#[test]
fn test_flow_clamping() {
    let mut control = TuningControl::new();
    control.adjust_flow(-100);
    assert_eq!(control.flow_rate, 50);
    control.adjust_flow(200);
    assert_eq!(control.flow_rate, 200);
}

#[test]
fn test_speed_gcode() {
    let mut control = TuningControl::new();
    control.adjust_speed(20);
    assert_eq!(control.speed_gcode(), "M220 S120");
}

#[test]
fn test_flow_gcode() {
    let mut control = TuningControl::new();
    control.adjust_flow(-5);
    assert_eq!(control.flow_gcode(), "M221 S95");
}

#[test]
fn tuning_defaults_and_range() {
    let control = TuningControl::default();
    assert_eq!((control.speed_multiplier, control.flow_rate), (100, 100));
    let mut wild = TuningControl { speed_multiplier: -7, flow_rate: 900 };
    wild.adjust_speed(0);
    wild.adjust_flow(0);
    assert_eq!((wild.speed_multiplier, wild.flow_rate), (50, 200));
    assert_eq!(TuningControl { speed_multiplier: -7, flow_rate: 0 }.speed_gcode(), "M220 S-7");
}
