use vector_screen::ui::motion::MovementSpeed;
use vector_screen::ui::thermal::MaterialPreset;

#[test]
fn test_pla_temps() {
    assert_eq!(MaterialPreset::Pla.extruder_celsius(), 220);
    assert_eq!(MaterialPreset::Pla.bed_celsius(), 60);
}

#[test]
fn test_petg_temps() {
    assert_eq!(MaterialPreset::Petg.extruder_celsius(), 250);
    assert_eq!(MaterialPreset::Petg.bed_celsius(), 80);
}

#[test]
fn test_abs_temps() {
    assert_eq!(MaterialPreset::Abs.extruder_celsius(), 260);
    assert_eq!(MaterialPreset::Abs.bed_celsius(), 100);
}

#[test]
fn test_speed_feed_rates() {
    assert_eq!(MovementSpeed::Slow.feed_rate_per_minute(), 1800);
    assert_eq!(MovementSpeed::Medium.feed_rate_per_minute(), 3000);
    assert_eq!(MovementSpeed::Fast.feed_rate_per_minute(), 6000);
}
