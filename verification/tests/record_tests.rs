use sensorlog::record::{format_record, render_fixed, Reading};
use sensorlog::clock::timestamped_record;
use sensorlog::{LogConfig, DEFAULT_CAPACITY, DEFAULT_PERIOD_SECS};

#[test]
fn render_fixed_pads_two_fraction_digits() {
    assert_eq!(render_fixed(101325), b"1013.25".to_vec());
    assert_eq!(render_fixed(2250), b"22.50".to_vec());
    assert_eq!(render_fixed(0), b"0.00".to_vec());
    assert_eq!(render_fixed(5), b"0.05".to_vec());
    assert_eq!(render_fixed(50), b"0.50".to_vec());
    assert_eq!(render_fixed(100), b"1.00".to_vec());
}

#[test]
fn render_fixed_negative_values() {
    assert_eq!(render_fixed(-250), b"-2.50".to_vec());
    assert_eq!(render_fixed(-5), b"-0.05".to_vec());
    assert_eq!(render_fixed(i32::MIN), b"-21474836.48".to_vec());
    assert_eq!(render_fixed(i32::MAX), b"21474836.47".to_vec());
}

#[test]
fn format_without_timestamp_has_two_fields() {
    let r = Reading { pressure_centi: 101325, temperature_centi: 2250 };
    let line = format_record(&r, None);
    assert_eq!(line, b"1013.25 22.50".to_vec());
}

#[test]
fn format_with_timestamp_appends_third_field() {
    let r = Reading { pressure_centi: 101325, temperature_centi: 2250 };
    let ts = b"2024-01-02T03:04:05+00:00".to_vec();
    let line = format_record(&r, Some(&ts));
    assert_eq!(line, b"1013.25 22.50 2024-01-02T03:04:05+00:00".to_vec());
}

#[test]
fn format_is_deterministic() {
    let r = Reading { pressure_centi: -123, temperature_centi: 99999 };
    let ts = b"t".to_vec();
    assert_eq!(format_record(&r, None), format_record(&r, None));
    assert_eq!(format_record(&r, Some(&ts)), format_record(&r, Some(&ts)));
}

#[test]
fn timestamped_record_has_three_clean_fields() {
    let r = Reading { pressure_centi: 101325, temperature_centi: 2250 };
    let line = timestamped_record(&r);
    let text = String::from_utf8(line).unwrap();
    assert!(text.starts_with("1013.25 22.50 "));
    assert!(!text.contains('\n'));
    assert_eq!(text.split(' ').count(), 3);
    assert!(text.split(' ').all(|field| !field.is_empty()));
}

#[test]
fn default_config_matches_observed_deployment() {
    let c = LogConfig::default();
    assert_eq!(c.capacity, 100);
    assert_eq!(c.capacity, DEFAULT_CAPACITY);
    assert_eq!(c.period_secs, 300);
    assert_eq!(c.period_secs, DEFAULT_PERIOD_SECS);
}
