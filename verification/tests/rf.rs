use sigint::rf::{parse_datetime_utc, parse_hackrf_fields, timestamp_or};
use sigint::tile::time_bucket;

#[test]
fn parse_valid_line() {
    let line = "2024-01-15, 12:30:00, 2400000000, 2500000000, 1000000, 10, -72.3, -68.1, -74.5";
    let obs = parse_hackrf_fields(line).unwrap();
    assert_eq!(obs.freq_start_hz, 2_400_000_000);
    assert_eq!(obs.freq_end_hz, 2_500_000_000);
    assert_eq!(obs.bin_hz, 1_000_000);
    assert_eq!(obs.bin_fields.len(), 3);
    let first: f64 = obs.bin_fields[0].parse().unwrap();
    assert!((first - (-72.3)).abs() < 1e-9);
}

#[test]
fn parse_empty_line_returns_none() {
    assert!(parse_hackrf_fields("").is_none());
    assert!(parse_hackrf_fields("   ").is_none());
    assert!(parse_hackrf_fields("# comment").is_none());
}

#[test]
fn parse_too_few_fields_returns_none() {
    assert!(parse_hackrf_fields("2024-01-15, 12:30:00, 100").is_none());
}

#[test]
fn hackrf_line_timestamp_and_fields() {
    let line = "  2024-01-15, 12:30:00, 2400000000, 2500000000, 1000000, 10, -72.3 ,x  ";
    let obs = parse_hackrf_fields(line).unwrap();
    assert_eq!(obs.timestamp_utc, 1_705_321_800);
    assert_eq!(obs.bin_fields, vec!["-72.3".to_string(), "x".to_string()]);
}

#[test]
fn hackrf_bad_frequency_is_refused() {
    assert!(parse_hackrf_fields("d, t, abc, 2, 3, 4, -1").is_none());
    assert!(parse_hackrf_fields("d, t, 1, 2, -3, 4, -1").is_none());
    assert!(parse_hackrf_fields("d, t, 1, 2, 3, 4, -1").is_some());
}

#[test]
fn datetime_parses_as_utc() {
    assert_eq!(parse_datetime_utc(" 2024-01-15 ", "12:30:00"), 1_705_321_800);
    assert_eq!(parse_datetime_utc("1970-01-01", "00:01:00"), 60);
}

#[test]
fn timestamp_fallback() {
    assert_eq!(timestamp_or(Some(5), 9), 5);
    assert_eq!(timestamp_or(None, 9), 9);
    assert_eq!(timestamp_or(Some(-1), 9), u64::MAX);
}

#[test]
fn time_bucket_rounds_down() {
    assert_eq!(time_bucket(1740000090), 1740000060);
}

#[test]
fn time_bucket_on_boundary() {
    assert_eq!(time_bucket(1740000060), 1740000060);
    assert_eq!(time_bucket(59), 0);
}
