use molnctl::numfmt::{format_bytes, format_duration_ms, u64_to_dec};

#[test]
fn bytes_zero() {
    assert_eq!(format_bytes(0), "0 B");
}

#[test]
fn bytes_one_kilobyte() {
    assert_eq!(format_bytes(1024), "1.0 KB");
}

#[test]
fn bytes_one_and_a_half_kilobytes() {
    assert_eq!(format_bytes(1536), "1.5 KB");
}

#[test]
fn bytes_one_gigabyte() {
    assert_eq!(format_bytes(1073741824), "1.0 GB");
}

#[test]
fn bytes_below_threshold() {
    assert_eq!(format_bytes(1023), "1023 B");
}

#[test]
fn bytes_megabytes() {
    assert_eq!(format_bytes(1024 * 1024), "1.0 MB");
    assert_eq!(format_bytes(1500 * 1024), "1.4 MB");
}

#[test]
fn bytes_terabytes() {
    assert_eq!(format_bytes(1024u64 * 1024 * 1024 * 1024), "1.0 TB");
    assert_eq!(format_bytes(u64::MAX), "16777215.9 TB");
}

#[test]
fn duration_milliseconds() {
    assert_eq!(format_duration_ms(0), "0ms");
    assert_eq!(format_duration_ms(999), "999ms");
}

#[test]
fn duration_seconds_one_decimal() {
    assert_eq!(format_duration_ms(1000), "1.0s");
    assert_eq!(format_duration_ms(1500), "1.5s");
    assert_eq!(format_duration_ms(59999), "59.9s");
}

#[test]
fn duration_minutes_one_decimal() {
    assert_eq!(format_duration_ms(60000), "1.0m");
    assert_eq!(format_duration_ms(90000), "1.5m");
    assert_eq!(format_duration_ms(150000), "2.5m");
}

#[test]
fn decimal_rendering() {
    assert_eq!(u64_to_dec(0), "0");
    assert_eq!(u64_to_dec(7), "7");
    assert_eq!(u64_to_dec(1234567890), "1234567890");
    assert_eq!(u64_to_dec(u64::MAX), "18446744073709551615");
}
