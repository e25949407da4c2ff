use std::time::Duration;
use webserve::text::{decimal_text, fmt_duration, fmt_nanos, fmt_size, status_class, StatusClass};

#[test]
fn decimal_numbers() {
    assert_eq!(decimal_text(0), "0");
    assert_eq!(decimal_text(7), "7");
    assert_eq!(decimal_text(10), "10");
    assert_eq!(decimal_text(1234567890), "1234567890");
    assert_eq!(decimal_text(u128::MAX), u128::MAX.to_string());
}

#[test]
fn durations_pick_their_unit() {
    assert_eq!(fmt_nanos(0), "0ns");
    assert_eq!(fmt_nanos(1500), "1500ns");
    assert_eq!(fmt_nanos(2_500), "2.500\u{3bc}s");
    assert_eq!(fmt_nanos(2_005), "2.05\u{3bc}s");
    assert_eq!(fmt_nanos(3_004_000), "3.04ms");
    assert_eq!(fmt_nanos(2_500_000_000), "2.2500s");
    assert_eq!(fmt_nanos(1_999_999_999), "1999.999ms");
}

#[test]
fn durations_from_std() {
    assert_eq!(fmt_duration(Duration::from_millis(5)), "5.00ms");
    assert_eq!(fmt_duration(Duration::from_micros(12)), "12.00\u{3bc}s");
    assert_eq!(fmt_duration(Duration::from_secs(3)), "3.3000s");
    assert_eq!(fmt_duration(Duration::from_nanos(1)), "1ns");
}

#[test]
fn sizes_in_kilobytes() {
    assert_eq!(fmt_size(0), "0.0 KB");
    assert_eq!(fmt_size(1024), "1.0 KB");
    assert_eq!(fmt_size(1536), "1.5 KB");
    assert_eq!(fmt_size(100), "0.1 KB");
    for size in (0u64..20_000).chain([1 << 40, 123_456_789]) {
        assert_eq!(fmt_size(size), format!("{:.1} KB", size as f64 / 1024.0), "size {}", size);
    }
}

#[test]
fn status_classes() {
    assert_eq!(status_class(200), StatusClass::Success);
    assert_eq!(status_class(299), StatusClass::Success);
    assert_eq!(status_class(301), StatusClass::Redirect);
    assert_eq!(status_class(404), StatusClass::ClientError);
    assert_eq!(status_class(503), StatusClass::ServerError);
    assert_eq!(status_class(199), StatusClass::Other);
    assert_eq!(status_class(600), StatusClass::Other);
}
