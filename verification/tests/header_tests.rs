use actix_web::http::header::{HeaderMap, HeaderName, HeaderValue};
use upload_headers::{parse_expiry_date, parse_header_filename, Duration, EXPIRE};

fn now_duration() -> Duration {
    let d = std::time::SystemTime::now()
        .duration_since(std::time::UNIX_EPOCH)
        .expect("clock before epoch");
    Duration::new(d.as_secs(), d.subsec_nanos())
}

#[test]
fn test_parse_header_filename_ascii() {
    let mut headers = HeaderMap::new();
    headers.insert(
        HeaderName::from_static("filename"),
        HeaderValue::from_static("hello.txt"),
    );
    let result = parse_header_filename(&headers).expect("valid filename");
    assert_eq!(result, Some("hello.txt".to_string()));
}

#[test]
fn test_parse_header_filename_unicode() {
    let mut headers = HeaderMap::new();
    // "测试文件.txt" percent-encoded
    headers.insert(
        HeaderName::from_static("filename"),
        HeaderValue::from_static("%E6%B5%8B%E8%AF%95%E6%96%87%E4%BB%B6.txt"),
    );
    let result = parse_header_filename(&headers).expect("valid filename");
    assert_eq!(result, Some("测试文件.txt".to_string()));
}

#[test]
fn test_parse_header_filename_emoji() {
    let mut headers = HeaderMap::new();
    // "📎attachment.zip" percent-encoded
    headers.insert(
        HeaderName::from_static("filename"),
        HeaderValue::from_static("%F0%9F%93%8Eattachment.zip"),
    );
    let result = parse_header_filename(&headers).expect("valid filename");
    assert_eq!(result, Some("📎attachment.zip".to_string()));
}

#[test]
fn test_parse_header_filename_none() {
    let headers = HeaderMap::new();
    let result = parse_header_filename(&headers).expect("no header is no error");
    assert_eq!(result, None);
}

#[test]
fn test_parse_header_filename_invalid_utf8() {
    let mut headers = HeaderMap::new();
    // 0xFF alone is not valid UTF-8
    headers.insert(
        HeaderName::from_static("filename"),
        HeaderValue::from_static("%FF.txt"),
    );
    let err = parse_header_filename(&headers).expect_err("invalid UTF-8 must fail");
    assert!(err.is_caller_fault());
    assert_eq!(err.message().as_str(), "file name is not valid UTF-8");
}

#[test]
fn test_expiry_date() {
    let mut headers = HeaderMap::new();
    headers.insert(HeaderName::from_static(EXPIRE), HeaderValue::from_static("5ms"));
    let time = now_duration();
    let expiry_time = parse_expiry_date(&headers, time)
        .expect("valid duration")
        .unwrap_or_default();
    assert!(expiry_time > now_duration().as_millis());
    let wait_until = std::time::Instant::now() + std::time::Duration::from_millis(10);
    while std::time::Instant::now() < wait_until {}
    assert!(expiry_time < now_duration().as_millis());
}

#[test]
fn test_expiry_date_exact_sum() {
    let mut headers = HeaderMap::new();
    headers.insert(HeaderName::from_static(EXPIRE), HeaderValue::from_static("2h"));
    let time = Duration::new(1000, 0);
    let result = parse_expiry_date(&headers, time).expect("valid duration");
    // (1000 s + 7200 s) * 1000 ms/s
    assert_eq!(result, Some(8_200_000));
}

#[test]
fn test_expiry_date_subsecond_sum() {
    let mut headers = HeaderMap::new();
    headers.insert(
        HeaderName::from_static(EXPIRE),
        HeaderValue::from_static("1500ms"),
    );
    let time = Duration::new(10, 700_000_000);
    let result = parse_expiry_date(&headers, time).expect("valid duration");
    // 10.7 s + 1.5 s = 12.2 s
    assert_eq!(result, Some(12_200));
}

#[test]
fn test_expiry_date_fractional_duration() {
    let mut headers = HeaderMap::new();
    headers.insert(HeaderName::from_static(EXPIRE), HeaderValue::from_static("4.2s"));
    let time = Duration::new(0, 0);
    let result = parse_expiry_date(&headers, time).expect("valid duration");
    assert_eq!(result, Some(4_200));
}

#[test]
fn test_expiry_date_composed_duration() {
    let mut headers = HeaderMap::new();
    headers.insert(
        HeaderName::from_static(EXPIRE),
        HeaderValue::from_static("1hour 12min 5s"),
    );
    let time = Duration::new(0, 0);
    let result = parse_expiry_date(&headers, time).expect("valid duration");
    // 3600 s + 720 s + 5 s
    assert_eq!(result, Some(4_325_000));
}

#[test]
fn test_expiry_date_absent() {
    let headers = HeaderMap::new();
    let result = parse_expiry_date(&headers, now_duration()).expect("no header is no error");
    assert_eq!(result, None);
}

#[test]
fn test_expiry_date_malformed() {
    let mut headers = HeaderMap::new();
    headers.insert(
        HeaderName::from_static(EXPIRE),
        HeaderValue::from_static("not-a-duration"),
    );
    let err = parse_expiry_date(&headers, now_duration()).expect_err("malformed must fail");
    assert!(err.is_internal_fault());
    assert_eq!(err.message().as_str(), "invalid expiry date");
}

#[test]
fn test_expiry_date_extreme_value_is_error_not_panic() {
    // lands exactly on the largest representable seconds value with one
    // whole second of leftover nanoseconds; must be rejected, not crash
    let mut headers = HeaderMap::new();
    headers.insert(
        HeaderName::from_static(EXPIRE),
        HeaderValue::from_static("18446744073709551615s 1000000000ns"),
    );
    let err = parse_expiry_date(&headers, now_duration()).expect_err("extreme value must fail");
    assert!(err.is_internal_fault());
}

#[test]
fn test_expiry_date_beyond_magnitude_bound_is_error() {
    // parses to the largest representable seconds value; such near-maximal
    // durations lie beyond the magnitude bound and are rejected as
    // malformed rather than risked against the parser's overflow corner
    let mut headers = HeaderMap::new();
    headers.insert(
        HeaderName::from_static(EXPIRE),
        HeaderValue::from_static("18446744073709551615s"),
    );
    let err = parse_expiry_date(&headers, now_duration()).expect_err("beyond the bound");
    assert!(err.is_internal_fault());
    assert_eq!(err.message().as_str(), "invalid expiry date");
}

#[test]
fn test_expiry_date_centuries_accepted() {
    // about 317 years of seconds stays far within the magnitude bound
    let mut headers = HeaderMap::new();
    headers.insert(
        HeaderName::from_static(EXPIRE),
        HeaderValue::from_static("10000000000s"),
    );
    let time = Duration::new(0, 0);
    let result = parse_expiry_date(&headers, time).expect("valid duration");
    assert_eq!(result, Some(10_000_000_000_000));
}

#[test]
fn test_expiry_date_many_digit_nanoseconds_accepted() {
    // thirteen digits of nanoseconds are only about 17 minutes
    let mut headers = HeaderMap::new();
    headers.insert(
        HeaderName::from_static(EXPIRE),
        HeaderValue::from_static("1000000000000ns"),
    );
    let time = Duration::new(0, 0);
    let result = parse_expiry_date(&headers, time).expect("valid duration");
    assert_eq!(result, Some(1_000_000));
}

#[test]
fn test_expiry_date_overflow_is_none() {
    let mut headers = HeaderMap::new();
    headers.insert(HeaderName::from_static(EXPIRE), HeaderValue::from_static("1s"));
    let time = Duration::new(u64::MAX, 999_999_999);
    let result = parse_expiry_date(&headers, time).expect("overflow is no error");
    assert_eq!(result, None);
}
