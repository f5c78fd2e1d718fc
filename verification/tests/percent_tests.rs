use actix_web::http::header::{HeaderMap, HeaderName, HeaderValue};
use upload_headers::percent::{percent_encode_bytes, percent_encode_str};
use upload_headers::parse_header_filename;

#[test]
fn test_percent_encode_exact() {
    assert_eq!(
        percent_encode_str("测试文件.txt"),
        "%E6%B5%8B%E8%AF%95%E6%96%87%E4%BB%B6.txt"
    );
    assert_eq!(percent_encode_str("hello.txt"), "hello.txt");
    assert_eq!(percent_encode_str("a b%c"), "a%20b%25c");
}

#[test]
fn test_percent_encode_bytes_exact() {
    let encoded = percent_encode_bytes(&vec![0x00, 0x41, 0x7E, 0xFF]);
    assert_eq!(encoded, b"%00A~%FF".to_vec());
}

#[test]
fn test_filename_round_trip() {
    // percent-encoding a string and decoding it through the filename header
    // yields the string back unchanged
    for original in ["hello.txt", "测试文件.txt", "📎attachment.zip", "a b%c&d=e.bin", ""] {
        let encoded = percent_encode_str(original);
        let mut headers = HeaderMap::new();
        headers.insert(
            HeaderName::from_static("filename"),
            HeaderValue::from_str(&encoded).expect("encoded value is ASCII"),
        );
        let result = parse_header_filename(&headers).expect("round trip decodes");
        assert_eq!(result, Some(original.to_string()));
    }
}

#[test]
fn test_decode_leaves_stray_percent() {
    // a % not followed by two hex digits passes through unchanged
    let mut headers = HeaderMap::new();
    headers.insert(
        HeaderName::from_static("filename"),
        HeaderValue::from_static("100%zz%4"),
    );
    let result = parse_header_filename(&headers).expect("decodes");
    assert_eq!(result, Some("100%zz%4".to_string()));
}
