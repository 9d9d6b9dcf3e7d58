use sse_client::status::HttpStatus;
use sse_client::text::decimal_string;

#[test]
fn status_holds_the_codes_from_100_to_999() {
    assert!(HttpStatus::new(0).is_none());
    assert!(HttpStatus::new(99).is_none());
    assert_eq!(HttpStatus::new(100).map(|status| status.code()), Some(100));
    assert_eq!(HttpStatus::new(200).map(|status| status.code()), Some(200));
    assert_eq!(HttpStatus::new(999).map(|status| status.code()), Some(999));
    assert!(HttpStatus::new(1000).is_none());
    assert!(HttpStatus::new(u16::MAX).is_none());
}

#[test]
fn success_is_the_class_from_200_to_299() {
    for code in 100..=999u16 {
        let status = HttpStatus::new(code).unwrap();
        assert_eq!(status.is_success(), (200..300).contains(&code), "code {}", code);
    }
}

#[test]
fn status_is_described_by_number_and_reason() {
    assert_eq!(HttpStatus::new(200).unwrap().describe(), "200 OK");
    assert_eq!(HttpStatus::new(404).unwrap().describe(), "404 Not Found");
    assert_eq!(HttpStatus::new(503).unwrap().describe(), "503 Service Unavailable");
    assert_eq!(HttpStatus::new(599).unwrap().describe(), "599 <unknown status code>");
}

#[test]
fn status_is_described_as_the_http_client_prints_it() {
    for code in [100u16, 204, 301, 401, 418, 500, 777, 999] {
        let status = HttpStatus::new(code).unwrap();
        let theirs = reqwest::StatusCode::from_u16(code).unwrap();
        assert_eq!(status.describe(), theirs.to_string());
        assert_eq!(status.is_success(), theirs.is_success());
    }
}

#[test]
fn decimal_notation_has_no_leading_zeros() {
    assert_eq!(decimal_string(0), "0");
    assert_eq!(decimal_string(7), "7");
    assert_eq!(decimal_string(10), "10");
    assert_eq!(decimal_string(90), "90");
    assert_eq!(decimal_string(109), "109");
    assert_eq!(decimal_string(1_000_000), "1000000");
    assert_eq!(decimal_string(u64::MAX), "18446744073709551615");
}

#[test]
fn decimal_notation_is_what_the_standard_library_prints() {
    for n in [0u64, 1, 9, 10, 11, 99, 100, 101, 12345, 9_999_999_999, u64::MAX - 1] {
        assert_eq!(decimal_string(n), n.to_string());
    }
}
