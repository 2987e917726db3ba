use website_checker::status::{HttpStatus, Reply, Status};

fn answered(code: u16) -> Reply {
    Reply::Answered(HttpStatus::new(code).unwrap())
}

#[test]
fn status_codes_have_three_digits() {
    assert!(HttpStatus::new(0).is_none());
    assert!(HttpStatus::new(99).is_none());
    assert!(HttpStatus::new(1000).is_none());
    assert!(HttpStatus::new(u16::MAX).is_none());
    assert_eq!(HttpStatus::new(100).unwrap().code(), 100);
    assert_eq!(HttpStatus::new(200).unwrap().code(), 200);
    assert_eq!(HttpStatus::new(999).unwrap().code(), 999);
}

#[test]
fn status_line_is_code_and_reason() {
    assert_eq!(HttpStatus::new(200).unwrap().line(), "200 OK");
    assert_eq!(HttpStatus::new(404).unwrap().line(), "404 Not Found");
    assert_eq!(HttpStatus::new(100).unwrap().line(), "100 Continue");
    assert_eq!(HttpStatus::new(503).unwrap().line(), "503 Service Unavailable");
}

#[test]
fn status_line_of_a_code_without_reason() {
    assert_eq!(HttpStatus::new(999).unwrap().line(), "999 <unknown status code>");
}

#[test]
fn every_status_line_begins_with_its_code() {
    for code in 100u16..=999 {
        let line = HttpStatus::new(code).unwrap().line();
        assert!(line.starts_with(&format!("{} ", code)), "{}", line);
        assert_ne!(line, "FAILURE");
    }
}

#[test]
fn record_of_an_answered_visit() {
    let s = Status::record(
        "http://example.com".to_string(),
        "2024-01-01T00:00:00+00:00".to_string(),
        12,
        answered(200),
    );
    assert_eq!(s.url(), "http://example.com");
    assert_eq!(s.status(), "200 OK");
    assert_eq!(s.elapsed_ms(), 12);
    assert_eq!(s.timestamp(), "2024-01-01T00:00:00+00:00");
    assert_eq!(s.error(), &None);
}

#[test]
fn record_of_a_failed_visit() {
    let s = Status::record(
        "http://nowhere.invalid".to_string(),
        "2024-01-01T00:00:00+00:00".to_string(),
        3,
        Reply::Failed("dns error".to_string()),
    );
    assert_eq!(s.url(), "http://nowhere.invalid");
    assert_eq!(s.status(), "FAILURE");
    assert_eq!(s.elapsed_ms(), 3);
    assert_eq!(s.timestamp(), "2024-01-01T00:00:00+00:00");
    assert_eq!(s.error(), &Some("dns error".to_string()));
}

#[test]
fn record_of_a_failure_without_words() {
    let s = Status::record("u".to_string(), "t".to_string(), 0, Reply::Failed(String::new()));
    assert_eq!(s.status(), "FAILURE");
    assert_eq!(s.error(), &Some(String::new()));
}

#[test]
fn record_from_parts() {
    let ok = Status::new("u".to_string(), "204 No Content".to_string(), 5, "t".to_string(), None)
        .unwrap();
    assert_eq!(ok.url(), "u");
    assert_eq!(ok.status(), "204 No Content");
    assert_eq!(ok.elapsed_ms(), 5);
    assert_eq!(ok.timestamp(), "t");
    assert_eq!(ok.error(), &None);

    let failed = Status::new(
        "u".to_string(),
        "FAILURE".to_string(),
        5,
        "t".to_string(),
        Some("refused".to_string()),
    )
    .unwrap();
    assert_eq!(failed.status(), "FAILURE");
    assert_eq!(failed.error(), &Some("refused".to_string()));
}

#[test]
fn record_from_parts_that_disagree() {
    assert!(Status::new("u".to_string(), "FAILURE".to_string(), 5, "t".to_string(), None).is_none());
    assert!(Status::new(
        "u".to_string(),
        "200 OK".to_string(),
        5,
        "t".to_string(),
        Some("refused".to_string())
    )
    .is_none());
    assert!(Status::new(
        "u".to_string(),
        "failure".to_string(),
        5,
        "t".to_string(),
        Some("refused".to_string())
    )
    .is_none());
}

#[test]
fn report_of_an_answered_visit() {
    let s = Status::record(
        "http://example.com".to_string(),
        "2024-01-01T00:00:00+00:00".to_string(),
        123,
        answered(200),
    );
    assert_eq!(s.report_line(), "[2024-01-01T00:00:00+00:00] http://example.com OK in 123ms");
}

#[test]
fn report_of_an_answer_that_is_no_success() {
    let s = Status::record(
        "http://example.com/x".to_string(),
        "2024-01-01T00:00:00+00:00".to_string(),
        0,
        answered(404),
    );
    assert_eq!(s.status(), "404 Not Found");
    assert_eq!(s.report_line(), "[2024-01-01T00:00:00+00:00] http://example.com/x OK in 0ms");
}

#[test]
fn report_of_a_failed_visit() {
    let s = Status::record(
        "http://nowhere.invalid".to_string(),
        "2024-06-30T23:59:59.5+00:00".to_string(),
        30001,
        Reply::Failed("error sending request".to_string()),
    );
    assert_eq!(
        s.report_line(),
        "[2024-06-30T23:59:59.5+00:00] http://nowhere.invalid FAILURE: error sending request in 30001ms"
    );
}

#[test]
fn report_with_the_longest_time() {
    let s = Status::record("u".to_string(), "t".to_string(), u128::MAX, answered(200));
    assert_eq!(s.elapsed_ms(), u128::MAX);
    assert_eq!(s.report_line(), format!("[t] u OK in {}ms", u128::MAX));
}
