use chrono::{DateTime, Utc};
use website_checker::probe::Probe;
use website_checker::status::{HttpStatus, Reply};

#[test]
fn probe_keeps_its_address() {
    let p = Probe::begin("http://example.com");
    assert_eq!(p.target(), "http://example.com");
}

#[test]
fn finished_probe_that_was_answered() {
    let p = Probe::begin("http://example.com");
    let s = p.finish(Reply::Answered(HttpStatus::new(301).unwrap()));
    assert_eq!(s.url(), "http://example.com");
    assert_eq!(s.status(), "301 Moved Permanently");
    assert_eq!(s.error(), &None);
}

#[test]
fn finished_probe_that_failed() {
    let p = Probe::begin("not a url");
    let s = p.finish(Reply::Failed("builder error".to_string()));
    assert_eq!(s.url(), "not a url");
    assert_eq!(s.status(), "FAILURE");
    assert_eq!(s.error(), &Some("builder error".to_string()));
}

#[test]
fn timestamp_is_a_moment_in_utc() {
    let before = Utc::now();
    let s = Probe::begin("u").finish(Reply::Failed("x".to_string()));
    let after = Utc::now();
    assert!(s.timestamp().ends_with("+00:00"), "{}", s.timestamp());
    let at = DateTime::parse_from_rfc3339(s.timestamp()).unwrap();
    assert_eq!(at.offset().local_minus_utc(), 0);
    assert!(before <= at && at <= after);
}

#[test]
fn elapsed_time_covers_the_wait() {
    let p = Probe::begin("u");
    let watch = std::time::Instant::now();
    while watch.elapsed().as_millis() < 30 {
        std::hint::spin_loop();
    }
    let s = p.finish(Reply::Failed("x".to_string()));
    assert!(s.elapsed_ms() >= 30);
    assert!(s.elapsed_ms() < 15000);
}
