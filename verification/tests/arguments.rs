use website_checker::args::{has_flag_shape, parse_args, scan_args};

fn strings(items: &[&str]) -> Vec<String> {
    items.iter().map(|s| s.to_string()).collect()
}

#[test]
fn file_and_literals_are_told_apart() {
    let a = scan_args(&strings(&["--file", "sites.txt", "http://a", "http://b"]));
    assert_eq!(a.file_path, Some("sites.txt".to_string()));
    assert_eq!(a.urls, strings(&["http://a", "http://b"]));
}

#[test]
fn literals_keep_their_order_around_the_file_option() {
    let a = scan_args(&strings(&["http://b", "--file", "list", "http://a", "http://b"]));
    assert_eq!(a.file_path, Some("list".to_string()));
    assert_eq!(a.urls, strings(&["http://b", "http://a", "http://b"]));
}

#[test]
fn last_file_option_wins() {
    let a = scan_args(&strings(&["--file", "one", "x", "--file", "two"]));
    assert_eq!(a.file_path, Some("two".to_string()));
    assert_eq!(a.urls, strings(&["x"]));
}

#[test]
fn file_option_without_a_value_is_passed_over() {
    let a = scan_args(&strings(&["http://a", "--file"]));
    assert_eq!(a.file_path, None);
    assert_eq!(a.urls, strings(&["http://a"]));
}

#[test]
fn file_option_takes_whatever_follows() {
    let a = scan_args(&strings(&["--file", "--file", "x"]));
    assert_eq!(a.file_path, Some("--file".to_string()));
    assert_eq!(a.urls, strings(&["x"]));

    let b = scan_args(&strings(&["--file", "--verbose"]));
    assert_eq!(b.file_path, Some("--verbose".to_string()));
    assert!(b.urls.is_empty());
}

#[test]
fn unknown_options_are_passed_over() {
    let a = scan_args(&strings(&["--verbose", "http://a", "--", "--files", "-x"]));
    assert_eq!(a.file_path, None);
    assert_eq!(a.urls, strings(&["http://a", "-x"]));
}

#[test]
fn option_shape_is_two_leading_dashes() {
    assert!(has_flag_shape("--"));
    assert!(has_flag_shape("--file"));
    assert!(has_flag_shape("---"));
    assert!(!has_flag_shape("-"));
    assert!(!has_flag_shape(""));
    assert!(!has_flag_shape("-x-"));
    assert!(!has_flag_shape("http://--"));
    assert!(!has_flag_shape("\u{2014}-"));
}

#[test]
fn empty_command_line_is_a_usage_error() {
    let r = parse_args(&strings(&[]));
    assert!(r.is_err());
    let e = r.err().unwrap();
    assert_eq!(e.exit_code(), 2);
    assert_eq!(e.usage(), "Usage: website_checker [--file sites.txt] [URL ...]");
}

#[test]
fn options_alone_are_a_usage_error() {
    assert!(parse_args(&strings(&["--verbose", "--file"])).is_err());
}

#[test]
fn a_list_file_alone_is_enough() {
    let a = parse_args(&strings(&["--file", "missing.txt"])).ok().unwrap();
    assert_eq!(a.file_path, Some("missing.txt".to_string()));
    assert!(a.urls.is_empty());
}

#[test]
fn a_literal_alone_is_enough() {
    let a = parse_args(&strings(&["http://example.com"])).ok().unwrap();
    assert_eq!(a.file_path, None);
    assert_eq!(a.urls, strings(&["http://example.com"]));
}

#[test]
fn parse_args_agrees_with_scan_args() {
    let args = strings(&["--file", "missing.txt", "http://example.com"]);
    let a = parse_args(&args).ok().unwrap();
    let b = scan_args(&args);
    assert_eq!(a.file_path, b.file_path);
    assert_eq!(a.urls, b.urls);
}
