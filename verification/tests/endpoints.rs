//! Cache paths, service URLs and the session cookie.

use elvish::endpoints::{cache_dir, input_url, page_url, path, session_cookie};

#[test]
fn cache_path_is_zero_padded() {
    assert_eq!(path(7), ".elvish/day07.ron");
}

#[test]
fn cache_path_two_digit_day() {
    assert_eq!(path(25), ".elvish/day25.ron");
}

#[test]
fn cache_directory() {
    assert_eq!(cache_dir(), ".elvish");
}

#[test]
fn input_endpoint() {
    assert_eq!(input_url(2023, 5), "https://adventofcode.com/2023/day/5/input");
}

#[test]
fn page_endpoint() {
    assert_eq!(page_url(2015, 25), "https://adventofcode.com/2015/day/25");
}

#[test]
fn cookie_header_value() {
    assert_eq!(session_cookie("token-for-tests"), "session=token-for-tests");
}
