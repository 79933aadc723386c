//! Year and session-token resolution.

use elvish::credentials::{current_year_utc5, resolve_session_token, resolve_year, Config};
use elvish::error::Error;

#[test]
fn configured_year_wins() {
    let config = Config { year: Some(2021), session_token: None };
    // 2023-12-05, 12:00, fixed UTC-5: the configured year still wins.
    assert_eq!(resolve_year(&config, 1701795600), 2021);
}

#[test]
fn missing_year_falls_back_to_current_year() {
    let config = Config { year: None, session_token: None };
    // 2023-12-05, 12:00, fixed UTC-5.
    assert_eq!(resolve_year(&config, 1701795600), 2023);
}

#[test]
fn current_year_at_new_year_boundary() {
    // One second before local midnight, fixed UTC-5, of 2024-01-01...
    assert_eq!(current_year_utc5(1704085199), 2023);
    // ...and exactly at it.
    assert_eq!(current_year_utc5(1704085200), 2024);
}

#[test]
fn current_year_clamps_below_epoch() {
    assert_eq!(current_year_utc5(-1), 1970);
}

#[test]
fn token_present() {
    let config = Config { year: None, session_token: Some(String::from("token-for-tests")) };
    assert_eq!(resolve_session_token(&config).unwrap(), "token-for-tests");
}

#[test]
fn token_absent_is_a_config_error() {
    let config = Config { year: Some(2023), session_token: None };
    assert_eq!(resolve_session_token(&config), Err(Error::Config));
}
