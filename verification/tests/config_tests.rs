//! Configuration: numeral parsing and the interpretation of the textual
//! settings, including every rejection.

use dsqs::config::Config;
use dsqs::config::ConfigError;
use dsqs::config::parse_u16;
use dsqs::config::parse_u64;
use dsqs::config::parse_usize;
use dsqs::queue::QueueBehavior;

fn text(s: &str) -> Option<Vec<u8>> {
    Some(s.as_bytes().to_vec())
}

#[test]
fn parse_u64_reads_plain_numerals() {
    assert_eq!(parse_u64(&b"0".to_vec()), Some(0));
    assert_eq!(parse_u64(&b"12345".to_vec()), Some(12345));
    assert_eq!(parse_u64(&b"007".to_vec()), Some(7));
    assert_eq!(parse_u64(&b"+41".to_vec()), Some(41));
    assert_eq!(parse_u64(&b"+0".to_vec()), Some(0));
}

#[test]
fn parse_u64_reads_the_largest_value_and_rejects_the_next() {
    assert_eq!(parse_u64(&b"18446744073709551615".to_vec()), Some(u64::MAX));
    assert_eq!(parse_u64(&b"18446744073709551616".to_vec()), None);
    assert_eq!(parse_u64(&b"99999999999999999999999".to_vec()), None);
}

#[test]
fn parse_u64_rejects_what_is_not_a_numeral() {
    assert_eq!(parse_u64(&b"".to_vec()), None);
    assert_eq!(parse_u64(&b"+".to_vec()), None);
    assert_eq!(parse_u64(&b"12a".to_vec()), None);
    assert_eq!(parse_u64(&b"-1".to_vec()), None);
    assert_eq!(parse_u64(&b"1 2".to_vec()), None);
    assert_eq!(parse_u64(&b"++1".to_vec()), None);
}

#[test]
fn parse_u16_bounds_the_value() {
    assert_eq!(parse_u16(&b"6841".to_vec()), Some(6841));
    assert_eq!(parse_u16(&b"65535".to_vec()), Some(65535));
    assert_eq!(parse_u16(&b"65536".to_vec()), None);
}

#[test]
fn parse_usize_bounds_the_value() {
    assert_eq!(parse_usize(&b"2".to_vec()), Some(2));
    assert_eq!(parse_usize(&b"18446744073709551616".to_vec()), None);
}

#[test]
fn defaults_apply_when_no_setting_is_present() {
    let c = Config::from_settings(None, None, None, None).unwrap();
    assert_eq!(c.server.host, "0.0.0.0");
    let named = Config::from_settings(Some(String::from("::1")), None, None, None).unwrap();
    assert_eq!(named.server.host, "::1");
    assert_eq!(c.server.port, 6841);
    assert_eq!(c.queue_behavior, QueueBehavior::QueueMessages { max_size: None });
}

#[test]
fn explicit_settings_are_honoured() {
    let c = Config::from_settings(
        Some(String::from("127.0.0.1")),
        text("7000"),
        text("queue"),
        text("2"),
    )
    .unwrap();
    assert_eq!(c.server.host, "127.0.0.1");
    assert_eq!(c.server.port, 7000);
    assert_eq!(c.queue_behavior, QueueBehavior::QueueMessages { max_size: Some(2) });
}

#[test]
fn the_drop_policy_can_be_selected() {
    let c = Config::from_settings(Some(String::from("h")), None, text("drop"), None).unwrap();
    assert_eq!(c.queue_behavior, QueueBehavior::DropMessages);
}

#[test]
fn an_unparsable_port_is_rejected() {
    let r = Config::from_settings(Some(String::from("h")), text("abc"), None, None);
    assert_eq!(r.unwrap_err(), ConfigError::InvalidPort);
    let r = Config::from_settings(Some(String::from("h")), text("70000"), None, None);
    assert_eq!(r.unwrap_err(), ConfigError::InvalidPort);
    let r = Config::from_settings(Some(String::from("h")), text(""), None, None);
    assert_eq!(r.unwrap_err(), ConfigError::InvalidPort);
}

#[test]
fn an_unparsable_max_size_is_rejected_even_under_drop() {
    let r = Config::from_settings(Some(String::from("h")), None, text("drop"), text("x"));
    assert_eq!(r.unwrap_err(), ConfigError::InvalidMaxSize);
}

#[test]
fn an_unknown_policy_selector_is_rejected() {
    let r = Config::from_settings(Some(String::from("h")), None, text("keep"), None);
    assert_eq!(r.unwrap_err(), ConfigError::InvalidBehavior);
    let r = Config::from_settings(Some(String::from("h")), None, text(""), None);
    assert_eq!(r.unwrap_err(), ConfigError::InvalidBehavior);
    let r = Config::from_settings(Some(String::from("h")), None, text("Queue"), None);
    assert_eq!(r.unwrap_err(), ConfigError::InvalidBehavior);
}

#[test]
fn the_first_invalid_setting_wins() {
    let r = Config::from_settings(Some(String::from("h")), text("bad"), text("worse"), text("x"));
    assert_eq!(r.unwrap_err(), ConfigError::InvalidPort);
    let r = Config::from_settings(Some(String::from("h")), text("1"), text("worse"), text("x"));
    assert_eq!(r.unwrap_err(), ConfigError::InvalidMaxSize);
}

#[test]
fn a_max_size_without_a_selector_still_bounds_the_default_policy() {
    let c = Config::from_settings(Some(String::from("h")), None, None, text("3")).unwrap();
    assert_eq!(c.queue_behavior, QueueBehavior::QueueMessages { max_size: Some(3) });
}
