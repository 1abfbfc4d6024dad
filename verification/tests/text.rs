//! Work on text.

use yatch::auth::check_auth;
use yatch::responses::{public_url, range_text};
use yatch::text::{
    int_text, nat_text, same_text, split_once, starts_with, strip_prefix, strip_suffix, trim_end,
    trim_prefixes, trim_start,
};

#[test]
fn numbers() {
    assert_eq!(nat_text(0), "0");
    assert_eq!(nat_text(10), "10");
    assert_eq!(nat_text(u64::MAX), u64::MAX.to_string());
    assert_eq!(int_text(-1), "-1");
    assert_eq!(int_text(42), "42");
    assert_eq!(int_text(i64::MIN), i64::MIN.to_string());
    assert_eq!(int_text(i64::MAX), i64::MAX.to_string());
}

#[test]
fn pieces() {
    assert!(same_text("ab", "ab"));
    assert!(!same_text("ab", "abc"));
    assert!(starts_with("abc", "ab"));
    assert!(!starts_with("a", "ab"));
    assert_eq!(strip_prefix("abc", "ab"), Some("c".to_string()));
    assert_eq!(strip_prefix("abc", "b"), None);
    assert_eq!(strip_suffix("abc", "bc"), Some("a".to_string()));
    assert_eq!(strip_suffix("abc", "b"), None);
    assert_eq!(trim_start("//a/", '/'), "a/");
    assert_eq!(trim_end("/a//", '/'), "/a");
    assert_eq!(trim_prefixes("/v2//v2/x", "/v2/"), "x");
    assert_eq!(split_once("a--b--c", "--"), Some(("a".to_string(), "b--c".to_string())));
    assert_eq!(split_once("abc", "--"), None);
}

#[test]
fn ranges() {
    assert_eq!(range_text(0), "0--1");
    assert_eq!(range_text(1), "0-0");
    assert_eq!(range_text(1024), "0-1023");
    assert_eq!(range_text(i64::MIN), format!("0-{}", i64::MIN));
}

#[test]
fn urls() {
    assert_eq!(public_url("https://cdn.example.com", "blobs/x"), "https://cdn.example.com/blobs/x");
    assert_eq!(public_url("https://cdn.example.com//", "blobs/x"), "https://cdn.example.com/blobs/x");
    assert_eq!(public_url("", "blobs/x"), "/blobs/x");
}

#[test]
fn tokens() {
    let header = |value: &str| Some(value.to_string());
    assert!(check_auth(&header("Bearer secret"), "secret"));
    assert!(check_auth(&header("Bearer "), ""));
    assert!(!check_auth(&header("Bearer secret"), "other"));
    assert!(!check_auth(&header("Bearer  secret"), "secret"));
    assert!(!check_auth(&header("bearer secret"), "secret"));
    assert!(!check_auth(&header("secret"), "secret"));
    assert!(!check_auth(&None, "secret"));
}
