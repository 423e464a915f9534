use webpilot_cli::error::WebPilotError;
use webpilot_cli::json::Json;
use webpilot_cli::paths::{extension_of, file_name_of, join as join_path};
use webpilot_cli::text::{
    after_last, before_first, clip, contains, dec, ends_with, in_order, join, line_safe,
    line_safe_clip, shorten, signed_dec, strip_char, strip_prefix, trim,
};

#[test]
fn texts_are_trimmed_cut_and_joined() {
    assert_eq!(trim("  a b \n"), "a b");
    assert_eq!(clip("한국어", 2), "한국");
    assert_eq!(line_safe("a\nb"), "a b");
    assert!(line_safe_clip(&"x".repeat(500), 200).chars().count() <= 200);
    assert_eq!(join(&vec!["a".to_owned(), "b".to_owned()], ", "), "a, b");
    assert_eq!(dec(0), "0");
    assert_eq!(dec(u64::MAX), "18446744073709551615");
    assert_eq!(signed_dec(-12), "-12");
    assert_eq!(signed_dec(i64::MIN), "-9223372036854775808");
    assert!(contains("abc", "bc"));
    assert!(!contains("abc", "cb"));
    assert!(contains("", ""));
    assert!(in_order("a", "b"));
    assert!(!in_order("b", "a"));
}

#[test]
fn texts_are_split_at_what_they_hold() {
    assert_eq!(after_last("a/x/b/x/c", "/x/").as_deref(), Some("c"));
    assert!(after_last("abc", "/x/").is_none());
    assert_eq!(before_first("a/x/b/x/c", "/x/"), "a");
    assert_eq!(before_first("abc", "/x/"), "abc");
    assert!(ends_with("a.json", ".json"));
    assert!(!ends_with("json", ".json"));
    assert_eq!(strip_char("*a*b*", '*'), "ab");
    assert_eq!(strip_prefix("abc", "ab").as_deref(), Some("c"));
    assert!(strip_prefix("abc", "b").is_none());
}

#[test]
fn texts_are_shortened_only_between_characters() {
    assert_eq!(shorten("abcdef", 3), "abc");
    assert_eq!(shorten("ab", 3), "ab");
    assert_eq!(shorten("é€", 2), "é");
    assert_eq!(shorten("é€", 3), "é€");
    assert_eq!(shorten("é€", 5), "é€");
    assert_eq!(shorten("", 0), "");
}

#[test]
fn paths_are_taken_apart() {
    assert_eq!(file_name_of("/a/b.txt").as_deref(), Some("b.txt"));
    assert_eq!(file_name_of("/a/b/").as_deref(), Some("b"));
    assert!(file_name_of("/").is_none());
    assert_eq!(extension_of("a/b.tar.gz").as_deref(), Some("gz"));
    assert!(extension_of(".bashrc").is_none());
    assert_eq!(join_path("/a", "b"), "/a/b");
    assert_eq!(join_path("/a/", "b"), "/a/b");
    assert_eq!(join_path("/a", "/b"), "/b");
}

#[test]
fn json_is_read_and_written() {
    let v = Json::parse(r#"{"b":[1,-2,3.5,"x",null,true],"a":{"k":"é"}}"#).unwrap();
    assert_eq!(v.to_text(), r#"{"a":{"k":"é"},"b":[1,-2,3.5,"x",null,true]}"#);
    assert_eq!(Json::object().with("a", Json::number(1)).to_pretty_text(), "{\n  \"a\": 1\n}");
    assert!(Json::parse("{").is_err());
    assert_eq!(v.str_at2("a", "k"), Some("é"));
    let twice = Json::object().with("k", Json::number(1)).with("k", Json::number(2));
    assert_eq!(twice.get("k").unwrap().as_u64(), Some(2));
    assert_eq!(twice.to_text(), r#"{"k":2}"#);
    assert!(twice.without("k").get("k").is_none());
}

#[test]
fn failures_have_classes() {
    let s = || "s".to_owned();
    assert_eq!(WebPilotError::InvalidArgument { detail: s() }.exit_code(), 7);
    assert_eq!(WebPilotError::ConnectionLost { detail: s() }.exit_code(), 3);
    assert_eq!(WebPilotError::VersionMismatch { extension: s(), expected: s() }.exit_code(), 3);
    assert_eq!(WebPilotError::Timeout { kind: s(), elapsed_ms: 1 }.exit_code(), 5);
    assert_eq!(WebPilotError::SelectorNotFound { selector: s() }.exit_code(), 4);
    assert_eq!(WebPilotError::CookieNotFound { name: s() }.exit_code(), 4);
    assert_eq!(WebPilotError::TabNotFound { tab_id: s() }.exit_code(), 4);
    assert_eq!(WebPilotError::ContextNotFound { name: s() }.exit_code(), 4);
    assert_eq!(WebPilotError::ContextInUse { name: s() }.exit_code(), 1);
    assert_eq!(WebPilotError::NoPage.exit_code(), 1);
    assert_eq!(WebPilotError::Other { detail: s() }.exit_code(), 1);
}
