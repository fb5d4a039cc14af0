use contile::error::{HandlerError, HandlerErrorKind, RequestFailure};
use contile::json::{json_document, JsonValue};
use contile::settings::{test_settings, ttl_with_jitter, Settings};
use contile::strmap::{StrMap, StrSet};
use contile::tags::Tags;
use contile::text::{decimal_string, parse_unsigned, split_char, join_char, trim, trim_start_char, utf8_len_exceeds};

#[test]
fn text_helpers() {
    assert_eq!(split_char("a.b..c", '.'), vec!["a", "b", "", "c"]);
    assert_eq!(join_char(&vec!["a".to_owned(), "b".to_owned()], '.'), "a.b");
    assert_eq!(trim("  x y \t"), "x y");
    assert_eq!(trim_start_char("//a/b", '/'), "a/b");
    assert_eq!(parse_unsigned("+862", 65535), Some(862));
    assert_eq!(parse_unsigned("70000", 65535), None);
    assert_eq!(parse_unsigned("-1", 65535), None);
    assert_eq!(decimal_string(0), "0");
    assert_eq!(decimal_string(1234567890), "1234567890");
    assert!(utf8_len_exceeds("abc", 2));
    assert!(!utf8_len_exceeds("ab", 2));
    assert!(utf8_len_exceeds("\u{e9}a", 2));
}

#[test]
fn json_documents() {
    match json_document(r#"{"a": [1, -2, "x", null, true]}"#) {
        Ok(JsonValue::Object(m)) => {
            assert_eq!(m.len(), 1);
            assert_eq!(m[0].0, "a");
            match &m[0].1 {
                JsonValue::Array(items) => {
                    assert!(matches!(items[0], JsonValue::Number(Some(1), Some(1))));
                    assert!(matches!(items[1], JsonValue::Number(None, Some(-2))));
                    assert!(matches!(&items[2], JsonValue::Str(s) if s == "x"));
                    assert!(matches!(items[3], JsonValue::Null));
                    assert!(matches!(items[4], JsonValue::Bool(true)));
                }
                _ => panic!("expected an array"),
            }
        }
        _ => panic!("expected an object"),
    }
    assert!(json_document("{").is_err());
}

#[test]
fn tags_merge_and_read() {
    let mut t = Tags::new();
    t.add_tag("a", "1");
    t.add_tag("empty", "");
    t.add_extra("x", "y");
    assert_eq!(t.get("a"), "1");
    assert_eq!(t.get("empty"), "None");
    let mut other = Tags::new();
    other.add_tag("a", "2");
    other.add_metric("m", "3");
    t.extend(other);
    assert_eq!(t.get("a"), "2");
    // Metric-named additions go to the report-only extra data, not to metrics.
    assert_eq!(t.extra.get("m"), Some(&"3".to_owned()));
    assert_eq!(t.metric.get("m"), None);
    let tree = t.tag_tree();
    assert_eq!(tree, vec![("a".to_owned(), "2".to_owned())]);
}

#[test]
fn maps_keep_the_last_value() {
    let mut m: StrMap<u32> = StrMap::new();
    m.insert("k".to_owned(), 1);
    m.insert("j".to_owned(), 2);
    m.insert("k".to_owned(), 3);
    assert_eq!(m.len(), 2);
    assert_eq!(m.get("k"), Some(&3));
    assert_eq!(m.entry(0).0, "k");
    let mut s = StrSet::new();
    s.insert("a".to_owned());
    s.insert("a".to_owned());
    assert_eq!(s.len(), 1);
    assert!(s.contains("a"));
    assert!(!s.contains("b"));
}

#[test]
fn error_kinds() {
    let e = HandlerError::internal("Oh Noes!");
    assert_eq!(e.kind().http_status(), 500);
    assert_eq!(e.kind().errno(), 510);
    assert_eq!(e.kind().message(), "Internal error: \"Oh Noes!\"");
    assert_eq!(HandlerErrorKind::InvalidUA.http_status(), 403);
    assert_eq!(HandlerErrorKind::InvalidUA.as_response_string(), "This service is for firefox only");
    assert_eq!(HandlerErrorKind::InvalidUA.metric_label(), Some("request.error.invalid_ua"));
    assert!(!HandlerErrorKind::InvalidUA.is_sentry_event());
    let timeout = HandlerErrorKind::Reqwest(RequestFailure {
        message: "t".to_owned(),
        is_timeout: true,
        is_connect: false,
    });
    assert!(!timeout.is_sentry_event());
    assert_eq!(timeout.errno(), 520);
    assert_eq!(HandlerErrorKind::BadImage("x").as_response_string(), "An invalid response received from the partner");
}

#[test]
fn settings_defaults_and_checks() {
    let s = Settings::default_settings();
    assert_eq!(s.banner(), "http://127.0.0.1:8000");
    assert_eq!(s.adm_partner_id.as_deref(), Some("demofeed"));
    assert_eq!(s.adm_sub1.as_deref(), Some("123456789"));
    assert!(s.verify_settings().is_err());
    let t = test_settings();
    assert!(t.verify_settings().is_ok());
    let mut bad = test_settings();
    bad.storage = "{\"bucket_name\": \"UPPER\"}".to_owned();
    assert!(bad.verify_settings().is_err());
    assert_eq!(ttl_with_jitter(900, 10, 0), 810);
    assert_eq!(ttl_with_jitter(900, 10, 20), 990);
    assert_eq!(ttl_with_jitter(900, 10, 10), 900);
}

#[test]
fn tags_from_extra_and_tags() {
    let t = Tags::from_extra(vec![("a", "1".to_owned()), ("b", "2".to_owned()), ("a", "3".to_owned())]);
    assert_eq!(t.extra.len(), 2);
    assert_eq!(t.extra.get("a"), Some(&"3".to_owned()));
    assert_eq!(t.extra.get("b"), Some(&"2".to_owned()));
    assert!(t.tags.is_empty());
    assert_eq!(t.get("a"), "None");

    let mut m: StrMap<String> = StrMap::new();
    m.insert("ua.os.family".to_owned(), "Linux".to_owned());
    let t = Tags::with_tags(m);
    assert_eq!(t.tags.len(), 1);
    assert_eq!(t.get("ua.os.family"), "Linux");
    assert!(t.extra.is_empty());
    assert!(Tags::with_tags(StrMap::new()).tags.is_empty());
}
