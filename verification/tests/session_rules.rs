use std::time::{SystemTime, UNIX_EPOCH};
use utopia_server::feeds::read_feed;
use utopia_server::tokens::{authenticate, issue_token, token_from, COOKIE_NAME, TOKEN_TTL_SECS};

fn now() -> i64 {
    SystemTime::now().duration_since(UNIX_EPOCH).unwrap().as_secs() as i64
}

#[test]
fn default_validation_accepts_own_token_and_rejects_the_rest() {
    let secret = b"test-secret-not-a-real-key";
    let uid = uuid::Uuid::parse_str("1f8ac10b-58cc-4372-a567-0e02b2c3d479").unwrap();
    let token = issue_token(secret, &uid, now()).expect("issuing must succeed");
    assert_eq!(authenticate(secret, Some(&token), None), Some(uid), "sub must survive the trip");
    assert_eq!(authenticate(b"a-different-secret", Some(&token), None), None);
    let expired = issue_token(secret, &uid, now() - TOKEN_TTL_SECS - 86_400).unwrap();
    assert_eq!(authenticate(secret, Some(&expired), None), None);
    assert_eq!(authenticate(secret, None, Some(&format!("Bearer {token}"))), Some(uid));
    assert_eq!(authenticate(secret, None, None), None);
    assert_eq!(COOKIE_NAME, "utopia_token");
}

#[test]
fn the_cookie_comes_before_the_bearer_header() {
    assert_eq!(token_from(Some("c"), Some("Bearer h")), Some("c".to_string()));
    assert_eq!(token_from(None, Some("Bearer h")), Some("h".to_string()));
    assert_eq!(token_from(None, Some("bearer h")), None);
    assert_eq!(token_from(None, None), None);
}

#[test]
fn a_feed_becomes_pages_keyed_by_its_entries() {
    let rss = br#"<?xml version="1.0"?><rss version="2.0"><channel><title>T</title>
<item><guid>urn:1</guid><title>Q3 results: up</title><link>https://x.test/1</link><description>Body one</description><pubDate>Mon, 02 Mar 2026 10:00:00 GMT</pubDate></item>
</channel></rss>"#;
    let (entries, items) = read_feed(rss).unwrap();
    assert_eq!(entries.len(), 1);
    assert_eq!(items.len(), 1);
    assert_eq!(items[0].key, "urn:1");
    assert_eq!(items[0].filename.as_deref(), Some("Q3-results--up.html"));
    assert!(items[0].page.starts_with("<html><head><title>Q3 results: up</title>"));
    assert!(items[0].page.contains("<a href=\"https://x.test/1\">https://x.test/1</a>"));
    assert!(items[0].page.ends_with("Body one</body></html>"));
    assert!(items[0].time.is_some());
    assert!(read_feed(b"not a feed").unwrap_err().starts_with("Failed to parse feed: "));
}

#[test]
fn a_token_carries_sub_then_exp() {
    let secret = b"k";
    let uid = uuid::Uuid::parse_str("1f8ac10b-58cc-4372-a567-0e02b2c3d479").unwrap();
    let token = issue_token(secret, &uid, 1_000).unwrap();
    let claims = serde_json::value::RawValue::from_string(
        r#"{"sub":"1f8ac10b-58cc-4372-a567-0e02b2c3d479","exp":605800}"#.to_string(),
    )
    .unwrap();
    let expected = jsonwebtoken::encode(
        &jsonwebtoken::Header::default(),
        &claims,
        &jsonwebtoken::EncodingKey::from_secret(secret),
    )
    .unwrap();
    assert_eq!(token, expected);
}
