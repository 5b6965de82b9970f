use boostagram::boostagram::{from_b64, from_json, Action, Boostagram};
use boostagram::boostagram::builder::BoostagramBuilder;
use boostagram::Error;

#[test]
fn test_from_fountain_invoice() {
    let boost_raw = "eyJhcHBfbmFtZSI6IkZvdW50YWluIiwidmFsdWVfbXNhdF90b3RhbCI6MTAwMDAwLCJuYW1lIjoiQWxieSBUZXN0IFVzZXIgUFVUIiwicG9kY2FzdCI6IlRlc3QgUG9kY2FzdCBBbmNob3IiLCJmZWVkSUQiOjYwMTU2NzEsImFjdGlvbiI6ImJvb3N0Iiwic2VuZGVyX2lkIjoiblNpcTdpZDc4SkFkSDl1WTFwSXkiLCJzZW5kZXJfbmFtZSI6IkBhbHdpbl9jb25zaGF4IiwibWVzc2FnZSI6InRlc3QiLCJpdGVtSUQiOiIxNDkzNDE1NDMwOSIsImJvb3N0X2xpbmsiOiJodHRwczovL2ZvdW50YWluLmZtL2VwaXNvZGUvMTQ5MzQxNTQzMDkiLCJlcGlzb2RlIjoidGhpcyBpcyBhIHZlcnkgdmVyeSB2ZXJ5IHZlcnkgdmVyeSB2ZXJ5IHZlcnkgdmVyeSB2ZXJ5IHZlcnkgdmVyeSB2ZXJ5IHZlcnkgdmVyeSB2ZXJ5IHZlcnkgdmVyeSB2ZXJ5IHZlcnkgdmVyeSB2ZXJ5IHZlcnkgdmVyeSB2ZXJ5IHZlcnkgdmVyeSB2ZXJ5IHZlcnkgdmVyeSB2ZXJ5IHZlcnkgdmVyeSB2ZXJ5IHZlcnkgbG9uZyBlcGlzb2RlIG5hbWUhISEiLCJ0cyI6MzI5LCJ0aW1lIjoiMDA6MDU6MjkifQ==";

    let result = from_b64(boost_raw);

    assert!(result.is_ok());

    let boostagram = result.unwrap();

    assert_eq!(boostagram.item_id, None);
}

#[test]
fn fountain_invoice_fields() {
    let boost_raw = "eyJhcHBfbmFtZSI6IkZvdW50YWluIiwidmFsdWVfbXNhdF90b3RhbCI6MTAwMDAwLCJuYW1lIjoiQWxieSBUZXN0IFVzZXIgUFVUIiwicG9kY2FzdCI6IlRlc3QgUG9kY2FzdCBBbmNob3IiLCJmZWVkSUQiOjYwMTU2NzEsImFjdGlvbiI6ImJvb3N0Iiwic2VuZGVyX2lkIjoiblNpcTdpZDc4SkFkSDl1WTFwSXkiLCJzZW5kZXJfbmFtZSI6IkBhbHdpbl9jb25zaGF4IiwibWVzc2FnZSI6InRlc3QiLCJpdGVtSUQiOiIxNDkzNDE1NDMwOSIsImJvb3N0X2xpbmsiOiJodHRwczovL2ZvdW50YWluLmZtL2VwaXNvZGUvMTQ5MzQxNTQzMDkiLCJlcGlzb2RlIjoidGhpcyBpcyBhIHZlcnkgdmVyeSB2ZXJ5IHZlcnkgdmVyeSB2ZXJ5IHZlcnkgdmVyeSB2ZXJ5IHZlcnkgdmVyeSB2ZXJ5IHZlcnkgdmVyeSB2ZXJ5IHZlcnkgdmVyeSB2ZXJ5IHZlcnkgdmVyeSB2ZXJ5IHZlcnkgdmVyeSB2ZXJ5IHZlcnkgdmVyeSB2ZXJ5IHZlcnkgdmVyeSB2ZXJ5IHZlcnkgdmVyeSB2ZXJ5IHZlcnkgbG9uZyBlcGlzb2RlIG5hbWUhISEiLCJ0cyI6MzI5LCJ0aW1lIjoiMDA6MDU6MjkifQ==";
    let b = from_b64(boost_raw).unwrap();
    assert_eq!(b.app_name.as_deref(), Some("Fountain"));
    assert_eq!(b.value_msat_total, Some(100000));
    assert_eq!(b.podcast.as_deref(), Some("Test Podcast Anchor"));
    assert_eq!(b.feed_id, Some(6015671));
    assert_eq!(b.action, Some(Action::Boost));
    assert_eq!(b.ts, Some(329));
    assert_eq!(b.time.as_deref(), Some("00:05:29"));
    assert_eq!(b.message.as_deref(), Some("test"));
}

#[test]
fn lenient_item_id_text_value() {
    let b = from_json("{\"guid\":\"g\",\"itemID\":\"not a number\"}").unwrap();
    assert_eq!(b.item_id, None);
    assert_eq!(b.guid.as_deref(), Some("g"));
}

#[test]
fn lenient_item_id_numeric_value() {
    let b = from_json("{\"itemID\":42}").unwrap();
    assert_eq!(b.item_id, Some(42));
}

#[test]
fn strict_feed_id_text_value_fails() {
    let r = from_json("{\"feedID\":\"not a number\"}");
    assert!(matches!(r, Err(Error::DeserializingError(_))));
}

#[test]
fn unknown_action_decodes_to_unknown() {
    let b = from_json("{\"action\":\"smooch\"}").unwrap();
    assert_eq!(b.action, Some(Action::Unknown));
}

#[test]
fn known_actions_decode() {
    assert_eq!(from_json("{\"action\":\"stream\"}").unwrap().action, Some(Action::Stream));
    assert_eq!(from_json("{\"action\":\"boost\"}").unwrap().action, Some(Action::Boost));
    assert_eq!(from_json("{\"action\":\"lsat\"}").unwrap().action, Some(Action::Lsat));
    assert_eq!(from_json("{\"action\":\"auto\"}").unwrap().action, Some(Action::Auto));
}

#[test]
fn unknown_fields_are_ignored() {
    let b = from_json("{\"url\":\"u\",\"mystery\":[1,{\"a\":false},null],\"other\":1.5e3}").unwrap();
    assert_eq!(b.url.as_deref(), Some("u"));
}

#[test]
fn builder_without_anchor_fails() {
    let r = BoostagramBuilder::new().message("hi".to_string()).build();
    assert!(matches!(r, Err(Error::BuildingError(_))));
}

#[test]
fn builder_with_guid_succeeds() {
    let r = BoostagramBuilder::new().guid("x".to_string()).build();
    assert!(r.is_ok());
}

#[test]
fn encode_simple_envelope_exact() {
    let e = BoostagramBuilder::new().podcast("x".to_string()).build().unwrap();
    assert_eq!(e.to_b64().unwrap(), "eyJwb2RjYXN0IjoieCJ9");
}

#[test]
fn encode_several_fields_exact() {
    let e = BoostagramBuilder::new()
        .podcast("p".to_string())
        .feed_id(7)
        .action(Action::Boost)
        .message("hi".to_string())
        .build()
        .unwrap();
    assert_eq!(
        e.to_b64().unwrap(),
        "eyJwb2RjYXN0IjoicCIsImZlZWRJRCI6NywiYWN0aW9uIjoiYm9vc3QiLCJtZXNzYWdlIjoiaGkifQ=="
    );
}

#[test]
fn round_trip_via_builder() {
    let e = BoostagramBuilder::new()
        .podcast("Pod \"quoted\" \\ back".to_string())
        .feed_id(6015671)
        .url("https://example.org/feed".to_string())
        .guid("guid-1".to_string())
        .episode("Ep\n1\ttabbed".to_string())
        .item_id(9)
        .episode_guid("eg".to_string())
        .time("00:05:29".to_string())
        .ts(329)
        .action(Action::Unknown)
        .app_name("app".to_string())
        .app_version("1.2".to_string())
        .boost_link("https://x".to_string())
        .message("hello".to_string())
        .name("n".to_string())
        .sender_name("s".to_string())
        .sender_id("sid".to_string())
        .signature("sig".to_string())
        .speed("1.5".to_string())
        .uuid("u-u-i-d".to_string())
        .value_msat_total(100000)
        .reply_address("addr".to_string())
        .reply_custom_key(7629169)
        .reply_custom_value("rv".to_string())
        .build()
        .unwrap();
    let wire = e.to_b64().unwrap();
    let back = from_b64(&wire).unwrap();
    assert_eq!(back, e);
}

#[test]
fn round_trip_sparse_envelope() {
    let e = BoostagramBuilder::new().url("https://example.org".to_string()).build().unwrap();
    let back = from_b64(&e.to_b64().unwrap()).unwrap();
    assert_eq!(back, e);
}

#[test]
fn bad_base64_fails() {
    let r = from_b64("@@@not base64@@@");
    assert!(matches!(r, Err(Error::B64DecodeError(_))));
}

#[test]
fn non_canonical_base64_fails() {
    // "eyJ9" decodes, but "eyJ9=" carries stray padding
    let r = from_b64("eyJwb2RjYXN0IjoieCJ9=");
    assert!(matches!(r, Err(Error::B64DecodeError(_))));
}

#[test]
fn bad_json_fails() {
    let r = from_json("{\"podcast\":");
    assert!(matches!(r, Err(Error::DeserializingError(_))));
    assert!(matches!(from_json("[]"), Err(Error::DeserializingError(_))));
    assert!(matches!(from_json(""), Err(Error::DeserializingError(_))));
    assert!(matches!(from_json("{\"a\":01}"), Err(Error::DeserializingError(_))));
}

#[test]
fn whitespace_and_escapes_accepted() {
    let b = from_json(" { \"podcast\" : \"a\\u0041\\n\\\"\" , \"ts\" : 5 } ").unwrap();
    assert_eq!(b.podcast.as_deref(), Some("aA\n\""));
    assert_eq!(b.ts, Some(5));
}

#[test]
fn surrogate_pair_escape_decodes() {
    let b = from_json("{\"message\":\"\\uD83D\\uDE00\"}").unwrap();
    assert_eq!(b.message.as_deref(), Some("\u{1F600}"));
}

#[test]
fn lone_surrogate_escape_fails() {
    let r = from_json("{\"message\":\"\\uD83D\"}");
    assert!(matches!(r, Err(Error::DeserializingError(_))));
}

#[test]
fn null_value_leaves_field_absent() {
    let b = from_json("{\"podcast\":null,\"url\":\"u\"}").unwrap();
    assert_eq!(b.podcast, None);
    assert_eq!(b.url.as_deref(), Some("u"));
}

#[test]
fn builder_opt_setters() {
    let e = BoostagramBuilder::new()
        .podcast_opt(Some("p".to_string()))
        .message_opt(None)
        .build()
        .unwrap();
    assert_eq!(e.podcast.as_deref(), Some("p"));
    assert_eq!(e.message, None);
}

#[test]
fn builder_setter_overwrites() {
    let e = BoostagramBuilder::new()
        .podcast("first".to_string())
        .podcast("second".to_string())
        .build()
        .unwrap();
    assert_eq!(e.podcast.as_deref(), Some("second"));
}
