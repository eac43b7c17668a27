use famly_export::child_info::{self, ChildInfo};
use famly_export::error::{DateFormat, DecodeError};
use famly_export::feed_item;
use famly_export::filter::{has_prefix, is_content_item};
use famly_export::json::{parse_date, parse_int, parse_string, Json};
use famly_export::post::{compose_author, Comment, Photo, Post};
use famly_export::time::Timestamp;

fn json(text: &str) -> Json {
    Json::parse(text).unwrap()
}

fn image(created_at: &str, tags: &str) -> String {
    format!(
        r#"{{"imageId": "abcdef12", "createdAt": {}, "prefix": "https://img.example/p",
            "key": "k/e/y.jpg", "height": 600, "width": 800, "tags": {}}}"#,
        created_at, tags
    )
}

fn feed_item(extra: &str, tags: &str) -> String {
    format!(
        r#"{{"createdDate": "2021-03-04T10:15:30+00:00", "body": "Hello",
            "sender": {{"name": "Jane"}}, "images": [{}], "comments": []{}}}"#,
        image(r#""2021-03-04T10:15:30Z""#, tags),
        extra
    )
}

#[test]
fn legacy_and_current_dates_give_the_same_instant() {
    let legacy = Photo::from_json(&json(&image(
        r#"{"date": "2021-03-04 10:15:30.123456"}"#,
        "[]",
    )))
    .unwrap();
    let current = Photo::from_json(&json(&image(r#""2021-03-04T10:15:30Z""#, "[]"))).unwrap();
    assert_eq!(legacy.date.secs, 1614852930);
    assert_eq!(current.date.secs, 1614852930);
    assert_eq!(legacy.date.nanos, 123456000);
    assert_eq!(current.date, Timestamp { secs: 1614852930, nanos: 0 });
}

#[test]
fn photo_fields_and_display_url() {
    let p = Photo::from_json(&json(&image(r#""2021-03-04T10:15:30Z""#, r#"[{"childId": "A"}]"#)))
        .unwrap();
    assert_eq!(p.id, "abcdef12");
    assert_eq!(p.url, "https://img.example/p/800x600/k/e/y.jpg");
    assert_eq!(p.tags, vec!["A".to_string()]);
}

#[test]
fn photo_is_tagged_by_exact_id() {
    let p = Photo::from_json(&json(&image(
        r#""2021-03-04T10:15:30Z""#,
        r#"[{"childId": "A"}, {"childId": "B"}]"#,
    )))
    .unwrap();
    assert!(p.is_tagged(&"A".to_string()));
    assert!(p.is_tagged(&"B".to_string()));
    assert!(!p.is_tagged(&"C".to_string()));
    assert!(!p.is_tagged(&"AB".to_string()));
}

#[test]
fn photo_file_name() {
    let p = Photo::from_json(&json(&image(r#""2021-03-04T10:15:30Z""#, "[]"))).unwrap();
    assert_eq!(p.get_file_name(), Some("2021-03-04_10-15-30_abcd.jpg".to_string()));
}

#[test]
fn photo_without_tags_array_is_an_error() {
    let text = r#"{"imageId": "x", "createdAt": "2021-03-04T10:15:30Z", "prefix": "p",
        "key": "k", "height": 1, "width": 2}"#;
    match Photo::from_json(&json(text)) {
        Err(DecodeError::MissingArray { path }) => assert_eq!(path, "tags"),
        other => panic!("unexpected {:?}", other.err()),
    }
}

#[test]
fn malformed_tag_is_an_error() {
    let p = Photo::from_json(&json(&image(r#""2021-03-04T10:15:30Z""#, r#"[{"childId": 7}]"#)));
    match p {
        Err(DecodeError::NotString { field }) => assert_eq!(field, "childId"),
        other => panic!("unexpected {:?}", other.err()),
    }
}

#[test]
fn bad_current_date_names_the_raw_string() {
    let p = Photo::from_json(&json(&image(r#""yesterday""#, "[]")));
    match p {
        Err(DecodeError::BadDate { raw, format, reason }) => {
            assert_eq!(raw, "yesterday");
            assert_eq!(format, DateFormat::Rfc3339);
            assert!(!reason.is_empty());
        }
        other => panic!("unexpected {:?}", other.err()),
    }
}

#[test]
fn bad_legacy_date_names_the_raw_string() {
    let p = Photo::from_json(&json(&image(r#"{"date": "2021-03-04T10:15:30Z"}"#, "[]")));
    match p {
        Err(DecodeError::BadDate { raw, format, .. }) => {
            assert_eq!(raw, "2021-03-04T10:15:30Z");
            assert_eq!(format, DateFormat::Legacy);
        }
        other => panic!("unexpected {:?}", other.err()),
    }
}

#[test]
fn field_extractor_reports_the_field() {
    let v = json(r#"{"s": "text", "e": "", "n": 42, "neg": -1, "d": "2020-01-01T00:00:00Z"}"#);
    match parse_string(&v, "e") {
        Err(DecodeError::NotString { field }) => assert_eq!(field, "e"),
        other => panic!("unexpected {:?}", other),
    }
    assert_eq!(parse_string(&v, "s").unwrap(), "text");
    assert_eq!(parse_int(&v, "n").unwrap(), 42);
    assert_eq!(parse_date(&v, "d").unwrap(), Timestamp { secs: 1577836800, nanos: 0 });
    match parse_string(&v, "n") {
        Err(DecodeError::NotString { field }) => assert_eq!(field, "n"),
        other => panic!("unexpected {:?}", other),
    }
    match parse_int(&v, "neg") {
        Err(DecodeError::NotUnsigned { field }) => assert_eq!(field, "neg"),
        other => panic!("unexpected {:?}", other),
    }
    match parse_int(&v, "missing") {
        Err(DecodeError::NotUnsigned { field }) => assert_eq!(field, "missing"),
        other => panic!("unexpected {:?}", other),
    }
}

#[test]
fn syntax_error_is_reported() {
    match Json::parse("{not json") {
        Err(DecodeError::Syntax { reason }) => assert!(!reason.is_empty()),
        other => panic!("unexpected {:?}", other.err()),
    }
}

#[test]
fn author_with_subtitle() {
    let c = Comment::from_json(&json(
        r#"{"createdDate": "2021-03-04T10:15:30Z", "body": "Nice",
            "sender": {"name": "Jane", "subtitle": "Teacher"}}"#,
    ))
    .unwrap();
    assert_eq!(c.author, "Jane | Teacher");
    assert_eq!(c.text, "Nice");
}

#[test]
fn author_with_empty_subtitle() {
    let c = Comment::from_json(&json(
        r#"{"createdDate": "2021-03-04T10:15:30Z", "body": "Nice",
            "sender": {"name": "Jane", "subtitle": ""}}"#,
    ))
    .unwrap();
    assert_eq!(c.author, "Jane");
}

#[test]
fn author_without_subtitle() {
    let c = Comment::from_json(&json(
        r#"{"createdDate": "2021-03-04T10:15:30Z", "body": "Nice", "sender": {"name": "Jane"}}"#,
    ))
    .unwrap();
    assert_eq!(c.author, "Jane");
    assert_eq!(compose_author("Jane".to_string(), None), "Jane");
    assert_eq!(compose_author("Jane".to_string(), Some("Teacher".to_string())), "Jane | Teacher");
}

#[test]
fn meta_post_is_rejected_before_decoding() {
    let item = json(r#"{"systemPostTypeClass": "Daycare.Closure", "body": "Closed"}"#);
    assert!(!is_content_item(&item));
    let ordinary = json(r#"{"systemPostTypeClass": null, "body": "Open"}"#);
    assert!(is_content_item(&ordinary));
    let other_class = json(r#"{"systemPostTypeClass": "Parent.Note", "body": "Hi"}"#);
    assert!(is_content_item(&other_class));
    assert!(has_prefix("Daycare.Closure", "Daycare."));
    assert!(!has_prefix("Daycare", "Daycare."));
}

#[test]
fn empty_body_is_rejected() {
    assert!(!is_content_item(&json(r#"{"body": ""}"#)));
    assert!(!is_content_item(&json(r#"{"body": null}"#)));
    assert!(!is_content_item(&json(r#"{}"#)));
    assert!(is_content_item(&json(r#"{"body": "Hello"}"#)));
}

#[test]
fn post_filter_needs_a_photo_tagged_with_the_target() {
    let untagged = format!(r#"{{"feedItems": [{}]}}"#, feed_item("", r#"[{"childId": "Y"}]"#));
    let (posts, cursor) = Post::from_feed_json(untagged.clone(), &"X".to_string()).unwrap();
    assert!(posts.is_empty());
    assert_eq!(cursor, Some("2021-03-04T10:15:30+00:00".to_string()));

    let tagged = format!(
        r#"{{"feedItems": [{}]}}"#,
        feed_item("", r#"[{"childId": "Y"}, {"childId": "X"}]"#)
    );
    let (posts, _) = Post::from_feed_json(tagged, &"X".to_string()).unwrap();
    assert_eq!(posts.len(), 1);
    assert_eq!(posts[0].author, "Jane");
    assert_eq!(posts[0].text, "Hello");
    assert!(posts[0].is_tagged_with(&"X".to_string()));

    let (all, _) = Post::from_feed_value(&json(&untagged), None).unwrap();
    assert_eq!(all.len(), 1);
}

#[test]
fn feed_page_skips_meta_and_empty_items() {
    let text = format!(
        r#"{{"feedItems": [
            {{"systemPostTypeClass": "Daycare.Closure", "body": "x", "createdDate": "a"}},
            {},
            {{"body": "", "createdDate": "2020-01-01T00:00:00Z"}}
        ]}}"#,
        feed_item("", r#"[{"childId": "X"}]"#)
    );
    let (posts, cursor) = Post::from_feed_json(text, &"X".to_string()).unwrap();
    assert_eq!(posts.len(), 1);
    assert_eq!(cursor, Some("2020-01-01T00:00:00Z".to_string()));
}

#[test]
fn empty_feed_page_ends_the_walk() {
    let (posts, cursor) = Post::from_feed_json(r#"{"feedItems": []}"#.to_string(), &"X".to_string())
        .unwrap();
    assert!(posts.is_empty());
    assert_eq!(cursor, None);
}

#[test]
fn missing_feed_items_is_an_error() {
    match Post::from_feed_json(r#"{"items": []}"#.to_string(), &"X".to_string()) {
        Err(DecodeError::MissingArray { path }) => assert_eq!(path, "feedItems"),
        other => panic!("unexpected {:?}", other.err()),
    }
}

#[test]
fn malformed_image_fails_the_post_with_its_position() {
    let text = r#"{"feedItems": [{"createdDate": "2021-03-04T10:15:30+00:00", "body": "Hi",
        "sender": {"name": "Jane"}, "images": [{"imageId": "x"}], "comments": []}]}"#;
    match Post::from_feed_json(text.to_string(), &"X".to_string()) {
        Err(DecodeError::InPost { created_date, cause }) => {
            assert_eq!(created_date, Some("2021-03-04T10:15:30+00:00".to_string()));
            assert!(matches!(*cause, DecodeError::NotString { .. }));
        }
        other => panic!("unexpected {:?}", other.err()),
    }
}

#[test]
fn missing_comments_array_is_an_error() {
    let text = r#"{"createdDate": "2021-03-04T10:15:30Z", "body": "Hi",
        "sender": {"name": "Jane"}, "images": []}"#;
    match Post::from_json(&json(text)) {
        Err(DecodeError::MissingArray { path }) => assert_eq!(path, "comments"),
        other => panic!("unexpected {:?}", other.err()),
    }
}

#[test]
fn post_title() {
    let text = r#"{"createdDate": "2021-03-04T10:15:30Z", "body": "  **Great day!** Sam painted.",
        "sender": {"name": "Jane"}, "images": [], "comments": []}"#;
    let p = Post::from_json(&json(text)).unwrap();
    assert_eq!(p.get_title(), "Great day Sam painted");
}

#[test]
fn post_title_is_cut_to_25_characters() {
    let text = r#"{"createdDate": "2021-03-04T10:15:30Z",
        "body": "-- Today we went to the zoo and saw lions",
        "sender": {"name": "Jane"}, "images": [], "comments": []}"#;
    let p = Post::from_json(&json(text)).unwrap();
    assert_eq!(p.get_title(), "Today we went to the zoo ");
    assert_eq!(p.get_title().chars().count(), 25);
}

#[test]
fn tagged_photo_page() {
    let text = format!(
        "[{}, {}]",
        image(r#""2021-03-04T10:15:30Z""#, r#"[{"childId": "A"}]"#),
        image(r#""2021-03-03T09:00:00Z""#, "[]")
    );
    let (photos, cursor) = Photo::from_json_array(text).unwrap();
    assert_eq!(photos.len(), 2);
    assert_eq!(cursor, Some("2021-03-03T09:00:00Z".to_string()));
    let (none, end) = Photo::from_json_array("[]".to_string()).unwrap();
    assert!(none.is_empty());
    assert_eq!(end, None);
    match Photo::from_json_array("{}".to_string()) {
        Err(DecodeError::MissingArray { path }) => assert_eq!(path, ""),
        other => panic!("unexpected {:?}", other.err()),
    }
}

#[test]
fn children_listing() {
    let text = r#"{"children": [
        {"childId": "c1", "name": "Sam Smith (Sunshine)", "institution": {"title": "Sunshine"}},
        {"childId": "c2", "name": "Alex", "institution": {"title": "Moon"}}
    ]}"#;
    let children = child_info::from_json(text.to_string()).unwrap();
    assert_eq!(children.len(), 2);
    assert_eq!(children[0].id, "c1");
    assert_eq!(children[0].institution, "Sunshine");
    assert_eq!(children[0].get_first_name(), "Sam");
    assert_eq!(children[1].get_first_name(), "Alex");
    match child_info::from_json(r#"{"children": [{"childId": "c"}]}"#.to_string()) {
        Err(DecodeError::NotString { field }) => assert_eq!(field, "name"),
        other => panic!("unexpected {:?}", other.err()),
    }
}

#[test]
fn first_name_of_child() {
    let child = |name: &str| ChildInfo {
        id: "id".to_string(),
        full_name_with_institution: name.to_string(),
        institution: "I".to_string(),
    };
    assert_eq!(child("  Sam\tSmith").get_first_name(), "Sam");
    assert_eq!(child("Sam").get_first_name(), "Sam");
    assert_eq!(child("").get_first_name(), "");
    assert_eq!(child("   ").get_first_name(), "   ");
}

#[test]
fn feed_item_texts() {
    let text = r#"{"feedItems": [
        {"body": "one", "createdDate": "d1"},
        {"body": "", "createdDate": "d2"},
        {"systemPostTypeClass": "Daycare.Notice", "body": "x", "createdDate": "d3"}
    ]}"#;
    let (items, cursor) = feed_item::from_json(text.to_string()).unwrap();
    assert_eq!(items.len(), 1);
    assert_eq!(items[0].text, "one");
    assert_eq!(cursor, Some("d3".to_string()));
}

#[test]
fn error_messages_name_what_failed() {
    let e = Photo::from_json(&json(&image(r#""2021-03-04T10:15:30Z""#, r#"[{"childId": ""}]"#)))
        .err()
        .unwrap();
    assert_eq!(e.describe(), "'childId' is not a non-empty string");
    let nested = DecodeError::InPost {
        created_date: Some("2021-03-04".to_string()),
        cause: Box::new(DecodeError::MissingArray { path: "tags".to_string() }),
    };
    assert_eq!(nested.describe(), "in the post of 2021-03-04: no 'tags' array in json");
    let date = DecodeError::BadDate {
        raw: "x".to_string(),
        format: DateFormat::Legacy,
        reason: "bad".to_string(),
    };
    assert_eq!(date.describe(), "failed to parse 'x' as a YYYY-MM-DD HH:MM:SS.ffffff date: bad");
}
