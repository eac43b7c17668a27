use std::cell::RefCell;

use famly_export::endpoints::{api_headers, feed_url, image_headers, tagged_photos_url};
use famly_export::pagination::{PageWalk, WalkStep};

type Page = Result<(Vec<u32>, Option<String>), String>;

/// Drives a walk with `fetch` for at most `max_calls` pages: the outcome,
/// where the walk ended within them.
fn drive(fetch: impl Fn(Option<String>) -> Page, max_calls: usize) -> Option<Result<Vec<u32>, String>> {
    let mut walk = PageWalk::new();
    for _ in 0..max_calls {
        let page = fetch(walk.cursor());
        match walk.advance(page) {
            WalkStep::Fetch(w) => walk = w,
            WalkStep::Done(items) => return Some(Ok(items)),
            WalkStep::Failed(e) => return Some(Err(e)),
        }
    }
    None
}

#[test]
fn walk_collects_pages_until_the_cursor_is_absent() {
    let calls: RefCell<Vec<Option<String>>> = RefCell::new(Vec::new());
    let fetch = |cursor: Option<String>| -> Page {
        calls.borrow_mut().push(cursor.clone());
        match cursor {
            None => Ok((vec![1, 2], Some("2020-01-01".to_string()))),
            Some(_) => Ok((vec![3], None)),
        }
    };
    assert_eq!(drive(fetch, 100), Some(Ok(vec![1, 2, 3])));
    assert_eq!(*calls.borrow(), vec![None, Some("2020-01-01".to_string())]);
}

#[test]
fn walk_goes_on_while_pages_hand_on_a_cursor() {
    let calls = RefCell::new(0usize);
    let fetch = |_cursor: Option<String>| -> Page {
        *calls.borrow_mut() += 1;
        Ok((vec![], Some("2020-01-01".to_string())))
    };
    assert_eq!(drive(fetch, 1000), None);
    assert_eq!(*calls.borrow(), 1000);
}

#[test]
fn walk_advances_over_pages_that_yield_nothing() {
    let fetch = |cursor: Option<String>| -> Page {
        match cursor.as_deref() {
            None => Ok((vec![], Some("b".to_string()))),
            Some("b") => Ok((vec![], Some("c".to_string()))),
            _ => Ok((vec![7], None)),
        }
    };
    assert_eq!(drive(fetch, 10), Some(Ok(vec![7])));
}

#[test]
fn walk_failure_drops_collected_records() {
    let fetch = |cursor: Option<String>| -> Page {
        match cursor {
            None => Ok((vec![1], Some("x".to_string()))),
            Some(_) => Err("offline".to_string()),
        }
    };
    assert_eq!(drive(fetch, 10), Some(Err("offline".to_string())));
}

#[test]
fn first_page_has_no_cursor() {
    let walk: PageWalk<u32> = PageWalk::new();
    assert_eq!(walk.cursor(), None);
}

#[test]
fn feed_url_encodes_the_cursor() {
    assert_eq!(feed_url(&None), "https://app.famly.de/api/feed/feed/feed");
    assert_eq!(
        feed_url(&Some("2021-03-04T10:15:30+00:00".to_string())),
        "https://app.famly.de/api/feed/feed/feed?olderThan=2021-03-04T10%3A15%3A30%2B00%3A00"
    );
}

#[test]
fn tagged_photos_url_names_the_child() {
    assert_eq!(
        tagged_photos_url(&"c1".to_string(), &None),
        "https://app.famly.de/api/v2/images/tagged?childId=c1&limit=100"
    );
    assert_eq!(
        tagged_photos_url(&"c1".to_string(), &Some("a b".to_string())),
        "https://app.famly.de/api/v2/images/tagged?childId=c1&limit=100&olderThan=a%20b"
    );
}

#[test]
fn request_headers() {
    let hs = api_headers(&"SECRET-REDACTED".to_string());
    assert_eq!(hs.len(), 9);
    assert_eq!(hs[0], ("host".to_string(), "app.famly.de".to_string()));
    assert_eq!(hs[4], ("x-famly-accesstoken".to_string(), "SECRET-REDACTED".to_string()));
    let img = image_headers();
    assert_eq!(img.len(), 3);
    assert_eq!(img[0], ("host".to_string(), "img.famly.de".to_string()));
}
