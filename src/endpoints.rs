//! The addresses of the listings that a walk fetches.

use vstd::prelude::*;
use vstd::utf8::encode_utf8;

verus! {

/// The listing of the account's children.
pub const CHILDREN_URL: &'static str = "https://app.famly.de/api/v2/calendar/list";

/// The activity feed, newest first.
pub const FEED_URL: &'static str = "https://app.famly.de/api/feed/feed/feed";

/// The listing of the photos a child is tagged in, newest first.
pub const TAGGED_PHOTOS_URL: &'static str = "https://app.famly.de/api/v2/images/tagged";

/// Whether a byte stands for itself in a URL component: an ASCII letter or
/// digit, or one of `-`, `.`, `_`, `~`.
pub open spec fn is_unreserved(b: u8) -> bool {
    ||| 0x30 <= b <= 0x39
    ||| 0x41 <= b <= 0x5a
    ||| 0x61 <= b <= 0x7a
    ||| b == 0x2d
    ||| b == 0x2e
    ||| b == 0x5f
    ||| b == 0x7e
}

/// The upper-case hexadecimal digit for `d < 16`.
pub open spec fn hex_digit(d: u8) -> char {
    if d < 10 {
        ((d + 0x30) as u32) as char
    } else {
        ((d + 0x37) as u32) as char
    }
}

/// How a byte reads in a URL component: itself, or `%` and two hex digits.
pub open spec fn escaped_byte(b: u8) -> Seq<char> {
    if is_unreserved(b) {
        seq![(b as u32) as char]
    } else {
        seq!['%', hex_digit(b / 16), hex_digit(b % 16)]
    }
}

/// The percent-encoding of `bytes`.
pub open spec fn percent_encoded(bytes: Seq<u8>) -> Seq<char>
    decreases bytes.len(),
{
    if bytes.len() == 0 {
        Seq::empty()
    } else {
        percent_encoded(bytes.drop_last()) + escaped_byte(bytes.last())
    }
}

/// Relies on `urlencoding::encode`: each byte of the UTF-8 text that is no
/// ASCII letter or digit or `-`, `.`, `_`, `~` becomes `%` and two
/// upper-case hex digits.
#[verifier::external_body]
fn url_encode(s: &str) -> (r: String)
    ensures
        r@ == percent_encoded(encode_utf8(s@)),
{
    urlencoding::encode(s).into_owned()
}

/// The address of the feed page older than `older_than`, or of the newest
/// page.
pub open spec fn feed_url_of(older_than: Option<Seq<char>>) -> Seq<char> {
    match older_than {
        Some(date) => FEED_URL@ + "?olderThan="@ + percent_encoded(encode_utf8(date)),
        None => FEED_URL@,
    }
}

/// The address of the page of photos tagged with `child_id` that are older
/// than `older_than`, or of the newest page.
pub open spec fn tagged_photos_url_of(child_id: Seq<char>, older_than: Option<Seq<char>>) -> Seq<char> {
    let base = TAGGED_PHOTOS_URL@ + "?childId="@ + child_id + "&limit=100"@;
    match older_than {
        Some(date) => base + "&olderThan="@ + percent_encoded(encode_utf8(date)),
        None => base,
    }
}

/// The address of the feed page older than `older_than`, or of the newest page.
pub fn feed_url(older_than: &Option<String>) -> (r: String)
    ensures
        r@ == feed_url_of(match older_than {
            Some(d) => Some(d@),
            None => None,
        }),
{
    let mut url = String::from_str(FEED_URL);
    if let Some(date) = older_than {
        url.append("?olderThan=");
        url.append(url_encode(date.as_str()).as_str());
    }
    url
}

/// The address of the page of photos tagged with `child_id` that are older
/// than `older_than`, or of the newest page.
pub fn tagged_photos_url(child_id: &String, older_than: &Option<String>) -> (r: String)
    ensures
        r@ == tagged_photos_url_of(child_id@, match older_than {
            Some(d) => Some(d@),
            None => None,
        }),
{
    let mut url = String::from_str(TAGGED_PHOTOS_URL);
    url.append("?childId=");
    url.append(child_id.as_str());
    url.append("&limit=100");
    if let Some(date) = older_than {
        url.append("&olderThan=");
        url.append(url_encode(date.as_str()).as_str());
    }
    url
}

/// The browser the requests present themselves as.
pub const USER_AGENT: &'static str = "Mozilla/5.0 (Windows NT 10.0; Win64; x64; rv:102.0) Gecko/20100101 Firefox/102.0";

/// The headers every request to the API carries, the access token among
/// them, in order.
pub open spec fn api_headers_of(access_token: Seq<char>) -> Seq<(Seq<char>, Seq<char>)> {
    seq![
        ("host"@, "app.famly.de"@),
        ("user-agent"@, USER_AGENT@),
        ("referer"@, "https://app.famly.de/"@),
        ("content-type"@, "application/json"@),
        ("x-famly-accesstoken"@, access_token),
        ("x-famly-installationid"@, "297e6a1d-d070-4e54-b6a4-3a73a325ccc1"@),
        ("x-famly-platform"@, "html"@),
        ("x-famly-version"@, "2153d828df"@),
        ("cache-control"@, "no-cache"@),
    ]
}

/// The headers every image download carries, in order.
pub open spec fn image_headers_of() -> Seq<(Seq<char>, Seq<char>)> {
    seq![
        ("host"@, "img.famly.de"@),
        ("user-agent"@, USER_AGENT@),
        ("cache-control"@, "no-cache"@),
    ]
}

/// The views of a list of headers.
pub open spec fn header_views(hs: Seq<(String, String)>) -> Seq<(Seq<char>, Seq<char>)> {
    hs.map_values(|h: (String, String)| (h.0@, h.1@))
}

/// A header from its name and value.
fn header(name: &str, value: &str) -> (r: (String, String))
    ensures
        r.0@ == name@,
        r.1@ == value@,
{
    (String::from_str(name), String::from_str(value))
}

/// The headers every request to the API carries, with `access_token`.
pub fn api_headers(access_token: &String) -> (r: Vec<(String, String)>)
    ensures
        header_views(r@) == api_headers_of(access_token@),
{
    let mut hs: Vec<(String, String)> = Vec::new();
    hs.push(header("host", "app.famly.de"));
    hs.push(header("user-agent", USER_AGENT));
    hs.push(header("referer", "https://app.famly.de/"));
    hs.push(header("content-type", "application/json"));
    hs.push((String::from_str("x-famly-accesstoken"), access_token.clone()));
    hs.push(header("x-famly-installationid", "297e6a1d-d070-4e54-b6a4-3a73a325ccc1"));
    hs.push(header("x-famly-platform", "html"));
    hs.push(header("x-famly-version", "2153d828df"));
    hs.push(header("cache-control", "no-cache"));
    proof {
        assert(header_views(hs@) =~= api_headers_of(access_token@));
    }
    hs
}

/// The headers every image download carries.
pub fn image_headers() -> (r: Vec<(String, String)>)
    ensures
        header_views(r@) == image_headers_of(),
{
    let mut hs: Vec<(String, String)> = Vec::new();
    hs.push(header("host", "img.famly.de"));
    hs.push(header("user-agent", USER_AGENT));
    hs.push(header("cache-control", "no-cache"));
    proof {
        assert(header_views(hs@) =~= image_headers_of());
    }
    hs
}

} // verus!
