//! Photos, comments and posts of the feed, and how they are decoded.

use vstd::prelude::*;
use crate::error::{DecodeError, DateFormat, Fault, outcome, opt_view};
use crate::json::{
    Json, field, string_at, string_field, lemma_decode_each_stops, page_cursor, page_outcome,
    last_item_cursor, json_of_text, unsigned_at, date_at, decode_each, views, parse_string, parse_int,
    parse_date,
};
use crate::text::{decimal, decimal_text};
use crate::filter::{is_content, is_content_item};
use crate::chars::{chars_of, push_char, alphanumeric, is_alphanumeric};
use crate::time::{
    Timestamp, pattern_instant, formatted_instant, parse_utc_pattern, format_utc,
    LEGACY_DATE_PATTERN, FILE_STAMP_PATTERN,
};

verus! {

pub struct Photo {
    pub id: String,
    pub date: Timestamp,
    /// URL of the full size image (valid only for some time).
    pub url: String,
    /// The ids of the children the photo is tagged with.
    pub tags: Vec<String>,
}

/// The mathematical value of a [`Photo`].
pub struct PhotoView {
    pub id: Seq<char>,
    pub date: Timestamp,
    pub url: Seq<char>,
    /// The ids of the children the photo is tagged with, in the feed's order.
    pub tags: Seq<Seq<char>>,
}

impl View for Photo {
    type V = PhotoView;

    open spec fn view(&self) -> PhotoView {
        PhotoView { id: self.id@, date: self.date, url: self.url@, tags: views(self.tags@) }
    }
}

/// When an image was taken: `createdAt` is either an object whose `date`
/// holds the older encoding, or an RFC 3339 string.
pub open spec fn capture_time(j: Json) -> Result<Timestamp, Fault> {
    let created = field(j, "createdAt"@);
    if created is Object {
        match string_at(created, "date"@) {
            Err(e) => Err(e),
            Ok(raw) => match pattern_instant(raw, LEGACY_DATE_PATTERN@) {
                Ok(p) => Ok(Timestamp { secs: p.0, nanos: p.1 }),
                Err(reason) => Err(Fault::BadDate { raw, format: DateFormat::Legacy, reason }),
            },
        }
    } else {
        date_at(j, "createdAt"@)
    }
}

/// The URL of an image of the given size: `prefix/WIDTHxHEIGHT/key`.
pub open spec fn display_url(prefix: Seq<char>, width: u64, height: u64, key: Seq<char>) -> Seq<char> {
    prefix + "/"@ + decimal(width as nat) + "x"@ + decimal(height as nat) + "/"@ + key
}

/// The child id of one element of an image's `tags`.
pub open spec fn tag_id(t: Json) -> Result<Seq<char>, Fault> {
    string_at(t, "childId"@)
}

/// What the media record builder makes of an image node.
pub open spec fn photo_of(j: Json) -> Result<PhotoView, Fault> {
    match capture_time(j) {
        Err(e) => Err(e),
        Ok(date) => match string_at(j, "prefix"@) {
            Err(e) => Err(e),
            Ok(prefix) => match string_at(j, "key"@) {
                Err(e) => Err(e),
                Ok(key) => match unsigned_at(j, "height"@) {
                    Err(e) => Err(e),
                    Ok(height) => match unsigned_at(j, "width"@) {
                        Err(e) => Err(e),
                        Ok(width) => match field(j, "tags"@) {
                            Json::Array(tags) => match decode_each(tags@, |t: Json| tag_id(t)) {
                                Err(e) => Err(e),
                                Ok(ids) => match string_at(j, "imageId"@) {
                                    Err(e) => Err(e),
                                    Ok(id) => Ok(PhotoView {
                                        id,
                                        date,
                                        url: display_url(prefix, width, height, key),
                                        tags: ids,
                                    }),
                                },
                            },
                            _ => Err(Fault::MissingArray { path: "tags"@ }),
                        },
                    },
                },
            },
        },
    }
}

/// The first four characters of `id`, or all of it where it is shorter.
pub open spec fn short_id(id: Seq<char>) -> Seq<char> {
    if id.len() <= 4 { id } else { id.take(4) }
}

/// The file name a photo is stored under: its date, the start of its id and
/// `.jpg`; `None` where chrono cannot represent the date.
pub open spec fn file_name_of(p: PhotoView) -> Option<Seq<char>> {
    match formatted_instant(p.date.secs, p.date.nanos, FILE_STAMP_PATTERN@) {
        Some(d) => Some(d + "_"@ + short_id(p.id) + ".jpg"@),
        None => None,
    }
}

/// Decodes the `date` of the older `createdAt` object.
fn parse_legacy_date(created: &Json) -> (r: Result<Timestamp, DecodeError>)
    ensures
        outcome(r) == (match string_at(*created, "date"@) {
            Err(e) => Err(e),
            Ok(raw) => match pattern_instant(raw, LEGACY_DATE_PATTERN@) {
                Ok(p) => Ok(Timestamp { secs: p.0, nanos: p.1 }),
                Err(reason) => Err(Fault::BadDate { raw, format: DateFormat::Legacy, reason }),
            },
        }),
{
    let raw = parse_string(created, "date")?;
    match parse_utc_pattern(raw.as_str(), LEGACY_DATE_PATTERN) {
        Ok(t) => Ok(t),
        Err(reason) => Err(DecodeError::BadDate { raw, format: DateFormat::Legacy, reason }),
    }
}

/// Decodes the child ids of an image's `tags`.
fn parse_tags(tags: &Vec<Json>) -> (r: Result<Vec<String>, DecodeError>)
    ensures
        match r {
            Ok(ids) => decode_each(tags@, |t: Json| tag_id(t)) == Ok::<Seq<Seq<char>>, Fault>(views(ids@)),
            Err(e) => decode_each(tags@, |t: Json| tag_id(t)) == Err::<Seq<Seq<char>>, Fault>(e@),
        },
{
    let mut ids: Vec<String> = Vec::new();
    let mut i: usize = 0;
    proof {
        assert(tags@.subrange(0, 0) =~= Seq::<Json>::empty());
        assert(views(ids@) =~= Seq::<Seq<char>>::empty());
    }
    while i < tags.len()
        invariant
            i <= tags@.len(),
            decode_each(tags@.subrange(0, i as int), |t: Json| tag_id(t))
                == Ok::<Seq<Seq<char>>, Fault>(views(ids@)),
        decreases tags.len() - i,
    {
        proof {
            assert(tags@.subrange(0, i + 1).drop_last() =~= tags@.subrange(0, i as int));
        }
        match parse_string(&tags[i], "childId") {
            Ok(id) => {
                let ghost before = ids@;
                let ghost idv = id@;
                ids.push(id);
                proof {
                    assert(views(ids@) =~= views(before).push(idv));
                }
            },
            Err(e) => {
                proof {
                    lemma_decode_each_stops(tags@, i + 1, |t: Json| tag_id(t));
                }
                return Err(e);
            },
        }
        i = i + 1;
    }
    proof {
        assert(tags@.subrange(0, tags@.len() as int) =~= tags@);
    }
    Ok(ids)
}

impl Photo {
    /// Decodes one image node of the feed.
    pub fn from_json(json: &Json) -> (r: Result<Photo, DecodeError>)
        ensures
            outcome(r) == photo_of(*json),
    {
        let date = match json.get("createdAt") {
            Some(created) if matches!(created, Json::Object(_)) => parse_legacy_date(created)?,
            _ => parse_date(json, "createdAt")?,
        };
        let prefix = parse_string(json, "prefix")?;
        let key = parse_string(json, "key")?;
        let height = parse_int(json, "height")?;
        let width = parse_int(json, "width")?;
        let tags = match json.get("tags") {
            Some(Json::Array(items)) => parse_tags(items)?,
            _ => {
                return Err(DecodeError::MissingArray { path: String::from_str("tags") });
            },
        };
        let id = parse_string(json, "imageId")?;

        let mut url = prefix;
        url.append("/");
        url.append(decimal_text(width).as_str());
        url.append("x");
        url.append(decimal_text(height).as_str());
        url.append("/");
        url.append(key.as_str());
        Ok(Photo { id, date, url, tags })
    }

    /// Whether the photo is tagged with the child `child_id`.
    pub fn is_tagged(&self, child_id: &String) -> (r: bool)
        ensures
            r == self@.tags.contains(child_id@),
    {
        let mut i: usize = 0;
        while i < self.tags.len()
            invariant
                i <= self.tags@.len(),
                forall|k: int| 0 <= k < i ==> self.tags@[k]@ != child_id@,
            decreases self.tags.len() - i,
        {
            if self.tags[i] == *child_id {
                proof {
                    assert(self@.tags[i as int] == child_id@);
                }
                return true;
            }
            i = i + 1;
        }
        proof {
            assert forall|k: int| 0 <= k < self@.tags.len() implies self@.tags[k] != child_id@ by {
                assert(self@.tags[k] == self.tags@[k]@);
            }
        }
        false
    }

    /// The name the photo is stored under: its date, the first characters of
    /// its id and `.jpg`; `None` where the date lies outside what chrono can
    /// represent.
    pub fn get_file_name(&self) -> (r: Option<String>)
        ensures
            match r {
                Some(s) => file_name_of(self@) == Some(s@),
                None => file_name_of(self@) is None,
            },
    {
        match format_utc(self.date, FILE_STAMP_PATTERN) {
            Some(date) => {
                let id = chars_of(self.id.as_str());
                let mut name = date;
                name.append("_");
                let mut i: usize = 0;
                while i < id.len() && i < 4
                    invariant
                        i <= id@.len(),
                        i <= 4,
                        id@ == self.id@,
                        name@ == formatted_instant(self.date.secs, self.date.nanos, FILE_STAMP_PATTERN@)->0
                            + "_"@ + id@.take(i as int),
                    decreases 4 - i,
                {
                    proof {
                        assert(id@.take(i + 1) =~= id@.take(i as int).push(id@[i as int]));
                    }
                    push_char(&mut name, id[i]);
                    i = i + 1;
                }
                proof {
                    if id@.len() <= 4 {
                        assert(id@.take(i as int) =~= id@);
                    }
                }
                name.append(".jpg");
                Some(name)
            },
            None => None,
        }
    }
}

impl Photo {
    /// The photos of a decoded page of tagged photos, and the cursor of the
    /// next page (`None` once the listing is exhausted).
    pub fn page_from_json(v: &Json) -> (r: Result<(Vec<Photo>, Option<String>), DecodeError>)
        ensures
            page_outcome(r) == photo_page(*v),
    {
        match v {
            Json::Array(items) => {
                let photos = parse_photos(items)?;
                let cursor = last_item_cursor(items, "createdAt")?;
                Ok((photos, cursor))
            },
            _ => Err(DecodeError::MissingArray { path: String::new() }),
        }
    }

    /// Reads a page of tagged photos: the photos, and the cursor of the next
    /// page (`None` once the listing is exhausted).
    pub fn from_json_array(json: String) -> (r: Result<(Vec<Photo>, Option<String>), DecodeError>)
        ensures
            match json_of_text(json@) {
                Ok(v) => page_outcome(r) == photo_page(v),
                Err(reason) => r matches Err(e) && e@ == (Fault::Syntax { reason }),
            },
    {
        let v = Json::parse(json.as_str())?;
        Photo::page_from_json(&v)
    }
}

pub struct Comment {
    pub date: Timestamp,
    pub author: String,
    pub text: String,
}

/// The mathematical value of a [`Comment`].
pub struct CommentView {
    pub date: Timestamp,
    pub author: Seq<char>,
    pub text: Seq<char>,
}

impl View for Comment {
    type V = CommentView;

    open spec fn view(&self) -> CommentView {
        CommentView { date: self.date, author: self.author@, text: self.text@ }
    }
}

/// The author label of a comment: the sender's name, followed by ` | ` and
/// the subtitle where there is a non-empty one.
pub open spec fn author_of(name: Seq<char>, subtitle: Option<Seq<char>>) -> Seq<char> {
    match subtitle {
        Some(sub) => if sub.len() > 0 { name + " | "@ + sub } else { name },
        None => name,
    }
}

/// What the annotation builder makes of a comment node.
pub open spec fn comment_of(j: Json) -> Result<CommentView, Fault> {
    let sender = field(j, "sender"@);
    match string_at(sender, "name"@) {
        Err(e) => Err(e),
        Ok(name) => match date_at(j, "createdDate"@) {
            Err(e) => Err(e),
            Ok(date) => match string_at(j, "body"@) {
                Err(e) => Err(e),
                Ok(text) => Ok(CommentView {
                    date,
                    author: author_of(name, string_field(sender, "subtitle"@)),
                    text,
                }),
            },
        },
    }
}

/// The string in member `property_name` of the `sender` of `json`.
fn parse_sender_string(json: &Json, property_name: &str) -> (r: Result<String, DecodeError>)
    ensures
        outcome(r) == string_at(field(*json, "sender"@), property_name@),
{
    match json.get("sender") {
        Some(sender) => parse_string(sender, property_name),
        None => Err(DecodeError::NotString { field: String::from_str(property_name) }),
    }
}

/// Composes the author label of a comment from its sender's name and
/// optional subtitle.
pub fn compose_author(name: String, subtitle: Option<String>) -> (r: String)
    ensures
        r@ == author_of(name@, opt_view(subtitle)),
{
    match subtitle {
        Some(sub) => {
            if sub.as_str().unicode_len() > 0 {
                let mut author = name;
                author.append(" | ");
                author.append(sub.as_str());
                author
            } else {
                name
            }
        },
        None => name,
    }
}

impl Comment {
    /// Decodes one comment node of the feed. An absent or malformed subtitle
    /// of the sender leaves the author the bare name.
    pub fn from_json(json: &Json) -> (r: Result<Comment, DecodeError>)
        ensures
            outcome(r) == comment_of(*json),
    {
        let name = parse_sender_string(json, "name")?;
        let subtitle = match parse_sender_string(json, "subtitle") {
            Ok(s) => Some(s),
            Err(_) => None,
        };
        let date = parse_date(json, "createdDate")?;
        let text = parse_string(json, "body")?;
        Ok(Comment { date, author: compose_author(name, subtitle), text })
    }
}

pub struct Post {
    /// The feed stores no time zones: all dates are in UTC.
    pub date: Timestamp,
    pub author: String,
    pub text: String,
    pub photos: Vec<Photo>,
    pub comments: Vec<Comment>,
}

/// The mathematical value of a [`Post`].
pub struct PostView {
    pub date: Timestamp,
    pub author: Seq<char>,
    pub text: Seq<char>,
    pub photos: Seq<PhotoView>,
    pub comments: Seq<CommentView>,
}

impl View for Post {
    type V = PostView;

    open spec fn view(&self) -> PostView {
        PostView {
            date: self.date,
            author: self.author@,
            text: self.text@,
            photos: views(self.photos@),
            comments: views(self.comments@),
        }
    }
}

/// The length a post's title is cut to.
pub const TITLE_LEN: usize = 25;

/// The characters of `s` that make a title: alphanumeric characters, and
/// spaces once the first alphanumeric character has been seen (`started`).
pub open spec fn title_chars(s: Seq<char>, started: bool) -> Seq<char>
    decreases s.len(),
{
    if s.len() == 0 {
        Seq::empty()
    } else if s[0] == ' ' {
        if started {
            seq![' '] + title_chars(s.drop_first(), true)
        } else {
            title_chars(s.drop_first(), false)
        }
    } else if alphanumeric(s[0]) {
        seq![s[0]] + title_chars(s.drop_first(), true)
    } else {
        title_chars(s.drop_first(), started)
    }
}

/// The first `TITLE_LEN` characters of `s`, or all of it where it is shorter.
pub open spec fn clip_title(s: Seq<char>) -> Seq<char> {
    if s.len() <= TITLE_LEN { s } else { s.take(TITLE_LEN as int) }
}

/// The title of a post with text `text`.
pub open spec fn title_of(text: Seq<char>) -> Seq<char> {
    clip_title(title_chars(text, false))
}

/// Whether one of the photos of `p` is tagged with the child `child_id`.
pub open spec fn tags_child(p: PostView, child_id: Seq<char>) -> bool {
    exists|i: int| 0 <= i < p.photos.len() && p.photos[i].tags.contains(child_id)
}

/// The post-parse filter: keeps every post where no target child is given,
/// else the posts with a photo tagged with it.
pub open spec fn keeps(p: PostView, target: Option<Seq<char>>) -> bool {
    match target {
        Some(child_id) => tags_child(p, child_id),
        None => true,
    }
}

/// The posts that the raw feed `items` yield, in order: items that the
/// pre-parse filter rejects are skipped, the others decoded and then kept as
/// the post-parse filter says; the first item that fails to decode fails the
/// whole page.
pub open spec fn feed_posts(items: Seq<Json>, target: Option<Seq<char>>) -> Result<Seq<PostView>, Fault>
    decreases items.len(),
{
    if items.len() == 0 {
        Ok(Seq::empty())
    } else {
        match feed_posts(items.drop_last(), target) {
            Err(e) => Err(e),
            Ok(done) => if !is_content(items.last()) {
                Ok(done)
            } else {
                match post_of(items.last()) {
                    Err(e) => Err(e),
                    Ok(p) => if keeps(p, target) { Ok(done.push(p)) } else { Ok(done) },
                }
            },
        }
    }
}

/// What a feed page document yields: its posts and the cursor of the next
/// page, taken from the last raw item whether or not that item was kept.
pub open spec fn feed_page(v: Json, target: Option<Seq<char>>) -> Result<(Seq<PostView>, Option<Seq<char>>), Fault> {
    match field(v, "feedItems"@) {
        Json::Array(items) => match feed_posts(items@, target) {
            Err(e) => Err(e),
            Ok(posts) => match page_cursor(items@, "createdDate"@) {
                Err(e) => Err(e),
                Ok(cursor) => Ok((posts, cursor)),
            },
        },
        _ => Err(Fault::MissingArray { path: "feedItems"@ }),
    }
}

/// What a page of tagged photos yields: the photos of the array that the
/// document is, and the cursor of the next page.
pub open spec fn photo_page(v: Json) -> Result<(Seq<PhotoView>, Option<Seq<char>>), Fault> {
    match v {
        Json::Array(items) => match decode_each(items@, |i: Json| photo_of(i)) {
            Err(e) => Err(e),
            Ok(photos) => match page_cursor(items@, "createdAt"@) {
                Err(e) => Err(e),
                Ok(cursor) => Ok((photos, cursor)),
            },
        },
        _ => Err(Fault::MissingArray { path: Seq::empty() }),
    }
}

/// Once the raw items up to `n` fail, the whole feed fails with the same
/// fault.
pub proof fn lemma_feed_posts_stops(items: Seq<Json>, n: int, target: Option<Seq<char>>)
    requires
        0 <= n <= items.len(),
        feed_posts(items.subrange(0, n), target) is Err,
    ensures
        feed_posts(items, target) == feed_posts(items.subrange(0, n), target),
    decreases items.len() - n,
{
    if n == items.len() {
        assert(items.subrange(0, n) =~= items);
    } else {
        assert(items.subrange(0, n + 1).drop_last() =~= items.subrange(0, n));
        lemma_feed_posts_stops(items, n + 1, target);
    }
}

/// A raw feed item that the pre-parse filter rejects is never decoded: it
/// adds nothing to the posts, whatever it holds.
pub proof fn lemma_rejected_item_is_skipped(items: Seq<Json>, item: Json, target: Option<Seq<char>>)
    requires
        !is_content(item),
    ensures
        feed_posts(items.push(item), target) == feed_posts(items, target),
{
    assert(items.push(item).drop_last() =~= items);
}

/// A decoded post joins the posts exactly when the post-parse filter keeps
/// it: with a target child, when one of its photos is tagged with that child;
/// without one, always.
pub proof fn lemma_decoded_post_kept_iff_tagged(items: Seq<Json>, item: Json, target: Option<Seq<char>>)
    requires
        is_content(item),
        post_of(item) is Ok,
        feed_posts(items, target) is Ok,
    ensures
        feed_posts(items.push(item), target) == (if keeps(post_of(item)->Ok_0, target) {
            Ok(feed_posts(items, target)->Ok_0.push(post_of(item)->Ok_0))
        } else {
            feed_posts(items, target)
        }),
{
    assert(items.push(item).drop_last() =~= items);
}

/// The cursor of a feed page comes from its last raw item, whether or not
/// the filters kept that item: a page whose items were all filtered out
/// still hands on a cursor.
pub proof fn lemma_cursor_from_last_raw_item(v: Json, target: Option<Seq<char>>)
    requires
        feed_page(v, target) is Ok,
    ensures
        field(v, "feedItems"@) matches Json::Array(items) && feed_page(v, target)->Ok_0.1 == (
            if items@.len() == 0 {
                None
            } else {
                string_field(items@.last(), "createdDate"@)
            }),
{
}

/// The view of an optional borrowed string.
pub open spec fn opt_ref_view(o: Option<&String>) -> Option<Seq<char>> {
    match o {
        Some(s) => Some(s@),
        None => None,
    }
}

/// Whether every character of `s` could stand in a title.
pub open spec fn title_alphabet(s: Seq<char>) -> bool {
    forall|i: int| 0 <= i < s.len() ==> (#[trigger] s[i] == ' ' || alphanumeric(s[i]))
}

/// What `title_chars` keeps is made of title characters, and starts with an
/// alphanumeric one unless spaces were already being kept.
proof fn lemma_title_chars_shape(s: Seq<char>, started: bool)
    ensures
        title_alphabet(title_chars(s, started)),
        !started && title_chars(s, started).len() > 0 ==> alphanumeric(title_chars(s, started)[0])
            && title_chars(s, started)[0] != ' ',
    decreases s.len(),
{
    if s.len() > 0 {
        let rest = s.drop_first();
        lemma_title_chars_shape(rest, true);
        lemma_title_chars_shape(rest, started);
        if s[0] == ' ' && started {
            let t = seq![' '] + title_chars(rest, true);
            assert forall|i: int| 0 <= i < t.len() implies (#[trigger] t[i] == ' ' || alphanumeric(t[i])) by {
                if i > 0 {
                    assert(t[i] == title_chars(rest, true)[i - 1]);
                }
            }
        } else if s[0] != ' ' && alphanumeric(s[0]) {
            let t = seq![s[0]] + title_chars(rest, true);
            assert forall|i: int| 0 <= i < t.len() implies (#[trigger] t[i] == ' ' || alphanumeric(t[i])) by {
                if i > 0 {
                    assert(t[i] == title_chars(rest, true)[i - 1]);
                }
            }
        }
    }
}

/// A run of title characters that is already started comes through whole.
proof fn lemma_title_chars_keeps(s: Seq<char>)
    requires
        title_alphabet(s),
    ensures
        title_chars(s, true) == s,
    decreases s.len(),
{
    if s.len() > 0 {
        let rest = s.drop_first();
        assert(title_alphabet(rest)) by {
            assert forall|i: int| 0 <= i < rest.len() implies (#[trigger] rest[i] == ' ' || alphanumeric(rest[i])) by {
                assert(rest[i] == s[i + 1]);
            }
        }
        lemma_title_chars_keeps(rest);
        assert(s[0] == ' ' || alphanumeric(s[0]));
        assert(seq![s[0]] + rest =~= s);
    }
}

/// A post's title is its own title: taking the title twice changes nothing.
pub proof fn lemma_title_idempotent(text: Seq<char>)
    ensures
        title_of(title_of(text)) == title_of(text),
{
    let full = title_chars(text, false);
    let t = title_of(text);
    lemma_title_chars_shape(text, false);
    assert(title_alphabet(t)) by {
        assert forall|i: int| 0 <= i < t.len() implies (#[trigger] t[i] == ' ' || alphanumeric(t[i])) by {
            assert(t[i] == full[i]);
        }
    }
    if t.len() > 0 {
        assert(t[0] == full[0]);
        let rest = t.drop_first();
        assert(title_alphabet(rest)) by {
            assert forall|i: int| 0 <= i < rest.len() implies (#[trigger] rest[i] == ' ' || alphanumeric(rest[i])) by {
                assert(rest[i] == t[i + 1]);
            }
        }
        lemma_title_chars_keeps(rest);
        assert(t[0] != ' ');
        assert(seq![t[0]] + rest =~= t);
        assert(title_chars(t, false) == t);
    } else {
        assert(title_chars(t, false) =~= t);
    }
}

/// A fault of an image or comment of the feed item `j`, located by the
/// item's raw `createdDate`.
pub open spec fn in_post(j: Json, cause: Fault) -> Fault {
    Fault::InPost { created_date: string_field(j, "createdDate"@), cause: Box::new(cause) }
}

/// What the feed entry builder makes of a feed item node.
pub open spec fn post_of(j: Json) -> Result<PostView, Fault> {
    match field(j, "images"@) {
        Json::Array(images) => match decode_each(images@, |i: Json| photo_of(i)) {
            Err(e) => Err(in_post(j, e)),
            Ok(photos) => match field(j, "comments"@) {
                Json::Array(comments) => match decode_each(comments@, |c: Json| comment_of(c)) {
                    Err(e) => Err(in_post(j, e)),
                    Ok(comments) => match date_at(j, "createdDate"@) {
                        Err(e) => Err(e),
                        Ok(date) => match string_at(j, "body"@) {
                            Err(e) => Err(e),
                            Ok(text) => match string_at(field(j, "sender"@), "name"@) {
                                Err(e) => Err(e),
                                Ok(author) => Ok(PostView { date, author, text, photos, comments }),
                            },
                        },
                    },
                },
                _ => Err(Fault::MissingArray { path: "comments"@ }),
            },
        },
        _ => Err(Fault::MissingArray { path: "images"@ }),
    }
}

/// The raw `createdDate` of a feed item, where it is a string.
fn raw_created_date(json: &Json) -> (r: Option<String>)
    ensures
        opt_view(r) == string_field(*json, "createdDate"@),
{
    match json.get("createdDate") {
        Some(Json::Str(s)) => Some(s.clone()),
        _ => None,
    }
}

/// Decodes image nodes, in order.
fn parse_photos(images: &Vec<Json>) -> (r: Result<Vec<Photo>, DecodeError>)
    ensures
        match decode_each(images@, |i: Json| photo_of(i)) {
            Ok(ps) => r matches Ok(photos) && views(photos@) == ps,
            Err(e) => r matches Err(x) && x@ == e,
        },
{
    let mut photos: Vec<Photo> = Vec::new();
    let mut i: usize = 0;
    proof {
        assert(images@.subrange(0, 0) =~= Seq::<Json>::empty());
        assert(views(photos@) =~= Seq::<PhotoView>::empty());
    }
    while i < images.len()
        invariant
            i <= images@.len(),
            decode_each(images@.subrange(0, i as int), |i: Json| photo_of(i))
                == Ok::<Seq<PhotoView>, Fault>(views(photos@)),
        decreases images.len() - i,
    {
        proof {
            assert(images@.subrange(0, i + 1).drop_last() =~= images@.subrange(0, i as int));
        }
        match Photo::from_json(&images[i]) {
            Ok(p) => {
                let ghost before = photos@;
                let ghost pv = p@;
                photos.push(p);
                proof {
                    assert(views(photos@) =~= views(before).push(pv));
                }
            },
            Err(e) => {
                proof {
                    lemma_decode_each_stops(images@, i + 1, |i: Json| photo_of(i));
                }
                return Err(e);
            },
        }
        i = i + 1;
    }
    proof {
        assert(images@.subrange(0, images@.len() as int) =~= images@);
    }
    Ok(photos)
}

/// Decodes comment nodes, in order.
fn parse_comments(comments: &Vec<Json>) -> (r: Result<Vec<Comment>, DecodeError>)
    ensures
        match decode_each(comments@, |c: Json| comment_of(c)) {
            Ok(cs) => r matches Ok(out) && views(out@) == cs,
            Err(e) => r matches Err(x) && x@ == e,
        },
{
    let mut out: Vec<Comment> = Vec::new();
    let mut i: usize = 0;
    proof {
        assert(comments@.subrange(0, 0) =~= Seq::<Json>::empty());
        assert(views(out@) =~= Seq::<CommentView>::empty());
    }
    while i < comments.len()
        invariant
            i <= comments@.len(),
            decode_each(comments@.subrange(0, i as int), |c: Json| comment_of(c))
                == Ok::<Seq<CommentView>, Fault>(views(out@)),
        decreases comments.len() - i,
    {
        proof {
            assert(comments@.subrange(0, i + 1).drop_last() =~= comments@.subrange(0, i as int));
        }
        match Comment::from_json(&comments[i]) {
            Ok(c) => {
                let ghost before = out@;
                let ghost cv = c@;
                out.push(c);
                proof {
                    assert(views(out@) =~= views(before).push(cv));
                }
            },
            Err(e) => {
                proof {
                    lemma_decode_each_stops(comments@, i + 1, |c: Json| comment_of(c));
                }
                return Err(e);
            },
        }
        i = i + 1;
    }
    proof {
        assert(comments@.subrange(0, comments@.len() as int) =~= comments@);
    }
    Ok(out)
}

impl Post {
    /// The post's title: the first alphanumeric characters of its text, with
    /// the spaces between them, leading spaces and all other characters
    /// dropped, cut to `TITLE_LEN` characters.
    pub fn get_title(&self) -> (r: String)
        ensures
            r@ == title_of(self.text@),
    {
        let text = self.text.as_str();
        let n = text.unicode_len();
        let mut title = String::new();
        let mut count: usize = 0;
        let mut started = false;
        let ghost s = text@;
        let mut i: usize = 0;
        proof {
            assert(s.subrange(0, n as int) =~= s);
            assert(Seq::<char>::empty() + title_chars(s, false) =~= title_chars(s, false));
        }
        while i < n && count < TITLE_LEN
            invariant
                s == text@,
                n == s.len(),
                i <= n,
                count == title@.len(),
                count <= TITLE_LEN,
                title_chars(s, false) == title@ + title_chars(s.subrange(i as int, n as int), started),
            decreases n - i,
        {
            let c = text.get_char(i);
            proof {
                assert(s.subrange(i as int, n as int).drop_first() =~= s.subrange(i + 1, n as int));
                assert(s.subrange(i as int, n as int)[0] == c);
            }
            let keep = if c == ' ' {
                started
            } else if is_alphanumeric(c) {
                started = true;
                true
            } else {
                false
            };
            if keep {
                proof {
                    assert(title@ + (seq![c] + title_chars(s.subrange(i + 1, n as int), started))
                        =~= title@.push(c) + title_chars(s.subrange(i + 1, n as int), started));
                }
                push_char(&mut title, c);
                count = count + 1;
            }
            i = i + 1;
        }
        proof {
            let rest = title_chars(s.subrange(i as int, n as int), started);
            if count < TITLE_LEN {
                assert(s.subrange(i as int, n as int) =~= Seq::<char>::empty());
                assert(title@ + rest =~= title@);
            } else {
                assert((title@ + rest).take(TITLE_LEN as int) =~= title@);
            }
        }
        title
    }

    /// Decodes one feed item node that the pre-parse filter let through. A
    /// malformed image or comment fails the whole post.
    pub fn from_json(json: &Json) -> (r: Result<Post, DecodeError>)
        ensures
            outcome(r) == post_of(*json),
    {
        let photos = match json.get("images") {
            Some(Json::Array(images)) => match parse_photos(images) {
                Ok(photos) => photos,
                Err(e) => {
                    return Err(DecodeError::InPost { created_date: raw_created_date(json), cause: Box::new(e) });
                },
            },
            _ => {
                return Err(DecodeError::MissingArray { path: String::from_str("images") });
            },
        };
        let comments = match json.get("comments") {
            Some(Json::Array(items)) => match parse_comments(items) {
                Ok(comments) => comments,
                Err(e) => {
                    return Err(DecodeError::InPost { created_date: raw_created_date(json), cause: Box::new(e) });
                },
            },
            _ => {
                return Err(DecodeError::MissingArray { path: String::from_str("comments") });
            },
        };
        let date = parse_date(json, "createdDate")?;
        let text = parse_string(json, "body")?;
        let author = parse_sender_string(json, "name")?;
        Ok(Post { date, author, text, photos, comments })
    }

    /// The post-parse filter: whether one of the post's photos is tagged with
    /// the child `child_id`.
    pub fn is_tagged_with(&self, child_id: &String) -> (r: bool)
        ensures
            r == tags_child(self@, child_id@),
    {
        let mut i: usize = 0;
        while i < self.photos.len()
            invariant
                i <= self.photos@.len(),
                forall|k: int| 0 <= k < i ==> !self@.photos[k].tags.contains(child_id@),
            decreases self.photos.len() - i,
        {
            if self.photos[i].is_tagged(child_id) {
                proof {
                    assert(self@.photos[i as int] == self.photos@[i as int]@);
                }
                return true;
            }
            proof {
                assert(self@.photos[i as int] == self.photos@[i as int]@);
            }
            i = i + 1;
        }
        false
    }

    /// The posts of a decoded feed page and the cursor of the next page. With
    /// a target child only the posts with a photo tagged with it are kept;
    /// without one the post-parse filter is skipped.
    pub fn from_feed_value(v: &Json, child_id: Option<&String>) -> (r: Result<(Vec<Post>, Option<String>), DecodeError>)
        ensures
            page_outcome(r) == feed_page(*v, opt_ref_view(child_id)),
    {
        let items = match v.get("feedItems") {
            Some(Json::Array(items)) => items,
            _ => {
                return Err(DecodeError::MissingArray { path: String::from_str("feedItems") });
            },
        };
        let ghost target = opt_ref_view(child_id);
        let mut posts: Vec<Post> = Vec::new();
        let mut i: usize = 0;
        proof {
            assert(items@.subrange(0, 0) =~= Seq::<Json>::empty());
            assert(views(posts@) =~= Seq::<PostView>::empty());
        }
        while i < items.len()
            invariant
                i <= items@.len(),
                target == opt_ref_view(child_id),
                field(*v, "feedItems"@) == Json::Array(*items),
                feed_posts(items@.subrange(0, i as int), target) == Ok::<Seq<PostView>, Fault>(views(posts@)),
            decreases items.len() - i,
        {
            let item = &items[i];
            proof {
                assert(items@.subrange(0, i + 1).drop_last() =~= items@.subrange(0, i as int));
                assert(items@.subrange(0, i + 1).last() == *item);
            }
            if is_content_item(item) {
                match Post::from_json(item) {
                    Ok(post) => {
                        let keep = match child_id {
                            Some(c) => post.is_tagged_with(c),
                            None => true,
                        };
                        if keep {
                            let ghost before = posts@;
                            let ghost pv = post@;
                            posts.push(post);
                            proof {
                                assert(views(posts@) =~= views(before).push(pv));
                            }
                        }
                    },
                    Err(e) => {
                        proof {
                            assert(feed_posts(items@.subrange(0, i + 1), target)
                                == Err::<Seq<PostView>, Fault>(e@));
                            lemma_feed_posts_stops(items@, i + 1, target);
                        }
                        return Err(e);
                    },
                }
            }
            i = i + 1;
        }
        proof {
            assert(items@.subrange(0, items@.len() as int) =~= items@);
        }
        let cursor = last_item_cursor(items, "createdDate")?;
        Ok((posts, cursor))
    }

    /// Reads a page of the activity feed: its posts that have a photo tagged
    /// with the child `child_id`, and the cursor of the next page (`None`
    /// once the feed is exhausted).
    pub fn from_feed_json(feed_json: String, child_id: &String) -> (r: Result<(Vec<Post>, Option<String>), DecodeError>)
        ensures
            match json_of_text(feed_json@) {
                Ok(v) => page_outcome(r) == feed_page(v, Some(child_id@)),
                Err(reason) => r matches Err(e) && e@ == (Fault::Syntax { reason }),
            },
    {
        let v = Json::parse(feed_json.as_str())?;
        Post::from_feed_value(&v, Some(child_id))
    }
}

} // verus!
