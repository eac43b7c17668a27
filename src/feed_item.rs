//! A light reading of the activity feed that keeps only the text of each
//! content post.

use vstd::prelude::*;
use crate::error::{DecodeError, Fault, outcome};
use crate::filter::{is_content, is_content_item};
use crate::json::{
    Json, field, string_at, page_cursor, page_outcome, views, last_item_cursor, json_of_text,
    parse_string,
};

verus! {

pub struct FeedItem {
    pub text: String,
}

impl View for FeedItem {
    type V = Seq<char>;

    open spec fn view(&self) -> Seq<char> {
        self.text@
    }
}

/// The text of a feed item node.
pub open spec fn item_text(j: Json) -> Result<Seq<char>, Fault> {
    string_at(j, "body"@)
}

/// The texts of the content posts among the raw feed `items`, in order; the
/// first that fails to decode fails them all.
pub open spec fn item_texts(items: Seq<Json>) -> Result<Seq<Seq<char>>, Fault>
    decreases items.len(),
{
    if items.len() == 0 {
        Ok(Seq::empty())
    } else {
        match item_texts(items.drop_last()) {
            Err(e) => Err(e),
            Ok(done) => if !is_content(items.last()) {
                Ok(done)
            } else {
                match item_text(items.last()) {
                    Err(e) => Err(e),
                    Ok(t) => Ok(done.push(t)),
                }
            },
        }
    }
}

/// What a feed page document yields: the texts of its content posts, and the
/// cursor of the next page.
pub open spec fn item_page(v: Json) -> Result<(Seq<Seq<char>>, Option<Seq<char>>), Fault> {
    match field(v, "feedItems"@) {
        Json::Array(items) => match item_texts(items@) {
            Err(e) => Err(e),
            Ok(texts) => match page_cursor(items@, "createdDate"@) {
                Err(e) => Err(e),
                Ok(cursor) => Ok((texts, cursor)),
            },
        },
        _ => Err(Fault::MissingArray { path: "feedItems"@ }),
    }
}

impl FeedItem {
    /// Decodes one feed item node.
    pub fn from_json(json: &Json) -> (r: Result<FeedItem, DecodeError>)
        ensures
            outcome(r) == item_text(*json),
    {
        let text = parse_string(json, "body")?;
        Ok(FeedItem { text })
    }
}

/// The content posts of a decoded feed page, and the cursor of the next page.
pub fn from_value(v: &Json) -> (r: Result<(Vec<FeedItem>, Option<String>), DecodeError>)
    ensures
        page_outcome(r) == item_page(*v),
{
    let feed_items = match v.get("feedItems") {
        Some(Json::Array(items)) => items,
        _ => {
            return Err(DecodeError::MissingArray { path: String::from_str("feedItems") });
        },
    };
    let mut items: Vec<FeedItem> = Vec::new();
    let mut i: usize = 0;
    proof {
        assert(feed_items@.subrange(0, 0) =~= Seq::<Json>::empty());
        assert(views(items@) =~= Seq::<Seq<char>>::empty());
    }
    while i < feed_items.len()
        invariant
            i <= feed_items@.len(),
            field(*v, "feedItems"@) == Json::Array(*feed_items),
            item_texts(feed_items@.subrange(0, i as int)) == Ok::<Seq<Seq<char>>, Fault>(views(items@)),
        decreases feed_items.len() - i,
    {
        let f = &feed_items[i];
        proof {
            assert(feed_items@.subrange(0, i + 1).drop_last() =~= feed_items@.subrange(0, i as int));
            assert(feed_items@.subrange(0, i + 1).last() == *f);
        }
        if is_content_item(f) {
            match FeedItem::from_json(f) {
                Ok(item) => {
                    let ghost before = items@;
                    let ghost tv = item@;
                    items.push(item);
                    proof {
                        assert(views(items@) =~= views(before).push(tv));
                    }
                },
                Err(e) => {
                    proof {
                        lemma_item_texts_stops(feed_items@, i + 1);
                    }
                    return Err(e);
                },
            }
        }
        i = i + 1;
    }
    proof {
        assert(feed_items@.subrange(0, feed_items@.len() as int) =~= feed_items@);
    }
    let cursor = last_item_cursor(feed_items, "createdDate")?;
    Ok((items, cursor))
}

/// Once the raw items up to `n` fail, all of them fail with the same fault.
pub proof fn lemma_item_texts_stops(items: Seq<Json>, n: int)
    requires
        0 <= n <= items.len(),
        item_texts(items.subrange(0, n)) is Err,
    ensures
        item_texts(items) == item_texts(items.subrange(0, n)),
    decreases items.len() - n,
{
    if n == items.len() {
        assert(items.subrange(0, n) =~= items);
    } else {
        assert(items.subrange(0, n + 1).drop_last() =~= items.subrange(0, n));
        lemma_item_texts_stops(items, n + 1);
    }
}

/// Reads a page of the activity feed into the texts of its content posts,
/// and the cursor of the next page (`None` once the feed is exhausted).
pub fn from_json(json: String) -> (r: Result<(Vec<FeedItem>, Option<String>), DecodeError>)
    ensures
        match json_of_text(json@) {
            Ok(v) => page_outcome(r) == item_page(v),
            Err(reason) => r matches Err(e) && e@ == (Fault::Syntax { reason }),
        },
{
    let v = Json::parse(json.as_str())?;
    from_value(&v)
}

} // verus!
